use snaprust::capture::{
    capture_delay_ms, plan_capture, resolve_display, CaptureError, CaptureRequest,
};

#[test]
fn short_timer_is_lengthened() {
    assert_eq!(capture_delay_ms(0), 350);
    assert_eq!(capture_delay_ms(999), 1349);
}

#[test]
fn long_timer_is_kept() {
    assert_eq!(capture_delay_ms(1000), 1000);
    assert_eq!(capture_delay_ms(10_000), 10_000);
    assert_eq!(capture_delay_ms(u64::MAX), u64::MAX);
}

#[test]
fn valid_display_is_planned() {
    assert_eq!(
        plan_capture(1, 2, 3000),
        Ok(CaptureRequest { display: 1, delay_ms: 3000 })
    );
    assert_eq!(
        plan_capture(0, 1, 0),
        Ok(CaptureRequest { display: 0, delay_ms: 0 })
    );
    assert_eq!(
        plan_capture(0, 1, capture_delay_ms(0)),
        Ok(CaptureRequest { display: 0, delay_ms: 350 })
    );
}

#[test]
fn invalid_display_fails_before_dispatch() {
    assert_eq!(plan_capture(2, 2, 0), Err(CaptureError::InvalidDisplay));
    assert_eq!(plan_capture(0, 0, 0), Err(CaptureError::InvalidDisplay));
}

#[test]
fn vanished_display_drops_the_request() {
    let request = CaptureRequest { display: 1, delay_ms: 350 };
    assert_eq!(resolve_display(request, 2), Ok(1));
    assert_eq!(resolve_display(request, 1), Err(CaptureError::InvalidDisplay));
}
