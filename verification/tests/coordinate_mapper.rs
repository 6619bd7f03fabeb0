use snaprust::tool_utils::get_real_image_pos;

#[test]
fn pointer_in_half_size_widget_maps_to_double() {
    assert_eq!(get_real_image_pos((50, 50), (100, 100), (200, 200)), (100, 100));
}

#[test]
fn axes_scale_independently() {
    assert_eq!(get_real_image_pos((10, 10), (100, 50), (200, 200)), (20, 40));
}

#[test]
fn identity_when_sizes_agree() {
    assert_eq!(get_real_image_pos((37, 91), (640, 480), (640, 480)), (37, 91));
}

#[test]
fn fraction_is_dropped_towards_zero() {
    assert_eq!(get_real_image_pos((7, 5), (2, 2), (1, 1)), (3, 2));
    assert_eq!(get_real_image_pos((-7, -5), (2, 2), (1, 1)), (-3, -2));
}

#[test]
fn result_is_not_clamped() {
    assert_eq!(get_real_image_pos((150, -20), (100, 100), (200, 200)), (300, -40));
}

#[test]
fn extreme_values_fit() {
    assert_eq!(
        get_real_image_pos((i32::MIN, i32::MAX), (1, 1), (u32::MAX, u32::MAX)),
        (
            i32::MIN as i64 * u32::MAX as i64,
            i32::MAX as i64 * u32::MAX as i64
        )
    );
}

#[test]
fn empty_bitmap_maps_everything_to_the_origin() {
    assert_eq!(get_real_image_pos((12, 34), (10, 10), (0, 0)), (0, 0));
}
