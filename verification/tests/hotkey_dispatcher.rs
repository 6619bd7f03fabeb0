use global_hotkey::hotkey::{Code, HotKey, Modifiers};
use snaprust::hotkeys_utils::{
    edit_key_text, key_from_upper, string_to_key, string_to_modifiers, Action, Hotkey,
    HotkeyDispatcher, HotkeyError, Key, Modifier, RegisteredHotkey,
};

fn chords(d: &HotkeyDispatcher) -> Vec<(Action, Modifier, Key)> {
    d.hotkeys().iter().map(|h| (h.label, h.modifier, h.code)).collect()
}

fn drafts(d: &HotkeyDispatcher) -> Vec<(Action, Modifier, Key)> {
    d.hotkeys().iter().map(|h| (h.label, h.tmp_modifier, h.tmp_code)).collect()
}

fn default_chords() -> Vec<(Action, Modifier, Key)> {
    vec![
        (Action::CopyImage, Modifier::Ctrl, Key::KeyC),
        (Action::SaveImage, Modifier::Ctrl, Key::KeyS),
        (Action::TakeSnapshot, Modifier::Ctrl, Key::KeyT),
        (Action::SelectNoTool, Modifier::Ctrl, Key::KeyN),
        (Action::SelectPen, Modifier::Ctrl, Key::KeyP),
        (Action::SelectCrop, Modifier::Ctrl, Key::KeyX),
        (Action::Undo, Modifier::Ctrl, Key::KeyZ),
        (Action::Redo, Modifier::Ctrl, Key::KeyY),
    ]
}

#[test]
fn string_to_key_reads_letters_in_either_case() {
    assert_eq!(string_to_key("A"), Some(Key::KeyA));
    assert_eq!(string_to_key("a"), Some(Key::KeyA));
    assert_eq!(string_to_key("z"), Some(Key::KeyZ));
    assert_eq!(string_to_key("M"), Some(Key::KeyM));
}

#[test]
fn string_to_key_refuses_everything_else() {
    assert_eq!(string_to_key(""), None);
    assert_eq!(string_to_key("1"), None);
    assert_eq!(string_to_key("AB"), None);
    assert_eq!(string_to_key(" "), None);
    assert_eq!(string_to_key("é"), None);
    assert_eq!(string_to_key("ß"), None);
}

#[test]
fn key_from_upper_wants_a_capital() {
    assert_eq!(key_from_upper("Q"), Some(Key::KeyQ));
    assert_eq!(key_from_upper("q"), None);
    assert_eq!(key_from_upper("QQ"), None);
    assert_eq!(key_from_upper(""), None);
}

#[test]
fn every_letter_round_trips() {
    for c in 'A'..='Z' {
        let key = Key::from_letter(c).unwrap();
        assert_eq!(key.letter(), c);
        assert_eq!(key.index(), c as u32 - 'A' as u32);
        assert_eq!(string_to_key(&c.to_string()), Some(key));
        assert_eq!(string_to_key(&c.to_ascii_lowercase().to_string()), Some(key));
    }
    assert_eq!(Key::from_letter('a'), None);
    assert_eq!(Key::from_letter('['), None);
    assert_eq!(Key::from_letter('@'), None);
}

#[test]
fn string_to_modifiers_reads_the_three_names() {
    assert_eq!(string_to_modifiers(&"ALT".to_string()), Some(Modifier::Alt));
    assert_eq!(string_to_modifiers(&"CTRL".to_string()), Some(Modifier::Ctrl));
    assert_eq!(string_to_modifiers(&"SHIFT".to_string()), Some(Modifier::Shift));
}

#[test]
fn string_to_modifiers_refuses_other_names() {
    assert_eq!(string_to_modifiers(&"".to_string()), None);
    assert_eq!(string_to_modifiers(&"alt".to_string()), None);
    assert_eq!(string_to_modifiers(&"CTL".to_string()), None);
    assert_eq!(string_to_modifiers(&"SUPER".to_string()), None);
    assert_eq!(string_to_modifiers(&"SHIFT ".to_string()), None);
    assert_eq!(string_to_modifiers(&"CTRX".to_string()), None);
}

#[test]
fn modifier_names_read_back() {
    for m in [Modifier::Alt, Modifier::Ctrl, Modifier::Shift] {
        assert_eq!(string_to_modifiers(&m.name().to_string()), Some(m));
    }
    assert_eq!(Modifier::Alt.name(), "ALT");
    assert_eq!(Modifier::Ctrl.name(), "CTRL");
    assert_eq!(Modifier::Shift.name(), "SHIFT");
}

#[test]
fn action_labels() {
    let labels: Vec<&str> = default_chords().iter().map(|(a, _, _)| a.label()).collect();
    assert_eq!(labels, vec!["Copy", "Save", "Take", "None", "Pen", "Crop", "Undo", "Redo"]);
}

#[test]
fn modifier_indices_are_distinct() {
    assert_eq!(Modifier::Alt.index(), 0);
    assert_eq!(Modifier::Ctrl.index(), 1);
    assert_eq!(Modifier::Shift.index(), 2);
}

#[test]
fn edit_key_text_follows_the_typed_letter() {
    // The field held S; the user typed x after it, or before it.
    assert_eq!(edit_key_text(Key::KeyS, "Sx"), Key::KeyX);
    assert_eq!(edit_key_text(Key::KeyS, "xS"), Key::KeyX);
    // The field was replaced by one letter.
    assert_eq!(edit_key_text(Key::KeyS, "q"), Key::KeyQ);
}

#[test]
fn edit_key_text_keeps_the_key_on_bad_input() {
    assert_eq!(edit_key_text(Key::KeyS, ""), Key::KeyS);
    assert_eq!(edit_key_text(Key::KeyS, "1"), Key::KeyS);
    assert_eq!(edit_key_text(Key::KeyS, "S1"), Key::KeyS);
    assert_eq!(edit_key_text(Key::KeyS, "1S"), Key::KeyS);
    assert_eq!(edit_key_text(Key::KeyS, "ab"), Key::KeyS);
    assert_eq!(edit_key_text(Key::KeyS, "é"), Key::KeyS);
}

#[test]
fn handle_identifier_is_that_of_the_system_hotkey() {
    let handle = RegisteredHotkey::new(Modifier::Ctrl, Key::KeyS);
    assert_eq!(handle.id(), HotKey::new(Some(Modifiers::CONTROL), Code::KeyS).id());
    assert_eq!(handle.modifier(), Modifier::Ctrl);
    assert_eq!(handle.code(), Key::KeyS);
    let alt = RegisteredHotkey::new(Modifier::Alt, Key::KeyA);
    assert_eq!(alt.id(), HotKey::new(Some(Modifiers::ALT), Code::KeyA).id());
    let shift = RegisteredHotkey::new(Modifier::Shift, Key::KeyZ);
    assert_eq!(shift.id(), HotKey::new(Some(Modifiers::SHIFT), Code::KeyZ).id());
    assert_ne!(handle.id(), alt.id());
}

#[test]
fn new_binding_stages_its_own_chord() {
    let h = Hotkey::new(Action::Undo, Modifier::Shift, Key::KeyU);
    assert_eq!(h.label, Action::Undo);
    assert_eq!((h.modifier, h.code), (Modifier::Shift, Key::KeyU));
    assert_eq!((h.tmp_modifier, h.tmp_code), (Modifier::Shift, Key::KeyU));
    assert_eq!(h.registered_hotkey.id(), RegisteredHotkey::new(Modifier::Shift, Key::KeyU).id());
}

#[test]
fn register_makes_the_handle_anew() {
    let mut h = Hotkey::new(Action::Undo, Modifier::Shift, Key::KeyU);
    h.modifier = Modifier::Alt;
    h.code = Key::KeyB;
    let before = h.unregister();
    assert_eq!(before.id(), RegisteredHotkey::new(Modifier::Shift, Key::KeyU).id());
    let handle = h.register();
    assert_eq!(handle.id(), RegisteredHotkey::new(Modifier::Alt, Key::KeyB).id());
    assert_eq!(h.registered_hotkey.id(), handle.id());
    assert_eq!((handle.modifier(), handle.code()), (Modifier::Alt, Key::KeyB));
}

#[test]
fn dispatcher_starts_with_the_defaults() {
    let d = HotkeyDispatcher::new();
    assert_eq!(chords(&d), default_chords());
    assert_eq!(drafts(&d), default_chords());
    assert!(d.is_valid());
    assert!(!d.has_conflict());
}

#[test]
fn stage_edit_changes_the_draft_only() {
    let mut d = HotkeyDispatcher::new();
    d.stage_edit(Action::SelectPen, Modifier::Alt, Key::KeyQ);
    assert_eq!(chords(&d), default_chords());
    let mut expected = default_chords();
    expected[4] = (Action::SelectPen, Modifier::Alt, Key::KeyQ);
    assert_eq!(drafts(&d), expected);
    assert_eq!(d.dispatch(RegisteredHotkey::new(Modifier::Alt, Key::KeyQ).id()), None);
}

#[test]
fn commit_with_two_bindings_on_ctrl_s_fails() {
    let mut d = HotkeyDispatcher::new();
    d.stage_edit(Action::CopyImage, Modifier::Ctrl, Key::KeyS);
    let draft = drafts(&d);
    assert!(d.has_conflict());
    let res = d.commit();
    assert_eq!(res.err(), Some(HotkeyError::AlreadyInUse));
    assert_eq!(chords(&d), default_chords());
    assert_eq!(drafts(&d), draft);
    assert!(!d.is_valid());
    // The defaults still dispatch.
    let ctrl_c = RegisteredHotkey::new(Modifier::Ctrl, Key::KeyC).id();
    assert_eq!(d.dispatch(ctrl_c), Some(Action::CopyImage));
}

#[test]
fn same_key_on_different_modifiers_is_no_conflict() {
    let mut d = HotkeyDispatcher::new();
    d.stage_edit(Action::CopyImage, Modifier::Shift, Key::KeyS);
    assert!(!d.has_conflict());
    assert!(d.commit().is_ok());
    assert!(d.is_valid());
}

#[test]
fn commit_applies_the_draft_and_lists_the_handles() {
    let mut d = HotkeyDispatcher::new();
    let old_ids: Vec<u32> = d.hotkeys().iter().map(|h| h.registered_hotkey.id()).collect();
    d.stage_edit(Action::Undo, Modifier::Alt, Key::KeyU);
    let plan = d.commit().ok().unwrap();
    let mut expected = default_chords();
    expected[6] = (Action::Undo, Modifier::Alt, Key::KeyU);
    assert_eq!(chords(&d), expected);
    assert_eq!(drafts(&d), expected);
    assert!(d.is_valid());
    let unregistered: Vec<u32> = plan.unregister.iter().map(|h| h.id()).collect();
    assert_eq!(unregistered, old_ids);
    let registered: Vec<u32> = plan.register.iter().map(|h| h.id()).collect();
    let new_ids: Vec<u32> = d.hotkeys().iter().map(|h| h.registered_hotkey.id()).collect();
    assert_eq!(registered, new_ids);
    assert_eq!(new_ids[6], HotKey::new(Some(Modifiers::ALT), Code::KeyU).id());
    assert_eq!(new_ids[0], old_ids[0]);
}

#[test]
fn dispatch_finds_the_committed_binding() {
    let mut d = HotkeyDispatcher::new();
    let ctrl_z = HotKey::new(Some(Modifiers::CONTROL), Code::KeyZ).id();
    let alt_u = HotKey::new(Some(Modifiers::ALT), Code::KeyU).id();
    assert_eq!(d.dispatch(ctrl_z), Some(Action::Undo));
    assert_eq!(d.dispatch(alt_u), None);
    d.stage_edit(Action::Undo, Modifier::Alt, Key::KeyU);
    assert!(d.commit().is_ok());
    assert_eq!(d.dispatch(alt_u), Some(Action::Undo));
    assert_eq!(d.dispatch(ctrl_z), None);
}

#[test]
fn dispatch_covers_every_default() {
    let d = HotkeyDispatcher::new();
    for (label, modifier, key) in default_chords() {
        let id = RegisteredHotkey::new(modifier, key).id();
        assert_eq!(d.dispatch(id), Some(label));
    }
}

#[test]
fn begin_edit_discards_an_abandoned_draft() {
    let mut d = HotkeyDispatcher::new();
    d.stage_edit(Action::CopyImage, Modifier::Ctrl, Key::KeyS);
    assert!(d.commit().is_err());
    d.cancel_edit();
    assert!(d.is_valid());
    assert!(d.has_conflict());
    d.begin_edit();
    assert_eq!(drafts(&d), default_chords());
    assert!(!d.has_conflict());
}

#[test]
fn swap_of_two_chords_commits() {
    let mut d = HotkeyDispatcher::new();
    d.stage_edit(Action::CopyImage, Modifier::Ctrl, Key::KeyS);
    d.stage_edit(Action::SaveImage, Modifier::Ctrl, Key::KeyC);
    assert!(d.commit().is_ok());
    let ctrl_c = RegisteredHotkey::new(Modifier::Ctrl, Key::KeyC).id();
    let ctrl_s = RegisteredHotkey::new(Modifier::Ctrl, Key::KeyS).id();
    assert_eq!(d.dispatch(ctrl_c), Some(Action::SaveImage));
    assert_eq!(d.dispatch(ctrl_s), Some(Action::CopyImage));
}

#[test]
fn register_and_unregister_list_the_handles() {
    let mut d = HotkeyDispatcher::new();
    let released: Vec<u32> = d.unregister_hotkeys().iter().map(|h| h.id()).collect();
    let registered: Vec<u32> = d.register_hotkeys().iter().map(|h| h.id()).collect();
    assert_eq!(released.len(), 8);
    assert_eq!(released, registered);
    assert_eq!(registered[1], HotKey::new(Some(Modifiers::CONTROL), Code::KeyS).id());
}
