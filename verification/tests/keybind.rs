use lumina::keybind::{keys_display, KeyRecorder, KeybindDisplay};

#[test]
fn combination_recorded_when_all_keys_released() {
    let mut r = KeyRecorder::new(None);
    assert!(r.key_down(true, Some(10)));
    assert!(r.key_down(true, Some(20)));
    assert_eq!(r.key_up(true, Some(10)), None);
    assert_eq!(r.display(true), KeybindDisplay::Keys(vec![10, 20]));
    assert_eq!(r.key_up(true, Some(20)), Some(vec![10, 20]));
    assert_eq!(r.recorded(), &vec![10, 20]);
    assert!(r.candidate().is_empty());
    assert!(r.pressing().is_empty());
}

#[test]
fn repeated_key_counts_once() {
    let mut r = KeyRecorder::new(None);
    r.key_down(true, Some(1));
    r.key_down(true, Some(1));
    r.key_down(true, Some(2));
    assert_eq!(r.candidate(), &vec![1, 2]);
    assert_eq!(r.pressing(), &vec![1, 2]);
}

#[test]
fn unfocused_events_change_nothing() {
    let mut r = KeyRecorder::new(Some(vec![5]));
    assert!(!r.key_down(false, Some(1)));
    assert_eq!(r.key_up(false, Some(1)), None);
    assert!(!r.global_press(false));
    assert!(r.pressing().is_empty());
    assert!(r.candidate().is_empty());
    assert_eq!(r.recorded(), &vec![5]);
    assert_eq!(r.display(false), KeybindDisplay::Keys(vec![5]));
}

#[test]
fn unknown_key_is_ignored() {
    let mut r = KeyRecorder::new(None);
    assert!(!r.key_down(true, None));
    assert_eq!(r.key_up(true, None), None);
    assert!(r.candidate().is_empty());
}

#[test]
fn press_elsewhere_drops_recording() {
    let mut r = KeyRecorder::new(Some(vec![3]));
    r.key_down(true, Some(1));
    assert!(r.global_press(true));
    assert!(r.pressing().is_empty());
    assert!(r.candidate().is_empty());
    assert_eq!(r.recorded(), &vec![3]);
    assert_eq!(r.key_up(true, Some(1)), None);
}

#[test]
fn display_states() {
    let r = KeyRecorder::new(None);
    assert_eq!(r.display(true), KeybindDisplay::Placeholder);
    assert_eq!(r.display(false), KeybindDisplay::Blank);
    let mut r = KeyRecorder::new(Some(vec![4, 5]));
    assert_eq!(r.display(true), KeybindDisplay::Keys(vec![4, 5]));
    r.key_down(true, Some(9));
    assert_eq!(r.display(true), KeybindDisplay::Keys(vec![9]));
    assert_eq!(r.display(false), KeybindDisplay::Keys(vec![4, 5]));
}

#[test]
fn keys_display_joins_names() {
    let names = vec!["ControlLeft".to_string(), "ShiftLeft".to_string(), "KeyA".to_string()];
    assert_eq!(keys_display(&names), "ControlLeft + ShiftLeft + KeyA");
    assert_eq!(keys_display(&Vec::new()), "");
}

#[test]
fn recordings_restart_after_each_end() {
    let mut r = KeyRecorder::new(None);
    r.key_down(true, Some(1));
    r.key_down(true, Some(2));
    r.key_down(true, Some(1));
    assert_eq!(r.key_up(true, Some(2)), None);
    assert_eq!(r.key_up(true, Some(1)), Some(vec![1, 2]));
    r.key_down(true, Some(3));
    assert!(r.global_press(true));
    r.key_down(true, Some(4));
    r.key_down(true, Some(3));
    assert_eq!(r.key_up(true, Some(4)), None);
    assert_eq!(r.key_up(true, Some(3)), Some(vec![4, 3]));
    assert_eq!(r.recorded(), &vec![4, 3]);
}
