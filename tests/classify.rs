use kave::classifier::{keycode_of, KeyTracker, Transition};
use kave::fade::FadeScheduler;
use kave::keysym::{
    KEY_ALT_L, KEY_CAPS_LOCK, KEY_CONTROL_L, KEY_RETURN, KEY_SHIFT_L, KEY_SHIFT_R, KEY_SUPER_L,
};

const KEY_A: u32 = 0x61;

#[test]
fn shift_then_letter_scenario() {
    let mut t = KeyTracker::new();
    let mut f = FadeScheduler::new();
    let s = t.on_key(KEY_SHIFT_L, Transition::Press).unwrap();
    assert_eq!(s, "⇧");
    assert_eq!(f.notify(&s).text, "⇧");
    let s = t.on_key(KEY_A, Transition::Press).unwrap();
    assert_eq!(s, "⇧ a");
    let cmd = f.notify(&s);
    assert_eq!(cmd.text, "⇧ A");
    assert_eq!(cmd.delay_ms, 700);
    assert_eq!(t.on_key(KEY_A, Transition::Release), None);
    assert_eq!(t.on_key(KEY_SHIFT_L, Transition::Release), None);
    assert_eq!(t.held_glyphs(), "");
    assert!(!f.timer_fired(0));
    assert!(f.timer_fired(cmd.schedule));
}

#[test]
fn caps_lock_is_announced_with_its_glyph() {
    let mut t = KeyTracker::new();
    assert_eq!(t.on_key(KEY_CAPS_LOCK, Transition::Press), Some("⇪".to_string()));
}

#[test]
fn plain_key_without_modifiers_is_silent() {
    let mut t = KeyTracker::new();
    assert_eq!(t.on_key(KEY_A, Transition::Press), None);
    assert_eq!(t.on_key(KEY_A, Transition::Repeat), None);
}

#[test]
fn release_never_announces() {
    let mut t = KeyTracker::new();
    t.on_key(KEY_CONTROL_L, Transition::Press);
    assert_eq!(t.on_key(KEY_A, Transition::Release), None);
    assert_eq!(t.on_key(KEY_CONTROL_L, Transition::Release), None);
}

#[test]
fn modifier_level_tracking() {
    let mut t = KeyTracker::new();
    t.on_key(KEY_SHIFT_L, Transition::Press);
    t.on_key(KEY_SHIFT_L, Transition::Repeat);
    t.on_key(KEY_SHIFT_L, Transition::Press);
    assert_eq!(t.held_glyphs(), "⇧");
    t.on_key(KEY_SHIFT_L, Transition::Release);
    assert_eq!(t.held_glyphs(), "");
    t.on_key(KEY_SHIFT_L, Transition::Release);
    assert_eq!(t.held_glyphs(), "");
    assert_eq!(t.on_key(KEY_A, Transition::Press), None);
}

#[test]
fn modifiers_show_in_fixed_order() {
    let mut a = KeyTracker::new();
    a.on_key(KEY_SHIFT_L, Transition::Press);
    a.on_key(KEY_SUPER_L, Transition::Press);
    let x = a.on_key(KEY_CONTROL_L, Transition::Press).unwrap();
    let mut b = KeyTracker::new();
    b.on_key(KEY_CONTROL_L, Transition::Press);
    b.on_key(KEY_SUPER_L, Transition::Press);
    let y = b.on_key(KEY_SHIFT_L, Transition::Press).unwrap();
    assert_eq!(x, "⌃ ⇧ ⊞");
    assert_eq!(x, y);
    assert_eq!(b.on_key(KEY_ALT_L, Transition::Press).unwrap(), "⌃ ⎇ ⇧ ⊞");
}

#[test]
fn action_key_combination() {
    let mut t = KeyTracker::new();
    t.on_key(KEY_CONTROL_L, Transition::Press);
    assert_eq!(t.on_key(KEY_RETURN, Transition::Press).unwrap(), "⌃ ⏎");
    assert_eq!(t.on_key(KEY_A, Transition::Repeat).unwrap(), "⌃ ⏎ a");
}

#[test]
fn left_and_right_shift_are_distinct_members() {
    let mut t = KeyTracker::new();
    t.on_key(KEY_SHIFT_L, Transition::Press);
    assert_eq!(t.on_key(KEY_SHIFT_R, Transition::Press).unwrap(), "⇧ ⇧");
    t.on_key(KEY_SHIFT_L, Transition::Release);
    assert_eq!(t.held_glyphs(), "⇧");
}

#[test]
fn event_values_and_keycodes() {
    assert_eq!(Transition::from_value(0), Some(Transition::Release));
    assert_eq!(Transition::from_value(1), Some(Transition::Press));
    assert_eq!(Transition::from_value(2), Some(Transition::Repeat));
    assert_eq!(Transition::from_value(3), None);
    assert_eq!(Transition::from_value(-1), None);
    assert!(Transition::Repeat.is_down());
    assert!(!Transition::Release.is_down());
    assert_eq!(keycode_of(30), 38);
    assert_eq!(keycode_of(u16::MAX), 65543);
}

#[test]
fn second_notification_replaces_timer() {
    let mut f = FadeScheduler::new();
    let first = f.notify("⇧");
    assert_eq!(first.cancel, None);
    let second = f.notify("⇧ b");
    assert_eq!(second.text, "⇧ B");
    assert_eq!(second.cancel, Some(first.schedule));
    assert_ne!(first.schedule, second.schedule);
    assert!(!f.timer_fired(first.schedule));
    assert!(f.timer_fired(second.schedule));
    assert!(!f.timer_fired(second.schedule));
    assert_eq!(f.pending, None);
}

#[test]
fn timer_ids_wrap_around() {
    let mut f = FadeScheduler { pending: None, next_id: u64::MAX };
    let a = f.notify("x");
    let b = f.notify("y");
    assert_eq!(a.schedule, u64::MAX);
    assert_eq!(b.schedule, 0);
    assert_eq!(b.cancel, Some(u64::MAX));
}
