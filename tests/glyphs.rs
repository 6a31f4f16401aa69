use kave::keysym::{glyph, is_modifier_key, KEY_CAPS_LOCK, KEY_F12, KEY_SHIFT_L};

#[test]
fn caps_lock_uses_curated_glyph() {
    assert_eq!(glyph(KEY_CAPS_LOCK), "⇪");
    assert!(is_modifier_key(KEY_CAPS_LOCK));
}

#[test]
fn letter_falls_back_to_layout_text() {
    assert_eq!(glyph(0x61), "a");
    assert!(!is_modifier_key(0x61));
}

#[test]
fn function_key_label() {
    assert_eq!(glyph(KEY_F12), "F12");
    assert_eq!(glyph(KEY_SHIFT_L), "⇧");
}

#[test]
fn space_and_empty_fallback() {
    assert_eq!(glyph(kave::keysym::KEY_SPACE), "␣");
    assert_eq!(glyph(kave::keysym::KEY_NUM_LOCK), "");
    assert!(is_modifier_key(kave::keysym::KEY_NUM_LOCK));
    assert!(is_modifier_key(kave::keysym::KEY_TAB));
}
