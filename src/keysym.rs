//! Keyboard symbols (keysyms) as raw `u32` values, their classification as
//! modifier-like keys, and the glyph that stands for each of them.
use vstd::prelude::*;

verus! {

pub const KEY_SPACE: u32 = 0x0020;
pub const KEY_BACKSPACE: u32 = 0xff08;
pub const KEY_TAB: u32 = 0xff09;
pub const KEY_RETURN: u32 = 0xff0d;
pub const KEY_ESCAPE: u32 = 0xff1b;
pub const KEY_HOME: u32 = 0xff50;
pub const KEY_LEFT: u32 = 0xff51;
pub const KEY_UP: u32 = 0xff52;
pub const KEY_RIGHT: u32 = 0xff53;
pub const KEY_DOWN: u32 = 0xff54;
pub const KEY_PAGE_UP: u32 = 0xff55;
pub const KEY_PAGE_DOWN: u32 = 0xff56;
pub const KEY_END: u32 = 0xff57;
pub const KEY_PRINT: u32 = 0xff61;
pub const KEY_INSERT: u32 = 0xff63;
pub const KEY_MODE_SWITCH: u32 = 0xff7e;
pub const KEY_NUM_LOCK: u32 = 0xff7f;
pub const KEY_F1: u32 = 0xffbe;
pub const KEY_F2: u32 = 0xffbf;
pub const KEY_F3: u32 = 0xffc0;
pub const KEY_F4: u32 = 0xffc1;
pub const KEY_F5: u32 = 0xffc2;
pub const KEY_F6: u32 = 0xffc3;
pub const KEY_F7: u32 = 0xffc4;
pub const KEY_F8: u32 = 0xffc5;
pub const KEY_F9: u32 = 0xffc6;
pub const KEY_F10: u32 = 0xffc7;
pub const KEY_F11: u32 = 0xffc8;
pub const KEY_F12: u32 = 0xffc9;
pub const KEY_SHIFT_L: u32 = 0xffe1;
pub const KEY_SHIFT_R: u32 = 0xffe2;
pub const KEY_CONTROL_L: u32 = 0xffe3;
pub const KEY_CONTROL_R: u32 = 0xffe4;
pub const KEY_CAPS_LOCK: u32 = 0xffe5;
pub const KEY_META_L: u32 = 0xffe7;
pub const KEY_META_R: u32 = 0xffe8;
pub const KEY_ALT_L: u32 = 0xffe9;
pub const KEY_ALT_R: u32 = 0xffea;
pub const KEY_SUPER_L: u32 = 0xffeb;
pub const KEY_SUPER_R: u32 = 0xffec;
pub const KEY_HYPER_L: u32 = 0xffed;
pub const KEY_HYPER_R: u32 = 0xffee;
pub const KEY_ISO_LOCK: u32 = 0xfe01;
pub const KEY_ISO_LEVEL5_LOCK: u32 = 0xfe13;
pub const KEY_DELETE: u32 = 0xffff;
pub const KEY_FUNCTION: u32 = 0x08f6;

/// The keysyms that the layout library itself classifies as modifiers:
/// Shift, Control, Caps/Shift lock, Meta, Alt, Super and Hyper, the ISO
/// lock and level keys, Mode_switch and Num_Lock.
pub open spec fn is_generic_modifier(k: u32) -> bool {
    (KEY_SHIFT_L <= k && k <= KEY_HYPER_R)
        || (KEY_ISO_LOCK <= k && k <= KEY_ISO_LEVEL5_LOCK)
        || k == KEY_MODE_SWITCH
        || k == KEY_NUM_LOCK
}

/// The five editing keys that are announced like modifiers.
pub open spec fn is_action_key(k: u32) -> bool {
    k == KEY_BACKSPACE || k == KEY_RETURN || k == KEY_DELETE || k == KEY_TAB || k == KEY_ESCAPE
}

/// Modifier-class keys: held state is tracked and they are announced alone.
pub open spec fn is_modifier(k: u32) -> bool {
    is_action_key(k) || is_generic_modifier(k)
}

/// Relies on `xkeysym::Keysym::is_modifier_key` (the keysym type that
/// xkbcommon re-exports as `xkb::Keysym`): a match on the ranges
/// Shift_L..=Hyper_R and ISO_Lock..=ISO_Level5_Lock and on Mode_switch and
/// Num_Lock.
#[verifier::external_body]
pub(crate) fn layout_is_modifier(k: u32) -> (r: bool)
    ensures
        r == is_generic_modifier(k),
{
    xkeysym::Keysym::new(k).is_modifier_key()
}

/// Whether `k` is a modifier-class key.
pub fn is_modifier_key(k: u32) -> (r: bool)
    ensures
        r == is_modifier(k),
{
    if k == KEY_BACKSPACE || k == KEY_RETURN || k == KEY_DELETE || k == KEY_TAB || k == KEY_ESCAPE {
        true
    } else {
        layout_is_modifier(k)
    }
}

/// The character that the layout library gives for a keysym, if any.
pub uninterp spec fn key_char_of(k: u32) -> Option<char>;

/// Relies on `xkeysym::Keysym::key_char`: the character of a keysym,
/// following libxkbcommon's `xkb_keysym_to_utf32`; a function of the keysym
/// alone.
#[verifier::external_body]
fn layout_key_char(k: u32) -> (r: Option<char>)
    ensures
        r == key_char_of(k),
{
    xkeysym::Keysym::new(k).key_char()
}

/// Relies on `String::from(char)`: a string of that one character.
#[verifier::external_body]
fn char_string(c: char) -> (r: String)
    ensures
        r@ == seq![c],
{
    String::from(c)
}

/// The layout library's text for a keysym: its character, or nothing.
pub open spec fn utf8_of(k: u32) -> Seq<char> {
    match key_char_of(k) {
        Some(c) => seq![c],
        None => Seq::empty(),
    }
}

/// The curated glyphs, which take precedence over the layout library's text.
pub open spec fn override_glyph(k: u32) -> Option<Seq<char>> {
    if k == KEY_SPACE { Some("␣"@) }
    else if k == KEY_CAPS_LOCK { Some("⇪"@) }
    else if k == KEY_BACKSPACE { Some("⌫"@) }
    else if k == KEY_RETURN { Some("⏎"@) }
    else if k == KEY_ESCAPE { Some("⎋"@) }
    else if k == KEY_TAB { Some("⇥"@) }
    else if k == KEY_DELETE { Some("⌦"@) }
    else if k == KEY_INSERT { Some("󰏔"@) }
    else if k == KEY_HOME { Some("󰋜"@) }
    else if k == KEY_END { Some("󰘵"@) }
    else if k == KEY_PAGE_UP { Some("󰙪"@) }
    else if k == KEY_PAGE_DOWN { Some("󰙩"@) }
    else if k == KEY_SHIFT_L || k == KEY_SHIFT_R { Some("⇧"@) }
    else if k == KEY_CONTROL_L || k == KEY_CONTROL_R { Some("⌃"@) }
    else if k == KEY_ALT_L || k == KEY_ALT_R { Some("⎇"@) }
    else if k == KEY_SUPER_L || k == KEY_SUPER_R { Some("⊞"@) }
    else if k == KEY_PRINT { Some("⎙"@) }
    else if k == KEY_FUNCTION { Some("󰘧"@) }
    else if k == KEY_UP { Some("↑"@) }
    else if k == KEY_DOWN { Some("↓"@) }
    else if k == KEY_LEFT { Some("←"@) }
    else if k == KEY_RIGHT { Some("→"@) }
    else if k == KEY_F1 { Some("F1"@) }
    else if k == KEY_F2 { Some("F2"@) }
    else if k == KEY_F3 { Some("F3"@) }
    else if k == KEY_F4 { Some("F4"@) }
    else if k == KEY_F5 { Some("F5"@) }
    else if k == KEY_F6 { Some("F6"@) }
    else if k == KEY_F7 { Some("F7"@) }
    else if k == KEY_F8 { Some("F8"@) }
    else if k == KEY_F9 { Some("F9"@) }
    else if k == KEY_F10 { Some("F10"@) }
    else if k == KEY_F11 { Some("F11"@) }
    else if k == KEY_F12 { Some("F12"@) }
    else { None }
}

/// The glyph of a key: its curated glyph where there is one, else the
/// layout library's text for it.
pub open spec fn glyph_of(k: u32) -> Seq<char> {
    match override_glyph(k) {
        Some(g) => g,
        None => utf8_of(k),
    }
}

/// The curated glyph of `k`, if the table has one.
pub fn glyph_override(k: u32) -> (r: Option<&'static str>)
    ensures
        match r {
            Some(g) => override_glyph(k) == Some(g@),
            None => override_glyph(k) is None,
        },
{
    if k == KEY_SPACE { Some("␣") }
    else if k == KEY_CAPS_LOCK { Some("⇪") }
    else if k == KEY_BACKSPACE { Some("⌫") }
    else if k == KEY_RETURN { Some("⏎") }
    else if k == KEY_ESCAPE { Some("⎋") }
    else if k == KEY_TAB { Some("⇥") }
    else if k == KEY_DELETE { Some("⌦") }
    else if k == KEY_INSERT { Some("󰏔") }
    else if k == KEY_HOME { Some("󰋜") }
    else if k == KEY_END { Some("󰘵") }
    else if k == KEY_PAGE_UP { Some("󰙪") }
    else if k == KEY_PAGE_DOWN { Some("󰙩") }
    else if k == KEY_SHIFT_L || k == KEY_SHIFT_R { Some("⇧") }
    else if k == KEY_CONTROL_L || k == KEY_CONTROL_R { Some("⌃") }
    else if k == KEY_ALT_L || k == KEY_ALT_R { Some("⎇") }
    else if k == KEY_SUPER_L || k == KEY_SUPER_R { Some("⊞") }
    else if k == KEY_PRINT { Some("⎙") }
    else if k == KEY_FUNCTION { Some("󰘧") }
    else if k == KEY_UP { Some("↑") }
    else if k == KEY_DOWN { Some("↓") }
    else if k == KEY_LEFT { Some("←") }
    else if k == KEY_RIGHT { Some("→") }
    else if k == KEY_F1 { Some("F1") }
    else if k == KEY_F2 { Some("F2") }
    else if k == KEY_F3 { Some("F3") }
    else if k == KEY_F4 { Some("F4") }
    else if k == KEY_F5 { Some("F5") }
    else if k == KEY_F6 { Some("F6") }
    else if k == KEY_F7 { Some("F7") }
    else if k == KEY_F8 { Some("F8") }
    else if k == KEY_F9 { Some("F9") }
    else if k == KEY_F10 { Some("F10") }
    else if k == KEY_F11 { Some("F11") }
    else if k == KEY_F12 { Some("F12") }
    else { None }
}

/// The glyph shown for key `k`; possibly empty.
pub fn glyph(k: u32) -> (r: String)
    ensures
        r@ == glyph_of(k),
{
    match glyph_override(k) {
        Some(g) => String::from_str(g),
        None => match layout_key_char(k) {
            Some(c) => char_string(c),
            None => String::new(),
        },
    }
}

} // verus!
