//! The event classifier: from a resolved key and its transition to the
//! change of the held modifiers and the display string to announce.
use vstd::prelude::*;
use crate::keysym::{glyph, glyph_of, is_modifier, is_modifier_key};
use crate::modifiers::{display_sorted, joined, ModifierSet};

verus! {

/// Offset between the device's scan codes and the layout's keycodes.
pub const KEYCODE_OFFSET: u32 = 8;

/// The layout keycode of a device scan code.
pub fn keycode_of(scan: u16) -> (r: u32)
    ensures
        r == scan + KEYCODE_OFFSET,
{
    scan as u32 + KEYCODE_OFFSET
}

/// What happened to a key.
#[derive(Clone, Copy, Debug, PartialEq, Eq, Structural)]
pub enum Transition {
    Release,
    Press,
    Repeat,
}

/// The transition that an input event value stands for: 0 is a release,
/// 1 a press, 2 an autorepeat; other values are not key transitions.
pub open spec fn transition_of(v: i32) -> Option<Transition> {
    if v == 0 {
        Some(Transition::Release)
    } else if v == 1 {
        Some(Transition::Press)
    } else if v == 2 {
        Some(Transition::Repeat)
    } else {
        None
    }
}

impl Transition {
    pub fn from_value(v: i32) -> (r: Option<Transition>)
        ensures
            r == transition_of(v),
    {
        if v == 0 {
            Some(Transition::Release)
        } else if v == 1 {
            Some(Transition::Press)
        } else if v == 2 {
            Some(Transition::Repeat)
        } else {
            None
        }
    }

    /// Press and repeat put the key down; release lifts it.
    pub fn is_down(&self) -> (r: bool)
        ensures
            r == (*self != Transition::Release),
    {
        !matches!(self, Transition::Release)
    }
}

/// The held set after one event: a modifier-class key joins on press or
/// repeat and leaves on release; other keys change nothing.
pub open spec fn next_held(held: Set<u32>, k: u32, t: Transition) -> Set<u32> {
    if !is_modifier(k) {
        held
    } else if t == Transition::Release {
        held.remove(k)
    } else {
        held.insert(k)
    }
}

/// The held set after a run of events on the one key `k`.
pub open spec fn held_after(held: Set<u32>, k: u32, ts: Seq<Transition>) -> Set<u32>
    decreases ts.len(),
{
    if ts.len() == 0 {
        held
    } else {
        next_held(held_after(held, k, ts.drop_last()), k, ts.last())
    }
}

/// Whether an event is announced, given the keys held before it: a pressed
/// modifier-class key always; another pressed key only while some key is
/// held and it is not among them; a release never.
pub open spec fn announces(held: Set<u32>, k: u32, t: Transition) -> bool {
    t != Transition::Release && (is_modifier(k) || (held != Set::<u32>::empty() && !held.contains(k)))
}

/// The text announced for key `k`, with `order` the held keys after the
/// event in display order: the joined modifier glyphs, followed for any
/// other key by a space and that key's glyph.
pub open spec fn announcement(order: Seq<u32>, k: u32) -> Seq<char> {
    if is_modifier(k) {
        joined(order)
    } else {
        joined(order) + seq![' '] + glyph_of(k)
    }
}

/// A run of presses, repeats and releases of one modifier-class key leaves
/// it held exactly when the last of them was not a release (and as it was,
/// for an empty run); no other key's membership changes.
pub proof fn lemma_level_tracking(held: Set<u32>, k: u32, ts: Seq<Transition>)
    requires
        is_modifier(k),
    ensures
        held_after(held, k, ts).contains(k) == if ts.len() == 0 {
            held.contains(k)
        } else {
            ts.last() != Transition::Release
        },
        forall|x: u32| x != k ==> held_after(held, k, ts).contains(x) == held.contains(x),
    decreases ts.len(),
{
    if ts.len() > 0 {
        lemma_level_tracking(held, k, ts.drop_last());
    }
}

/// Tracks the held modifier-class keys across key events.
pub struct KeyTracker {
    modifiers: ModifierSet,
}

impl View for KeyTracker {
    type V = Set<u32>;

    closed spec fn view(&self) -> Set<u32> {
        self.modifiers@
    }
}

impl KeyTracker {
    pub closed spec fn wf(&self) -> bool {
        self.modifiers.wf()
    }

    /// The held keys in display order.
    pub closed spec fn ordered(&self) -> Seq<u32> {
        self.modifiers.ordered()
    }

    /// The display order lists exactly the held keys, each once, sorted.
    pub proof fn lemma_held_order(&self)
        requires
            self.wf(),
        ensures
            display_sorted(self.ordered()),
            self.ordered().no_duplicates(),
            self.ordered().to_set() == self@,
    {
        self.modifiers.lemma_ordered();
    }

    /// The display order is the one sorted sequence of the held keys.
    pub proof fn lemma_order_is(&self, s: Seq<u32>)
        requires
            self.wf(),
            display_sorted(s),
            forall|x: u32| s.contains(x) <==> self@.contains(x),
        ensures
            self.ordered() == s,
    {
        self.modifiers.lemma_order_is(s);
    }

    /// No key held.
    pub fn new() -> (r: KeyTracker)
        ensures
            r.wf(),
            r@ == Set::<u32>::empty(),
    {
        KeyTracker { modifiers: ModifierSet::new() }
    }

    /// The held keys, joined as they are shown.
    pub fn held_glyphs(&self) -> (r: String)
        ensures
            r@ == joined(self.ordered()),
    {
        self.modifiers.joined_glyphs()
    }

    /// Handles one event of the key that the layout resolved to `k`:
    /// updates the held set and returns the text to announce, if any.
    pub fn on_key(&mut self, k: u32, t: Transition) -> (r: Option<String>)
        requires
            old(self).wf(),
        ensures
            final(self).wf(),
            final(self)@ == next_held(old(self)@, k, t),
            r is Some == announces(old(self)@, k, t),
            r matches Some(s) ==> s@ == announcement(final(self).ordered(), k),
    {
        let modifier = is_modifier_key(k);
        match t {
            Transition::Release => {
                if modifier {
                    self.modifiers.remove(k);
                }
                None
            },
            Transition::Press | Transition::Repeat => {
                let held_before = !self.modifiers.is_empty();
                let member_before = self.modifiers.contains(k);
                if modifier {
                    self.modifiers.insert(k);
                }
                let keys = self.modifiers.joined_glyphs();
                if modifier {
                    Some(keys)
                } else if held_before && !member_before {
                    let mut text = keys;
                    text.append(" ");
                    proof { reveal_strlit(" "); }
                    let g = glyph(k);
                    text.append(g.as_str());
                    Some(text)
                } else {
                    None
                }
            },
        }
    }
}

} // verus!
