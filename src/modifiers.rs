//! The set of held modifier-class keys, kept in a fixed display order so
//! that the same held set always renders the same way.
use vstd::prelude::*;
use crate::keysym::{
    glyph, glyph_of, is_modifier, KEY_ALT_L, KEY_ALT_R, KEY_CONTROL_L, KEY_CONTROL_R, KEY_HYPER_L,
    KEY_HYPER_R, KEY_META_L, KEY_META_R, KEY_SHIFT_L, KEY_SHIFT_R, KEY_SUPER_L, KEY_SUPER_R,
};

verus! {

/// Display rank of a key: Control, Alt, Shift, Super, the other layout
/// modifiers, then the action keys.
pub open spec fn rank_of(k: u32) -> u32 {
    if k == KEY_CONTROL_L || k == KEY_CONTROL_R { 0 }
    else if k == KEY_ALT_L || k == KEY_ALT_R || k == KEY_META_L || k == KEY_META_R { 1 }
    else if k == KEY_SHIFT_L || k == KEY_SHIFT_R { 2 }
    else if k == KEY_SUPER_L || k == KEY_SUPER_R || k == KEY_HYPER_L || k == KEY_HYPER_R { 3 }
    else if crate::keysym::is_generic_modifier(k) { 4 }
    else { 5 }
}

/// `a` is shown before `b`: lower rank first, then lower keysym.
pub open spec fn precedes(a: u32, b: u32) -> bool {
    rank_of(a) < rank_of(b) || (rank_of(a) == rank_of(b) && a < b)
}

/// Every key stands before each key after it.
pub open spec fn display_sorted(s: Seq<u32>) -> bool {
    forall|i: int, j: int| 0 <= i < j < s.len() ==> precedes(#[trigger] s[i], #[trigger] s[j])
}

/// The glyphs of `keys`, joined by single spaces.
pub open spec fn joined(keys: Seq<u32>) -> Seq<char>
    decreases keys.len(),
{
    if keys.len() == 0 {
        Seq::empty()
    } else if keys.len() == 1 {
        glyph_of(keys[0])
    } else {
        joined(keys.drop_last()) + seq![' '] + glyph_of(keys.last())
    }
}

/// Two display-sorted sequences with the same keys are the same sequence.
pub proof fn lemma_sorted_unique(a: Seq<u32>, b: Seq<u32>)
    requires
        display_sorted(a),
        display_sorted(b),
        forall|x: u32| a.contains(x) <==> b.contains(x),
    ensures
        a == b,
    decreases a.len(),
{
    if a.len() == 0 {
        if b.len() > 0 {
            assert(b.contains(b[0]));
        }
        assert(a =~= b);
    } else {
        assert(a.contains(a[0]));
        assert(b.len() > 0);
        assert(b.contains(b[0]));
        let ia = choose|i: int| 0 <= i < a.len() && a[i] == b[0];
        let ib = choose|i: int| 0 <= i < b.len() && b[i] == a[0];
        if ia > 0 {
            assert(precedes(a[0], a[ia]));
        }
        if ib > 0 {
            assert(precedes(b[0], b[ib]));
        }
        assert(a[0] == b[0]);
        let ta = a.drop_first();
        let tb = b.drop_first();
        assert forall|x: u32| ta.contains(x) <==> tb.contains(x) by {
            if ta.contains(x) {
                let i = choose|i: int| 0 <= i < ta.len() && ta[i] == x;
                assert(precedes(a[0], a[i + 1]));
                assert(a.contains(x));
                let j = choose|j: int| 0 <= j < b.len() && b[j] == x;
                assert(j != 0);
                assert(tb[j - 1] == x);
            }
            if tb.contains(x) {
                let i = choose|i: int| 0 <= i < tb.len() && tb[i] == x;
                assert(precedes(b[0], b[i + 1]));
                assert(b.contains(x));
                let j = choose|j: int| 0 <= j < a.len() && a[j] == x;
                assert(j != 0);
                assert(ta[j - 1] == x);
            }
        }
        assert(display_sorted(ta)) by {
            assert forall|i: int, j: int| 0 <= i < j < ta.len() implies precedes(
                #[trigger] ta[i],
                #[trigger] ta[j],
            ) by {
                assert(precedes(a[i + 1], a[j + 1]));
            }
        }
        assert(display_sorted(tb)) by {
            assert forall|i: int, j: int| 0 <= i < j < tb.len() implies precedes(
                #[trigger] tb[i],
                #[trigger] tb[j],
            ) by {
                assert(precedes(b[i + 1], b[j + 1]));
            }
        }
        lemma_sorted_unique(ta, tb);
        assert(a =~= seq![a[0]] + ta);
        assert(b =~= seq![b[0]] + tb);
    }
}

fn rank(k: u32) -> (r: u32)
    ensures
        r == rank_of(k),
{
    if k == KEY_CONTROL_L || k == KEY_CONTROL_R { 0 }
    else if k == KEY_ALT_L || k == KEY_ALT_R || k == KEY_META_L || k == KEY_META_R { 1 }
    else if k == KEY_SHIFT_L || k == KEY_SHIFT_R { 2 }
    else if k == KEY_SUPER_L || k == KEY_SUPER_R || k == KEY_HYPER_L || k == KEY_HYPER_R { 3 }
    else if crate::keysym::layout_is_modifier(k) { 4 }
    else { 5 }
}

fn key_precedes(a: u32, b: u32) -> (r: bool)
    ensures
        r == precedes(a, b),
{
    let ra = rank(a);
    let rb = rank(b);
    ra < rb || (ra == rb && a < b)
}

/// Held modifier-class keys, without repetition, in display order.
pub struct ModifierSet {
    keys: Vec<u32>,
}

impl View for ModifierSet {
    type V = Set<u32>;

    closed spec fn view(&self) -> Set<u32> {
        self.keys@.to_set()
    }
}

impl ModifierSet {
    /// The held keys in the order they are shown.
    pub closed spec fn ordered(&self) -> Seq<u32> {
        self.keys@
    }

    pub closed spec fn wf(&self) -> bool {
        &&& display_sorted(self.keys@)
        &&& forall|i: int| 0 <= i < self.keys@.len() ==> is_modifier(#[trigger] self.keys@[i])
    }

    /// The display order lists exactly the held keys, each once, and holds
    /// only modifier-class keys.
    pub proof fn lemma_ordered(&self)
        requires
            self.wf(),
        ensures
            display_sorted(self.ordered()),
            self.ordered().no_duplicates(),
            self.ordered().to_set() == self@,
            forall|k: u32| #[trigger] self@.contains(k) ==> is_modifier(k),
    {
        assert forall|k: u32| #[trigger] self@.contains(k) implies is_modifier(k) by {
            assert(self.keys@.contains(k));
        }
    }

    /// The display order is a function of the held set alone: two sets
    /// holding the same keys show them in the same order, so a held set never
    /// flickers between orders.
    pub proof fn lemma_order_depends_on_set(a: &ModifierSet, b: &ModifierSet)
        requires
            a.wf(),
            b.wf(),
            a@ == b@,
        ensures
            a.ordered() == b.ordered(),
            joined(a.ordered()) == joined(b.ordered()),
    {
        assert forall|x: u32| a.keys@.contains(x) <==> b.keys@.contains(x) by {
            assert(a.keys@.to_set().contains(x) == b.keys@.to_set().contains(x));
        }
        lemma_sorted_unique(a.keys@, b.keys@);
    }

    /// The display order is the one sorted sequence of the held keys.
    pub proof fn lemma_order_is(&self, s: Seq<u32>)
        requires
            self.wf(),
            display_sorted(s),
            forall|x: u32| s.contains(x) <==> self@.contains(x),
        ensures
            self.ordered() == s,
    {
        assert forall|x: u32| self.keys@.contains(x) <==> s.contains(x) by {
            assert(self.keys@.to_set().contains(x) == self.keys@.contains(x));
        }
        lemma_sorted_unique(self.keys@, s);
    }

    /// Whether no key is held.
    pub fn is_empty(&self) -> (r: bool)
        ensures
            r == (self@ == Set::<u32>::empty()),
    {
        if self.keys.len() == 0 {
            assert(self@ =~= Set::<u32>::empty());
            true
        } else {
            assert(self@.contains(self.keys@[0]));
            false
        }
    }

    /// An empty set.
    pub fn new() -> (r: ModifierSet)
        ensures
            r.wf(),
            r@ == Set::<u32>::empty(),
    {
        let r = ModifierSet { keys: Vec::new() };
        assert(r@ =~= Set::<u32>::empty());
        r
    }

    pub fn contains(&self, k: u32) -> (r: bool)
        ensures
            r == self@.contains(k),
    {
        let mut i: usize = 0;
        while i < self.keys.len()
            invariant
                0 <= i <= self.keys@.len(),
                forall|j: int| 0 <= j < i ==> self.keys@[j] != k,
            decreases self.keys@.len() - i,
        {
            if self.keys[i] == k {
                return true;
            }
            i = i + 1;
        }
        false
    }

    /// Adds a held modifier key; a key already held is left as it is.
    pub fn insert(&mut self, k: u32)
        requires
            old(self).wf(),
            is_modifier(k),
        ensures
            final(self).wf(),
            final(self)@ == old(self)@.insert(k),
    {
        let n = self.keys.len();
        let mut i: usize = 0;
        while i < n
            invariant
                n == self.keys@.len(),
                0 <= i <= n,
                self.wf(),
                self == old(self),
                forall|j: int| 0 <= j < i ==> #[trigger] precedes(self.keys@[j], k),
            ensures
                0 <= i <= n,
                self.wf(),
                self == old(self),
                forall|j: int| 0 <= j < i ==> #[trigger] precedes(self.keys@[j], k),
                i < n ==> precedes(k, self.keys@[i as int]),
            decreases n - i,
        {
            if self.keys[i] == k {
                assert(self.keys@.contains(k));
                assert(self@.insert(k) =~= self@);
                return;
            }
            if key_precedes(k, self.keys[i]) {
                break;
            }
            i = i + 1;
        }
        let ghost before = self.keys@;
        self.keys.insert(i, k);
        assert(self.keys@ == before.insert(i as int, k));
        assert forall|a: int, b: int| 0 <= a < b < self.keys@.len() implies precedes(
            #[trigger] self.keys@[a],
            #[trigger] self.keys@[b],
        ) by {
            if b == i as int {
                assert(precedes(before[a], k));
            } else if a == i as int {
                assert(precedes(k, before[i as int]));
                if b - 1 > i {
                    assert(precedes(before[i as int], before[b - 1]));
                }
            } else if a < i && b > i {
                assert(precedes(before[a], before[b - 1]));
            }
        }
        assert(self.keys@.to_set() =~= before.to_set().insert(k)) by {
            assert forall|x: u32| self.keys@.contains(x) <==> before.to_set().insert(k).contains(x) by {
                if self.keys@.contains(x) {
                    let idx = choose|idx: int| 0 <= idx < self.keys@.len() && self.keys@[idx] == x;
                    if idx < i {
                        assert(before[idx] == x);
                    } else if idx > i {
                        assert(before[idx - 1] == x);
                    }
                }
                if before.contains(x) {
                    let idx = choose|idx: int| 0 <= idx < before.len() && before[idx] == x;
                    if idx < i {
                        assert(self.keys@[idx] == x);
                    } else {
                        assert(self.keys@[idx + 1] == x);
                    }
                }
                if x == k {
                    assert(self.keys@[i as int] == k);
                }
            }
        }
    }

    /// Drops a released key; a key not held is a no-op.
    pub fn remove(&mut self, k: u32)
        requires
            old(self).wf(),
        ensures
            final(self).wf(),
            final(self)@ == old(self)@.remove(k),
    {
        let n = self.keys.len();
        let mut i: usize = 0;
        while i < n
            invariant
                n == self.keys@.len(),
                0 <= i <= n,
                self.wf(),
                self == old(self),
                forall|j: int| 0 <= j < i ==> self.keys@[j] != k,
            decreases n - i,
        {
            if self.keys[i] == k {
                let ghost before = self.keys@;
                self.keys.remove(i);
                assert(self.keys@ == before.remove(i as int));
                assert forall|a: int, b: int| 0 <= a < b < self.keys@.len() implies precedes(
                    #[trigger] self.keys@[a],
                    #[trigger] self.keys@[b],
                ) by {
                    if a < i && b >= i {
                        assert(precedes(before[a], before[b + 1]));
                    } else if a >= i {
                        assert(precedes(before[a + 1], before[b + 1]));
                    }
                }
                assert forall|a: int| 0 <= a < self.keys@.len() implies is_modifier(
                    #[trigger] self.keys@[a],
                ) by {
                    if a >= i {
                        assert(is_modifier(before[a + 1]));
                    }
                }
                assert(self.keys@.to_set() =~= before.to_set().remove(k)) by {
                    assert forall|x: u32| self.keys@.contains(x) <==> before.to_set().remove(
                        k,
                    ).contains(x) by {
                        if self.keys@.contains(x) {
                            let idx = choose|idx: int|
                                0 <= idx < self.keys@.len() && self.keys@[idx] == x;
                            if idx < i {
                                assert(before[idx] == x);
                                assert(precedes(before[idx], before[i as int]));
                            } else {
                                assert(before[idx + 1] == x);
                                assert(precedes(before[i as int], before[idx + 1]));
                            }
                        }
                        if before.contains(x) && x != k {
                            let idx = choose|idx: int| 0 <= idx < before.len() && before[idx] == x;
                            if idx < i {
                                assert(self.keys@[idx] == x);
                            } else {
                                assert(idx != i);
                                assert(self.keys@[idx - 1] == x);
                            }
                        }
                    }
                }
                return;
            }
            i = i + 1;
        }
        assert(!self.keys@.contains(k));
        assert(self@.remove(k) =~= self@);
    }

    /// The glyphs of the held keys in display order, joined by spaces.
    pub fn joined_glyphs(&self) -> (r: String)
        ensures
            r@ == joined(self.ordered()),
    {
        let mut out = String::new();
        let mut i: usize = 0;
        while i < self.keys.len()
            invariant
                0 <= i <= self.keys@.len(),
                out@ == joined(self.keys@.take(i as int)),
            decreases self.keys@.len() - i,
        {
            let g = glyph(self.keys[i]);
            let ghost prefix = self.keys@.take(i as int);
            let ghost next = self.keys@.take(i + 1);
            assert(next.drop_last() =~= prefix);
            if i > 0 {
                out.append(" ");
                proof { reveal_strlit(" "); }
            } else {
                assert(out@ =~= Seq::<char>::empty());
            }
            out.append(g.as_str());
            i = i + 1;
        }
        assert(self.keys@.take(self.keys@.len() as int) =~= self.keys@);
        out
    }
}

} // verus!
