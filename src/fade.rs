//! The display composer's decisions: what to show for each notification and
//! the single hide timer that every new notification replaces.
use vstd::prelude::*;

verus! {

/// Time from the latest notification to hiding the text, in milliseconds.
pub const FADE_DELAY_MS: u64 = 700;

/// The upper-case form of a text.
pub uninterp spec fn upper_of(s: Seq<char>) -> Seq<char>;

/// Relies on `str::to_uppercase`: the upper-case mapping of each character,
/// a function of the text alone.
#[verifier::external_body]
fn to_upper(s: &str) -> (r: String)
    ensures
        r@ == upper_of(s@),
{
    s.to_uppercase()
}

/// What the presentation surface is told on a notification: show `text`,
/// cancel the timer `cancel` if one is given, then start the timer
/// `schedule`, which fires after `delay_ms`.
pub struct ShowCommand {
    pub text: String,
    pub cancel: Option<u64>,
    pub schedule: u64,
    pub delay_ms: u64,
}

/// The identifier that follows `id`.
pub open spec fn next_timer_id(id: u64) -> u64 {
    if id == u64::MAX {
        0
    } else {
        (id + 1) as u64
    }
}

/// The hide timer's state: the one timer that may be alive, and the
/// identifier for the next one.
pub struct FadeScheduler {
    pub pending: Option<u64>,
    pub next_id: u64,
}

impl FadeScheduler {
    /// The state after a notification: its timer is the only one alive.
    pub open spec fn after_notify(self) -> FadeScheduler {
        FadeScheduler { pending: Some(self.next_id), next_id: next_timer_id(self.next_id) }
    }

    /// Whether timer `id` firing hides the text: only the live timer does.
    pub open spec fn hides_on(self, id: u64) -> bool {
        self.pending == Some(id)
    }

    /// The state after timer `id` fires.
    pub open spec fn after_fire(self, id: u64) -> FadeScheduler {
        if self.hides_on(id) {
            FadeScheduler { pending: None, next_id: self.next_id }
        } else {
            self
        }
    }

    /// No timer alive.
    pub fn new() -> (r: FadeScheduler)
        ensures
            r.pending is None,
            r.next_id == 0,
    {
        FadeScheduler { pending: None, next_id: 0 }
    }

    /// A notification with display string `text`: show it in upper case,
    /// cancel the live timer, if any, and start a new one.
    pub fn notify(&mut self, text: &str) -> (r: ShowCommand)
        ensures
            *final(self) == old(self).after_notify(),
            r.text@ == upper_of(text@),
            r.cancel == old(self).pending,
            r.schedule == old(self).next_id,
            r.delay_ms == FADE_DELAY_MS,
    {
        let cancel = self.pending;
        let id = self.next_id;
        self.pending = Some(id);
        self.next_id = if id == u64::MAX { 0 } else { id + 1 };
        ShowCommand { text: to_upper(text), cancel, schedule: id, delay_ms: FADE_DELAY_MS }
    }

    /// Timer `id` fired: returns whether to hide and clear the text.
    pub fn timer_fired(&mut self, id: u64) -> (r: bool)
        ensures
            r == old(self).hides_on(id),
            *final(self) == old(self).after_fire(id),
    {
        if self.pending == Some(id) {
            self.pending = None;
            true
        } else {
            false
        }
    }
}

/// Two notifications in a row give exactly one hide, timed from the
/// second: the second cancels the first's timer, the first's timer no
/// longer hides, the second's does, and once it has nothing else does.
pub proof fn lemma_one_hide_per_burst(s: FadeScheduler)
    ensures
        ({
            let s1 = s.after_notify();
            let s2 = s1.after_notify();
            let first = s.next_id;
            let second = s1.next_id;
            &&& s1.pending == Some(first)
            &&& s2.pending == Some(second)
            &&& first != second
            &&& !s2.hides_on(first)
            &&& s2.after_fire(first) == s2
            &&& s2.hides_on(second)
            &&& forall|id: u64| !s2.after_fire(second).hides_on(id)
        }),
{
}

} // verus!
