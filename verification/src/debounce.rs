//! Per-tag debouncing of control events.
//!
//! The debouncer remembers, for each control tag, when an occurrence of
//! that tag was last accepted.  A new occurrence is accepted when the tag
//! was never accepted before, or when at least the configured window has
//! elapsed since the last acceptance (the boundary itself is inclusive).
//! The table is private to one worker instance: it is discarded and
//! rebuilt on every restart, so debounce history does not survive a
//! reconnect.

use vstd::prelude::*;
use crate::frame::ControlTag;

verus! {

/// Tracks the last-accepted time, in milliseconds, of each control tag.
pub struct Debouncer {
    /// Minimum elapsed time between two accepted occurrences of one tag.
    pub window_ms: u64,
    /// When a `Buzzer` event was last accepted, if ever.
    pub last_buzzer: Option<u64>,
    /// When a `Start` event was last accepted, if ever.
    pub last_start: Option<u64>,
}

impl Debouncer {
    /// The last-accepted time recorded for a tag; absent means
    /// "infinitely old".
    pub open spec fn last_of(self, tag: ControlTag) -> Option<u64> {
        match tag {
            ControlTag::Buzzer => self.last_buzzer,
            ControlTag::Start => self.last_start,
        }
    }

    /// Whether an occurrence of `tag` at time `now_ms` passes the
    /// window check: no prior acceptance, or at least a full window
    /// elapsed since it.
    pub open spec fn spec_accepts(self, tag: ControlTag, now_ms: u64) -> bool {
        match self.last_of(tag) {
            None => true,
            Some(last) => now_ms - last >= self.window_ms,
        }
    }

    /// The table once an occurrence of `tag` at `now_ms` is accepted.
    pub open spec fn spec_record(self, tag: ControlTag, now_ms: u64) -> Debouncer {
        match tag {
            ControlTag::Buzzer => Debouncer { last_buzzer: Some(now_ms), ..self },
            ControlTag::Start => Debouncer { last_start: Some(now_ms), ..self },
        }
    }

    /// A fresh table: no tag has ever been accepted.
    pub fn new(window_ms: u64) -> (d: Debouncer)
        ensures
            d.window_ms == window_ms,
            forall|tag: ControlTag| d.last_of(tag) is None,
    {
        Debouncer { window_ms, last_buzzer: None, last_start: None }
    }

    /// Accept or suppress an occurrence of `tag` at time `now_ms`.
    /// Acceptance records `now_ms` as the tag's last-accepted time;
    /// suppression leaves the table untouched.
    pub fn accept(&mut self, tag: ControlTag, now_ms: u64) -> (r: bool)
        ensures
            r == old(self).spec_accepts(tag, now_ms),
            r ==> *final(self) == old(self).spec_record(tag, now_ms),
            !r ==> *final(self) == *old(self),
    {
        let last = match tag {
            ControlTag::Buzzer => self.last_buzzer,
            ControlTag::Start => self.last_start,
        };
        let ok = match last {
            None => true,
            Some(t) => now_ms >= t && now_ms - t >= self.window_ms,
        };
        if ok {
            match tag {
                ControlTag::Buzzer => self.last_buzzer = Some(now_ms),
                ControlTag::Start => self.last_start = Some(now_ms),
            }
        }
        ok
    }
}

/// Two occurrences of one tag, the first at time `t` on a fresh table
/// and the second `d` milliseconds later, are accepted as `(true, true)`
/// exactly when `d` reaches the window; otherwise the second is
/// suppressed and the table still shows `t`.
pub proof fn lemma_debounce_pair(dbn: Debouncer, tag: ControlTag, t: u64, d: u64)
    requires
        dbn.last_of(tag) is None,
        t + d <= u64::MAX,
    ensures
        dbn.spec_accepts(tag, t),
        dbn.spec_record(tag, t).spec_accepts(tag, (t + d) as u64) <==> d >= dbn.window_ms,
        !(d >= dbn.window_ms) ==> dbn.spec_record(tag, t).last_of(tag) == Some(t),
{
}

} // verus!
