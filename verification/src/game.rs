//! Authoritative game state: the round flag and per-sensor trip status.
//!
//! Each sensor has a sensitivity threshold, a percentage.  A raw reading
//! is normalised against the full-scale raw value (the analog ceiling,
//! a constructor parameter rather than a fixed constant) to a 0–100
//! scale; the sensor trips when the normalised reading falls strictly
//! below its threshold — a broken beam reads lower.  The comparison
//! `value * 100 < threshold * ceiling` is that normalisation, carried
//! out exactly, with no rounding.
//!
//! While a round is active, `evaluate` reports each sensor at most once:
//! a reported index is latched in `tripped` and stays there until it is
//! explicitly reactivated or the next round starts.

use vstd::prelude::*;
use vstd::pervasive::VecAdditionalExecFns;

verus! {

/// Whether a raw reading trips a sensor with the given threshold
/// percentage, against a full-scale raw value of `ceiling`: exactly when
/// the reading normalised to a 0–100 scale is strictly below the
/// threshold.
pub open spec fn trips(value: u16, threshold: u16, ceiling: u16) -> bool {
    (value as int) * 100 < (threshold as int) * (ceiling as int)
}

/// Mathematical image of the engine's state.
#[verifier::ext_equal]
pub struct GameModel {
    pub round_active: bool,
    pub ceiling: u16,
    pub thresholds: Seq<u16>,
    pub tripped: Seq<bool>,
}

impl GameModel {
    pub open spec fn wf(self) -> bool {
        self.tripped.len() == self.thresholds.len() && self.ceiling > 0
    }

    /// Whether one `evaluate` call on `values` reports sensor `i` as
    /// newly tripped: only during an active round, only where a reading
    /// and a threshold both exist, and only if the sensor is not
    /// already latched.
    pub open spec fn reports_at(self, values: Seq<u16>, i: int) -> bool {
        &&& self.round_active
        &&& 0 <= i < values.len()
        &&& i < self.thresholds.len()
        &&& trips(values[i], self.thresholds[i], self.ceiling)
        &&& !(i < self.tripped.len() && self.tripped[i])
    }

    /// The indices below `n` reported by one `evaluate` call, ascending.
    pub open spec fn newly_upto(self, values: Seq<u16>, n: int) -> Seq<usize>
        decreases n,
    {
        if n <= 0 {
            Seq::empty()
        } else {
            let pre = self.newly_upto(values, n - 1);
            if self.reports_at(values, n - 1) {
                pre.push((n - 1) as usize)
            } else {
                pre
            }
        }
    }

    /// All indices reported by one `evaluate` call on `values`.
    pub open spec fn newly(self, values: Seq<u16>) -> Seq<usize> {
        self.newly_upto(values, values.len() as int)
    }

    /// The state after one `evaluate` call on `values`: every reported
    /// sensor is latched; nothing else moves.
    pub open spec fn eval_state(self, values: Seq<u16>) -> GameModel {
        GameModel {
            tripped: Seq::new(
                self.tripped.len(),
                |i: int| self.tripped[i] || self.reports_at(values, i),
            ),
            ..self
        }
    }
}

/// Reported indices lie below `n`, are reportable, and come in strictly
/// ascending order; every reportable index below `n` is among them.
pub proof fn lemma_newly_upto_members(g: GameModel, values: Seq<u16>, n: int, i: usize)
    requires
        0 <= n <= usize::MAX,
    ensures
        g.newly_upto(values, n).contains(i) <==> i < n && g.reports_at(values, i as int),
    decreases n,
{
    if n > 0 {
        lemma_newly_upto_members(g, values, n - 1, i);
        let pre = g.newly_upto(values, n - 1);
        if g.reports_at(values, n - 1) {
            let s = pre.push((n - 1) as usize);
            if i < n && g.reports_at(values, i as int) {
                if i == n - 1 {
                    assert(s[s.len() - 1] == i);
                } else {
                    let k = choose|k: int| 0 <= k < pre.len() && pre[k] == i;
                    assert(s[k] == i);
                }
                assert(s.contains(i));
            }
            if s.contains(i) {
                let k = choose|k: int| 0 <= k < s.len() && s[k] == i;
                if k < pre.len() {
                    assert(pre[k] == s[k]);
                    assert(pre.contains(i));
                }
            }
        }
    }
}

/// Indices at or past `n` never appear below `n`, so extending the scan
/// over readings that cannot report leaves the result unchanged.
proof fn lemma_newly_upto_extend(g: GameModel, values: Seq<u16>, n: int, m: int)
    requires
        0 <= n <= m,
        forall|i: int| n <= i < m ==> !g.reports_at(values, i),
    ensures
        g.newly_upto(values, m) == g.newly_upto(values, n),
    decreases m - n,
{
    if m > n {
        lemma_newly_upto_extend(g, values, n, m - 1);
    }
}

/// The state after a whole run of `evaluate` calls, one per frame.
pub open spec fn run_telemetry(g: GameModel, frames: Seq<Seq<u16>>) -> GameModel
    decreases frames.len(),
{
    if frames.len() == 0 {
        g
    } else {
        run_telemetry(g.eval_state(frames[0]), frames.skip(1))
    }
}

/// How many frames of a run report sensor `i` as newly tripped.
pub open spec fn report_count(g: GameModel, frames: Seq<Seq<u16>>, i: usize) -> nat
    decreases frames.len(),
{
    if frames.len() == 0 {
        0
    } else {
        (if g.newly(frames[0]).contains(i) {
            1nat
        } else {
            0nat
        }) + report_count(g.eval_state(frames[0]), frames.skip(1), i)
    }
}

/// Outside an active round one `evaluate` call reports nothing and
/// leaves the state exactly as it was.
pub proof fn lemma_inactive_evaluate_is_inert(g: GameModel, values: Seq<u16>)
    requires
        !g.round_active,
    ensures
        g.eval_state(values) == g,
        g.newly(values) == Seq::<usize>::empty(),
{
    lemma_newly_upto_extend(g, values, 0, values.len() as int);
    assert(g.eval_state(values).tripped =~= g.tripped);
    assert(g.eval_state(values) =~= g);
}

/// For every sequence of `evaluate` calls made while the round is
/// inactive, each call reports nothing and the trip set never grows:
/// the state after the whole run is the state before it.
pub proof fn lemma_inactive_run_is_inert(g: GameModel, frames: Seq<Seq<u16>>)
    requires
        !g.round_active,
    ensures
        run_telemetry(g, frames) == g,
        forall|k: int|
            0 <= k < frames.len() ==> (#[trigger] run_telemetry(g, frames.take(k))).newly(
                frames[k],
            ) == Seq::<usize>::empty(),
    decreases frames.len(),
{
    if frames.len() > 0 {
        lemma_inactive_evaluate_is_inert(g, frames[0]);
        lemma_inactive_run_is_inert(g, frames.skip(1));
        assert forall|k: int|
            0 <= k < frames.len() implies (#[trigger] run_telemetry(g, frames.take(k))).newly(
            frames[k],
        ) == Seq::<usize>::empty() by {
            if k == 0 {
                assert(frames.take(0) =~= Seq::<Seq<u16>>::empty());
                lemma_inactive_run_is_inert(g, frames.take(0));
                lemma_inactive_evaluate_is_inert(g, frames[0]);
            } else {
                lemma_inactive_run_is_inert(g, frames.take(k));
                lemma_inactive_evaluate_is_inert(g, frames[k]);
            }
        }
    }
}

/// A latched sensor stays latched through an `evaluate` call and is not
/// reported by it.
proof fn lemma_latched_stays(g: GameModel, values: Seq<u16>, i: usize)
    requires
        values.len() <= usize::MAX,
        i < g.tripped.len(),
        g.tripped[i as int],
    ensures
        g.eval_state(values).tripped.len() == g.tripped.len(),
        g.eval_state(values).tripped[i as int],
        !g.newly(values).contains(i),
{
    lemma_newly_upto_members(g, values, values.len() as int, i);
}

/// A latched sensor is reported by no call of a whole run.
proof fn lemma_latched_never_reported(g: GameModel, frames: Seq<Seq<u16>>, i: usize)
    requires
        forall|k: int| 0 <= k < frames.len() ==> (#[trigger] frames[k]).len() <= usize::MAX,
        i < g.tripped.len(),
        g.tripped[i as int],
    ensures
        report_count(g, frames, i) == 0,
    decreases frames.len(),
{
    if frames.len() > 0 {
        lemma_latched_stays(g, frames[0], i);
        lemma_latched_never_reported(g.eval_state(frames[0]), frames.skip(1), i);
    }
}

/// A sensor reported by an `evaluate` call comes out of it latched.
proof fn lemma_reported_becomes_latched(g: GameModel, values: Seq<u16>, i: usize)
    requires
        g.wf(),
        values.len() <= usize::MAX,
        g.newly(values).contains(i),
    ensures
        i < g.eval_state(values).tripped.len(),
        g.eval_state(values).tripped[i as int],
{
    lemma_newly_upto_members(g, values, values.len() as int, i);
}

/// Over any sequence of `evaluate` calls — that is, between one
/// `start_round` and the next `start_round` or `reactivate`, the only
/// operations that unlatch a sensor — a given sensor index is reported
/// as newly tripped at most once.
pub proof fn lemma_reported_at_most_once(g: GameModel, frames: Seq<Seq<u16>>, i: usize)
    requires
        g.wf(),
        forall|k: int| 0 <= k < frames.len() ==> (#[trigger] frames[k]).len() <= usize::MAX,
    ensures
        report_count(g, frames, i) <= 1,
    decreases frames.len(),
{
    if frames.len() > 0 {
        let g1 = g.eval_state(frames[0]);
        if g.newly(frames[0]).contains(i) {
            lemma_reported_becomes_latched(g, frames[0], i);
            lemma_latched_never_reported(g1, frames.skip(1), i);
        } else {
            lemma_reported_at_most_once(g1, frames.skip(1), i);
        }
    }
}

/// The engine itself: round flag, thresholds, latched trips, and the
/// full-scale raw reading used for normalisation.
pub struct GameStateEngine {
    pub round_active: bool,
    pub raw_ceiling: u16,
    pub thresholds: Vec<u16>,
    pub tripped: Vec<bool>,
}

impl View for GameStateEngine {
    type V = GameModel;

    open spec fn view(&self) -> GameModel {
        GameModel {
            round_active: self.round_active,
            ceiling: self.raw_ceiling,
            thresholds: self.thresholds@,
            tripped: self.tripped@,
        }
    }
}

impl GameStateEngine {
    /// A fresh engine: no round, nothing tripped, one trip flag per
    /// threshold.  `raw_ceiling` is the reading a fully open sensor
    /// produces (1023 for a 10-bit converter).
    pub fn new(raw_ceiling: u16, thresholds: Vec<u16>) -> (g: Self)
        requires
            raw_ceiling > 0,
        ensures
            g@.wf(),
            !g@.round_active,
            g@.ceiling == raw_ceiling,
            g@.thresholds == thresholds@,
            forall|i: int| 0 <= i < g@.tripped.len() ==> !g@.tripped[i],
    {
        let mut tripped: Vec<bool> = Vec::new();
        let n = thresholds.len();
        let mut i: usize = 0;
        while i < n
            invariant
                i <= n,
                tripped@.len() == i,
                forall|j: int| 0 <= j < i ==> !tripped@[j],
            decreases n - i,
        {
            tripped.push(false);
            i = i + 1;
        }
        GameStateEngine { round_active: false, raw_ceiling, thresholds, tripped }
    }

    /// Start a round: trip detection becomes active and all prior trip
    /// state is cleared.
    pub fn start_round(&mut self)
        requires
            old(self)@.wf(),
        ensures
            final(self)@.wf(),
            final(self)@.round_active,
            final(self)@.ceiling == old(self)@.ceiling,
            final(self)@.thresholds == old(self)@.thresholds,
            final(self)@.tripped.len() == old(self)@.tripped.len(),
            forall|i: int| 0 <= i < final(self)@.tripped.len() ==> !final(self)@.tripped[i],
    {
        self.round_active = true;
        let n = self.tripped.len();
        let mut i: usize = 0;
        while i < n
            invariant
                i <= n,
                n == self.tripped@.len(),
                self.round_active,
                self.raw_ceiling == old(self).raw_ceiling,
                self.thresholds@ == old(self).thresholds@,
                forall|j: int| 0 <= j < i ==> !self.tripped@[j],
            decreases n - i,
        {
            self.tripped.set(i, false);
            i = i + 1;
        }
    }

    /// Stop the round: trip detection goes quiet, but the trip set is
    /// left intact until the next start.
    pub fn stop_round(&mut self)
        ensures
            final(self)@ == (GameModel { round_active: false, ..old(self)@ }),
    {
        self.round_active = false;
    }

    /// Forget one sensor's latched trip so it may report again; nothing
    /// happens for an index that is out of range or not latched.
    pub fn reactivate(&mut self, index: usize)
        ensures
            index < old(self)@.tripped.len() ==> final(self)@ == (GameModel {
                tripped: old(self)@.tripped.update(index as int, false),
                ..old(self)@
            }),
            index >= old(self)@.tripped.len() ==> final(self)@ == old(self)@,
    {
        if index < self.tripped.len() {
            self.tripped.set(index, false);
        }
    }

    /// Replace the threshold table wholesale.  Trip flags of sensors
    /// that survive keep their value; new sensors start untripped.
    pub fn update_thresholds(&mut self, values: Vec<u16>)
        requires
            old(self)@.wf(),
        ensures
            final(self)@.wf(),
            final(self)@.round_active == old(self)@.round_active,
            final(self)@.ceiling == old(self)@.ceiling,
            final(self)@.thresholds == values@,
            final(self)@.tripped.len() == values@.len(),
            forall|i: int|
                0 <= i < values@.len() ==> final(self)@.tripped[i] == (i
                    < old(self)@.tripped.len() && old(self)@.tripped[i]),
    {
        let n = values.len();
        let mut fresh: Vec<bool> = Vec::new();
        let mut i: usize = 0;
        while i < n
            invariant
                i <= n,
                fresh@.len() == i,
                self.tripped@ == old(self).tripped@,
                forall|j: int|
                    0 <= j < i ==> fresh@[j] == (j < old(self)@.tripped.len()
                        && old(self)@.tripped[j]),
            decreases n - i,
        {
            if i < self.tripped.len() {
                let flag = self.tripped[i];
                fresh.push(flag);
            } else {
                fresh.push(false);
            }
            i = i + 1;
        }
        self.thresholds = values;
        self.tripped = fresh;
    }

    /// Evaluate one telemetry frame.  Outside an active round nothing is
    /// reported and nothing moves.  During a round, each index with both
    /// a reading and a threshold whose reading trips and which is not
    /// already latched is reported, in ascending order, and latched.
    pub fn evaluate(&mut self, values: &Vec<u16>) -> (r: Vec<usize>)
        requires
            old(self)@.wf(),
        ensures
            final(self)@.wf(),
            final(self)@ == old(self)@.eval_state(values@),
            r@ == old(self)@.newly(values@),
            !old(self)@.round_active ==> r@ == Seq::<usize>::empty() && *final(self) == *old(self),
    {
        let mut out: Vec<usize> = Vec::new();
        if !self.round_active {
            proof {
                lemma_newly_upto_extend(self@, values@, 0, values@.len() as int);
                assert(self@.eval_state(values@).tripped =~= self@.tripped);
                assert(self@.eval_state(values@) =~= self@);
            }
            return out;
        }
        let n = if values.len() < self.thresholds.len() {
            values.len()
        } else {
            self.thresholds.len()
        };
        let ceiling = self.raw_ceiling;
        let mut i: usize = 0;
        while i < n
            invariant
                i <= n,
                n == if values@.len() < old(self)@.thresholds.len() {
                    values@.len() as int
                } else {
                    old(self)@.thresholds.len() as int
                },
                old(self)@.wf(),
                old(self)@.round_active,
                ceiling == old(self)@.ceiling,
                self.round_active == old(self).round_active,
                self.raw_ceiling == old(self).raw_ceiling,
                self.thresholds@ == old(self).thresholds@,
                self.tripped@.len() == old(self)@.tripped.len(),
                out@ == old(self)@.newly_upto(values@, i as int),
                forall|j: int|
                    0 <= j < i ==> self.tripped@[j] == (old(self)@.tripped[j]
                        || old(self)@.reports_at(values@, j)),
                forall|j: int| i <= j < self.tripped@.len() ==> self.tripped@[j]
                    == old(self)@.tripped[j],
            decreases n - i,
        {
            let value = values[i];
            let threshold = self.thresholds[i];
            proof {
                assert((value as u64) * 100 <= 65535u64 * 100) by (nonlinear_arith)
                    requires
                        value <= 65535,
                ;
                assert((threshold as u64) * (ceiling as u64) <= 65535u64 * 65535u64)
                    by (nonlinear_arith)
                    requires
                        threshold <= 65535,
                        ceiling <= 65535,
                ;
            }
            let hit = (value as u64) * 100 < (threshold as u64) * (ceiling as u64);
            if hit && !self.tripped[i] {
                out.push(i);
                self.tripped.set(i, true);
            }
            proof {
                assert(old(self)@.newly_upto(values@, i + 1) == if old(self)@.reports_at(
                    values@,
                    i as int,
                ) {
                    old(self)@.newly_upto(values@, i as int).push(i)
                } else {
                    old(self)@.newly_upto(values@, i as int)
                });
            }
            i = i + 1;
        }
        proof {
            assert forall|j: int| n <= j < values@.len() implies !old(self)@.reports_at(
                values@,
                j,
            ) by {}
            lemma_newly_upto_extend(old(self)@, values@, n as int, values@.len() as int);
            assert(self@.tripped =~= old(self)@.eval_state(values@).tripped);
            assert(self@ =~= old(self)@.eval_state(values@));
        }
        out
    }
}

} // verus!
