use vstd::prelude::*;

use crate::timer::{phase_seconds, seconds_of_minutes, PhaseOutcome};

verus! {

#[derive(Clone, Copy, Debug, PartialEq, Eq, Structural)]
pub enum PhaseKind {
    Work,
    Break,
}

/// One contiguous work or break interval, with its length in seconds.
#[derive(Clone, Copy, Debug, PartialEq, Eq, Structural)]
pub struct Phase {
    pub kind: PhaseKind,
    pub seconds: u64,
}

/// A session's settings: how many work phases, and the length of each kind
/// of phase in seconds.
#[derive(Clone, Copy, Debug, PartialEq, Eq, Structural)]
pub struct SessionPlan {
    pub count: u32,
    pub work_seconds: u64,
    pub break_seconds: u64,
}

/// What the driver does next.
#[derive(Clone, Copy, Debug, PartialEq, Eq, Structural)]
pub enum SessionStep {
    /// Run the phase at this position of the plan.
    Run(u64),
    /// Every phase completed.
    Finished,
    /// A phase was cancelled: no further phase runs.
    Aborted,
}

/// Work phases alternate with breaks, with no break after the last work phase.
pub open spec fn phase_total(count: nat) -> nat {
    if count == 0 { 0 } else { (2 * count - 1) as nat }
}

pub open spec fn phase_at(p: SessionPlan, i: nat) -> Phase {
    if i % 2 == 0 {
        Phase { kind: PhaseKind::Work, seconds: p.work_seconds }
    } else {
        Phase { kind: PhaseKind::Break, seconds: p.break_seconds }
    }
}

/// The phases of a session, in order.
pub open spec fn planned_phases(p: SessionPlan) -> Seq<Phase> {
    Seq::new(phase_total(p.count as nat), |i: int| phase_at(p, i as nat))
}

/// How many phases of a sequence are of the given kind.
pub open spec fn count_kind(s: Seq<Phase>, k: PhaseKind) -> nat
    decreases s.len(),
{
    if s.len() == 0 {
        0
    } else {
        count_kind(s.drop_last(), k) + if s.last().kind == k { 1nat } else { 0nat }
    }
}

/// What follows the phase at `index` once it ended with `outcome`.
pub open spec fn step_after(p: SessionPlan, index: nat, outcome: PhaseOutcome) -> SessionStep {
    match outcome {
        PhaseOutcome::Cancelled { .. } => SessionStep::Aborted,
        PhaseOutcome::Completed => if index + 1 < phase_total(p.count as nat) {
            SessionStep::Run((index + 1) as u64)
        } else {
            SessionStep::Finished
        },
    }
}

impl SessionPlan {
    /// A plan of `count` work phases of `work_minutes` each, with breaks of
    /// `break_minutes` between them.
    pub fn new(count: u32, work_minutes: u32, break_minutes: u32) -> (r: SessionPlan)
        ensures
            r.count == count,
            r.work_seconds == seconds_of_minutes(work_minutes as nat),
            r.break_seconds == seconds_of_minutes(break_minutes as nat),
    {
        SessionPlan {
            count,
            work_seconds: phase_seconds(work_minutes),
            break_seconds: phase_seconds(break_minutes),
        }
    }

    /// How many phases run: `2 * count - 1`, or none for a count of zero.
    pub fn phase_count(&self) -> (r: u64)
        ensures
            r == phase_total(self.count as nat),
    {
        if self.count == 0 {
            0
        } else {
            2 * (self.count as u64) - 1
        }
    }

    /// The phase at position `i`.
    pub fn phase(&self, i: u64) -> (r: Phase)
        requires
            i < phase_total(self.count as nat),
        ensures
            r == phase_at(*self, i as nat),
            r == planned_phases(*self)[i as int],
    {
        if i % 2 == 0 {
            Phase { kind: PhaseKind::Work, seconds: self.work_seconds }
        } else {
            Phase { kind: PhaseKind::Break, seconds: self.break_seconds }
        }
    }

    /// All phases, in order.
    pub fn phases(&self) -> (r: Vec<Phase>)
        ensures
            r@ == planned_phases(*self),
    {
        let n = self.phase_count();
        let mut r: Vec<Phase> = Vec::new();
        let mut i: u64 = 0;
        while i < n
            invariant
                n == phase_total(self.count as nat),
                i <= n,
                r@ =~= planned_phases(*self).subrange(0, i as int),
            decreases n - i,
        {
            r.push(self.phase(i));
            i = i + 1;
        }
        assert(r@ =~= planned_phases(*self));
        r
    }

    /// The one-based number of the work session that the phase at `i`
    /// belongs to.
    pub fn session_number(&self, i: u64) -> (r: u64)
        requires
            i < phase_total(self.count as nat),
        ensures
            r == i / 2 + 1,
            1 <= r <= self.count,
    {
        i / 2 + 1
    }

    /// The first step of a session.
    pub fn first_step(&self) -> (r: SessionStep)
        ensures
            r == (if self.count == 0 { SessionStep::Finished } else { SessionStep::Run(0) }),
    {
        if self.count == 0 {
            SessionStep::Finished
        } else {
            SessionStep::Run(0)
        }
    }

    /// The step after the phase at `index` ended: a cancelled phase aborts
    /// the session, a completed one leads to the next phase or to the end.
    pub fn step_after(&self, index: u64, outcome: PhaseOutcome) -> (r: SessionStep)
        requires
            index < phase_total(self.count as nat),
        ensures
            r == step_after(*self, index as nat, outcome),
    {
        match outcome {
            PhaseOutcome::Cancelled { .. } => SessionStep::Aborted,
            PhaseOutcome::Completed => {
                if index + 1 < self.phase_count() {
                    SessionStep::Run(index + 1)
                } else {
                    SessionStep::Finished
                }
            },
        }
    }
}

/// Splits a number of seconds into hours, minutes below 60 and seconds
/// below 60.
pub fn split_elapsed(total: u64) -> (r: (u64, u64, u64))
    ensures
        r.0 * 3600 + r.1 * 60 + r.2 == total,
        r.1 < 60,
        r.2 < 60,
{
    (total / 3600, (total % 3600) / 60, total % 60)
}

/// A session of `count > 0` runs `count` work phases and `count - 1`
/// breaks, work and break in strict alternation, starting and ending
/// with work.
pub proof fn lemma_session_sequence(p: SessionPlan)
    requires
        p.count > 0,
    ensures
        planned_phases(p).len() == 2 * p.count - 1,
        count_kind(planned_phases(p), PhaseKind::Work) == p.count,
        count_kind(planned_phases(p), PhaseKind::Break) == p.count - 1,
        planned_phases(p)[0].kind == PhaseKind::Work,
        planned_phases(p).last().kind == PhaseKind::Work,
        forall|i: int|
            0 <= i < planned_phases(p).len() - 1 ==> #[trigger] planned_phases(p)[i].kind
                != planned_phases(p)[i + 1].kind,
{
    let s = planned_phases(p);
    lemma_prefix_counts(p, s.len());
    assert(s.subrange(0, s.len() as int) =~= s);
    lemma_double_is_even((p.count - 1) as nat);
    lemma_halves(p.count as nat);
    assert forall|i: int| 0 <= i < s.len() - 1 implies #[trigger] s[i].kind != s[i + 1].kind by {
        lemma_parity_flips(i as nat);
    }
}

proof fn lemma_double_is_even(c: nat)
    ensures
        (2 * c) % 2 == 0,
{
}

proof fn lemma_halves(c: nat)
    requires
        c > 0,
    ensures
        ((2 * c - 1) as nat + 1) / 2 == c,
        ((2 * c - 1) as nat) / 2 == c - 1,
{
}

proof fn lemma_parity_flips(i: nat)
    ensures
        (i % 2 == 0) != ((i + 1) % 2 == 0),
{
}

proof fn lemma_prefix_counts(p: SessionPlan, n: nat)
    requires
        n <= phase_total(p.count as nat),
    ensures
        count_kind(planned_phases(p).subrange(0, n as int), PhaseKind::Work) == (n + 1) / 2,
        count_kind(planned_phases(p).subrange(0, n as int), PhaseKind::Break) == n / 2,
    decreases n,
{
    let s = planned_phases(p).subrange(0, n as int);
    if n > 0 {
        lemma_prefix_counts(p, (n - 1) as nat);
        assert(s.drop_last() =~= planned_phases(p).subrange(0, n - 1));
    }
}

} // verus!
