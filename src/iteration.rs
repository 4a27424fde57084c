use vstd::prelude::*;
use crate::classify::BugVerdict;

verus! {

/// How one run setting's execution went, as the iteration needs it.
#[derive(Clone, Copy, Debug, PartialEq, Eq, Structural)]
pub enum RunStatus {
    Completed(BugVerdict),
    Faulted,
}

/// How an iteration ends for the fuzzing engine.
#[derive(Clone, Copy, Debug, PartialEq, Eq, Structural)]
pub enum IterationEnd {
    /// Return normally and take the next input.
    Continue,
    /// A new finding: terminate abnormally so that the engine reports it.
    Finding,
    /// The runtime faulted: abort the iteration with a hard error.
    Fault,
}

/// What the driver does next.
#[derive(Clone, Copy, Debug, PartialEq, Eq, Structural)]
pub enum Action {
    /// Execute the compiled program under the run setting at this index.
    Execute(usize),
    /// Stop, ending the iteration this way.
    Finish(IterationEnd),
}

/// A status that ends the iteration early: a fault or a new finding.
pub open spec fn is_decisive(s: RunStatus) -> bool {
    s == RunStatus::Faulted || s == RunStatus::Completed(BugVerdict::NewFinding)
}

/// The end of an iteration whose settings gave `rs`, in order: the first
/// decisive status decides; with none, the iteration continues.
pub open spec fn end_of(rs: Seq<RunStatus>) -> IterationEnd
    decreases rs.len(),
{
    if rs.len() == 0 {
        IterationEnd::Continue
    } else if rs[0] == RunStatus::Faulted {
        IterationEnd::Fault
    } else if rs[0] == RunStatus::Completed(BugVerdict::NewFinding) {
        IterationEnd::Finding
    } else {
        end_of(rs.subrange(1, rs.len() as int))
    }
}

/// Whether some status in `rs` is decisive.
pub open spec fn has_decisive(rs: Seq<RunStatus>) -> bool {
    exists|i: int| 0 <= i < rs.len() && is_decisive(rs[i])
}

/// The decisions of one fuzz iteration after generation: which run setting
/// to execute next and how the iteration ends. A program that did not compile
/// plans no execution. Without `run_all` the iteration stops at the first
/// decisive status; with it (profiling runs) every setting is executed.
pub struct Iteration {
    planned: usize,
    run_all: bool,
    statuses: Vec<RunStatus>,
}

impl Iteration {
    /// The number of executions planned.
    pub closed spec fn planned(&self) -> nat {
        self.planned as nat
    }

    pub closed spec fn run_all(&self) -> bool {
        self.run_all
    }

    /// The statuses recorded so far, one per executed setting, in order.
    pub closed spec fn recorded(&self) -> Seq<RunStatus> {
        self.statuses@
    }

    /// The action that follows the statuses recorded so far.
    pub open spec fn next(&self) -> Action {
        if self.recorded().len() < self.planned() && (self.run_all() || !has_decisive(
            self.recorded(),
        )) {
            Action::Execute(self.recorded().len() as usize)
        } else {
            Action::Finish(end_of(self.recorded()))
        }
    }

    /// An iteration over `n_settings` run settings; none is executed when
    /// the program did not compile.
    pub fn new(n_settings: usize, compiled: bool, run_all: bool) -> (r: Iteration)
        ensures
            r.planned() == (if compiled {
                n_settings as nat
            } else {
                0
            }),
            r.run_all() == run_all,
            r.recorded() == Seq::<RunStatus>::empty(),
    {
        Iteration { planned: if compiled { n_settings } else { 0 }, run_all, statuses: Vec::new() }
    }

    /// The next action.
    pub fn next_action(&self) -> (r: Action)
        ensures
            r == self.next(),
    {
        if self.statuses.len() < self.planned && (self.run_all || !first_decisive(&self.statuses).0) {
            Action::Execute(self.statuses.len())
        } else {
            Action::Finish(first_decisive(&self.statuses).1)
        }
    }

    /// Records the status of the execution that `next_action` asked for.
    pub fn record(&mut self, status: RunStatus)
        requires
            old(self).next() is Execute,
        ensures
            final(self).recorded() == old(self).recorded().push(status),
            final(self).planned() == old(self).planned(),
            final(self).run_all() == old(self).run_all(),
    {
        self.statuses.push(status);
    }

    /// The statuses recorded so far.
    pub fn statuses(&self) -> (r: &Vec<RunStatus>)
        ensures
            r@ == self.recorded(),
    {
        &self.statuses
    }
}

/// Whether `rs` holds a decisive status, and the end that `rs` gives.
fn first_decisive(rs: &Vec<RunStatus>) -> (r: (bool, IterationEnd))
    ensures
        r.0 == has_decisive(rs@),
        r.1 == end_of(rs@),
{
    let mut i: usize = 0;
    assert(rs@.subrange(0, rs@.len() as int) =~= rs@);
    while i < rs.len()
        invariant
            0 <= i <= rs.len(),
            forall|j: int| 0 <= j < i ==> !is_decisive(rs@[j]),
            end_of(rs@) == end_of(rs@.subrange(i as int, rs@.len() as int)),
        decreases rs.len() - i,
    {
        let s = rs[i];
        let ghost rest = rs@.subrange(i as int, rs@.len() as int);
        assert(rest[0] == s);
        if s == RunStatus::Faulted {
            return (true, IterationEnd::Fault);
        }
        if s == RunStatus::Completed(BugVerdict::NewFinding) {
            return (true, IterationEnd::Finding);
        }
        assert(rest.subrange(1, rest.len() as int) =~= rs@.subrange(i + 1, rs@.len() as int));
        i = i + 1;
    }
    assert(rs@.subrange(i as int, rs@.len() as int) =~= Seq::<RunStatus>::empty());
    (false, IterationEnd::Continue)
}

/// Proof that a sequence with no decisive status continues, and that one
/// with a decisive status ends as its first decisive status says.
proof fn lemma_end_of_prefix(rs: Seq<RunStatus>, k: int)
    requires
        0 <= k <= rs.len(),
        forall|j: int| 0 <= j < k ==> !is_decisive(rs[j]),
    ensures
        end_of(rs) == end_of(rs.subrange(k, rs.len() as int)),
    decreases k,
{
    if k == 0 {
        assert(rs.subrange(0, rs.len() as int) =~= rs);
    } else {
        let tail = rs.subrange(1, rs.len() as int);
        assert(!is_decisive(rs[0]));
        assert forall|j: int| 0 <= j < k - 1 implies !is_decisive(tail[j]) by {
            assert(tail[j] == rs[j + 1]);
        }
        lemma_end_of_prefix(tail, k - 1);
        assert(tail.subrange(k - 1, tail.len() as int) =~= rs.subrange(k, rs.len() as int));
    }
}

/// Stopping early changes nothing: the statuses up to and including the
/// first decisive one end the iteration as the statuses of all settings do,
/// so an iteration that stops there and one that runs every setting end
/// alike.
pub proof fn lemma_stop_at_first_decisive(rs: Seq<RunStatus>, k: int)
    requires
        0 <= k < rs.len(),
        is_decisive(rs[k]),
        forall|j: int| 0 <= j < k ==> !is_decisive(rs[j]),
    ensures
        end_of(rs.take(k + 1)) == end_of(rs),
        end_of(rs) != IterationEnd::Continue,
{
    lemma_end_of_prefix(rs, k);
    lemma_end_of_prefix(rs.take(k + 1), k);
    assert(rs.take(k + 1).subrange(k, k + 1) =~= seq![rs[k]]);
    assert(rs.subrange(k, rs.len() as int)[0] == rs[k]);
    assert(seq![rs[k]][0] == rs[k]);
}

/// Without faults, an iteration ends in a finding exactly when some setting
/// produced a new finding, and continues otherwise.
pub proof fn lemma_finding_iff_new(rs: Seq<RunStatus>)
    requires
        forall|j: int| 0 <= j < rs.len() ==> rs[j] != RunStatus::Faulted,
    ensures
        end_of(rs) == IterationEnd::Finding <==> exists|j: int|
            0 <= j < rs.len() && rs[j] == RunStatus::Completed(BugVerdict::NewFinding),
        end_of(rs) != IterationEnd::Fault,
    decreases rs.len(),
{
    if rs.len() > 0 {
        let tail = rs.subrange(1, rs.len() as int);
        lemma_finding_iff_new(tail);
        if exists|j: int| 0 <= j < tail.len() && tail[j] == RunStatus::Completed(
            BugVerdict::NewFinding,
        ) {
            let j = choose|j: int| 0 <= j < tail.len() && tail[j] == RunStatus::Completed(
                BugVerdict::NewFinding,
            );
            assert(rs[j + 1] == tail[j]);
        }
        if exists|j: int| 0 <= j < rs.len() && rs[j] == RunStatus::Completed(
            BugVerdict::NewFinding,
        ) {
            let j = choose|j: int| 0 <= j < rs.len() && rs[j] == RunStatus::Completed(
                BugVerdict::NewFinding,
            );
            if j > 0 {
                assert(tail[j - 1] == rs[j]);
            }
        }
    }
}

} // verus!
