use vstd::prelude::*;
use crate::classify::{BugVerdict, Outcome, SignatureMemo, classify, known_after_one, verdict_of};

verus! {

/// A hard fault of the underlying runtime, unrelated to the program under
/// test.
#[derive(Debug)]
pub struct ExecFault {
    pub message: String,
}

/// Owns the executor's lifecycle state and the memo of failure signatures.
/// The backend is created once, on first use, and never torn down; each
/// execution is classified against the memo, which only grows.
pub struct ExecutionManager {
    ready: bool,
    memo: SignatureMemo,
}

impl ExecutionManager {
    /// Whether the backend has been created.
    pub closed spec fn is_ready(&self) -> bool {
        self.ready
    }

    /// The failure signatures observed so far.
    pub closed spec fn known(&self) -> Set<Seq<u8>> {
        self.memo.known()
    }

    pub closed spec fn wf(&self) -> bool {
        self.memo.wf()
    }

    /// A manager in the uninitialized state, with nothing observed.
    pub fn new() -> (r: ExecutionManager)
        ensures
            r.wf(),
            !r.is_ready(),
            r.known() == Set::<Seq<u8>>::empty(),
    {
        ExecutionManager { ready: false, memo: SignatureMemo::new() }
    }

    /// Whether the backend still has to be created before the first run.
    pub fn needs_backend(&self) -> (r: bool)
        ensures
            r == !self.is_ready(),
    {
        !self.ready
    }

    /// Notes that the backend now exists; the manager never returns to the
    /// uninitialized state.
    pub fn backend_created(&mut self)
        requires
            old(self).wf(),
        ensures
            final(self).wf(),
            final(self).is_ready(),
            final(self).known() == old(self).known(),
    {
        self.ready = true;
    }

    /// Classifies what one execution of the backend produced. A fault is
    /// handed back and leaves the memo as it was, so that later calls see the
    /// same state; an outcome is judged first-seen-wins and its signature
    /// recorded.
    pub fn execute_and_classify(&mut self, run: Result<Outcome, ExecFault>) -> (r: Result<
        BugVerdict,
        ExecFault,
    >)
        requires
            old(self).wf(),
            old(self).is_ready(),
        ensures
            final(self).wf(),
            final(self).is_ready(),
            match run {
                Ok(o) => r == Ok::<BugVerdict, ExecFault>(verdict_of(old(self).known(), o@))
                    && final(self).known() == known_after_one(old(self).known(), o@),
                Err(e) => r == Err::<BugVerdict, ExecFault>(e) && final(self).known() == old(
                    self,
                ).known(),
            },
    {
        match run {
            Ok(o) => Ok(classify(&mut self.memo, &o)),
            Err(e) => Err(e),
        }
    }

    /// The number of distinct failure signatures observed.
    pub fn known_count(&self) -> (r: usize)
        requires
            self.wf(),
        ensures
            r == self.known().len(),
    {
        self.memo.len()
    }

    /// Whether the failure signature `sig` has been observed.
    pub fn has_seen(&self, sig: &[u8]) -> (r: bool)
        ensures
            r == self.known().contains(sig@),
    {
        self.memo.contains(sig)
    }
}

} // verus!
