use vstd::prelude::*;

verus! {

/// The result of one execution, judged against the signatures seen so far.
#[derive(Clone, Copy, Debug, PartialEq, Eq, Structural)]
pub enum BugVerdict {
    NoFinding,
    KnownFinding,
    NewFinding,
}

/// The raw outcome of one execution: success, or a failure identified by
/// its signature bytes.
#[derive(Debug)]
pub enum Outcome {
    Success,
    Failure(Vec<u8>),
}

impl View for Outcome {
    /// `None` for a success, `Some(signature)` for a failure.
    type V = Option<Seq<u8>>;

    open spec fn view(&self) -> Option<Seq<u8>> {
        match self {
            Outcome::Success => None,
            Outcome::Failure(sig) => Some(sig@),
        }
    }
}

/// The verdict that an outcome receives when `known` holds the signatures
/// already seen.
pub open spec fn verdict_of(known: Set<Seq<u8>>, o: Option<Seq<u8>>) -> BugVerdict {
    match o {
        None => BugVerdict::NoFinding,
        Some(sig) => if known.contains(sig) {
            BugVerdict::KnownFinding
        } else {
            BugVerdict::NewFinding
        },
    }
}

/// The signatures known after classifying one outcome.
pub open spec fn known_after_one(known: Set<Seq<u8>>, o: Option<Seq<u8>>) -> Set<Seq<u8>> {
    match o {
        None => known,
        Some(sig) => known.insert(sig),
    }
}

/// The signatures known after classifying `outs` in order.
pub open spec fn known_after(known: Set<Seq<u8>>, outs: Seq<Option<Seq<u8>>>) -> Set<Seq<u8>>
    decreases outs.len(),
{
    if outs.len() == 0 {
        known
    } else {
        known_after_one(known_after(known, outs.drop_last()), outs.last())
    }
}

/// The verdicts given to `outs`, classified in order.
pub open spec fn verdicts(known: Set<Seq<u8>>, outs: Seq<Option<Seq<u8>>>) -> Seq<BugVerdict>
    decreases outs.len(),
{
    if outs.len() == 0 {
        Seq::empty()
    } else {
        verdicts(known, outs.drop_last()).push(
            verdict_of(known_after(known, outs.drop_last()), outs.last()),
        )
    }
}

/// The set of signatures recorded so far; it only grows.
pub struct SignatureMemo {
    seen: Vec<Vec<u8>>,
}

impl SignatureMemo {
    pub closed spec fn entries(&self) -> Seq<Seq<u8>> {
        self.seen@.map_values(|v: Vec<u8>| v@)
    }

    /// The signatures recorded so far.
    pub closed spec fn known(&self) -> Set<Seq<u8>> {
        self.entries().to_set()
    }

    /// Each signature is held once.
    pub closed spec fn wf(&self) -> bool {
        self.entries().no_duplicates()
    }

    pub fn new() -> (r: SignatureMemo)
        ensures
            r.wf(),
            r.known() == Set::<Seq<u8>>::empty(),
    {
        let r = SignatureMemo { seen: Vec::new() };
        assert(r.known() =~= Set::<Seq<u8>>::empty());
        r
    }

    /// The number of distinct signatures recorded.
    pub fn len(&self) -> (r: usize)
        requires
            self.wf(),
        ensures
            r == self.known().len(),
    {
        proof {
            self.entries().unique_seq_to_set();
        }
        self.seen.len()
    }

    /// Whether `sig` has been recorded.
    pub fn contains(&self, sig: &[u8]) -> (r: bool)
        ensures
            r == self.known().contains(sig@),
    {
        let mut i: usize = 0;
        while i < self.seen.len()
            invariant
                0 <= i <= self.seen.len(),
                forall|j: int| 0 <= j < i ==> self.seen@[j]@ != sig@,
            decreases self.seen.len() - i,
        {
            if bytes_equal(self.seen[i].as_slice(), sig) {
                assert(self.entries()[i as int] == sig@);
                return true;
            }
            i = i + 1;
        }
        proof {
            if self.known().contains(sig@) {
                let j = choose|j: int| 0 <= j < self.entries().len() && self.entries()[j] == sig@;
                assert(self.seen@[j]@ == sig@);
            }
        }
        false
    }

    /// Records `sig`; returns whether it was not recorded before.
    pub fn record(&mut self, sig: &[u8]) -> (r: bool)
        requires
            old(self).wf(),
        ensures
            final(self).wf(),
            r == !old(self).known().contains(sig@),
            final(self).known() == old(self).known().insert(sig@),
    {
        if self.contains(sig) {
            proof {
                assert(self.known().insert(sig@) =~= self.known());
            }
            false
        } else {
            let ghost before = self.entries();
            self.seen.push(copy_bytes(sig));
            proof {
                assert(self.entries() =~= before.push(sig@));
                assert(self.known() =~= before.to_set().insert(sig@)) by {
                    assert forall|s: Seq<u8>| self.known().contains(s) <==> before.to_set().insert(sig@).contains(s) by {
                        if self.known().contains(s) {
                            let j = choose|j: int| 0 <= j < self.entries().len() && self.entries()[j] == s;
                            if j < before.len() {
                                assert(before[j] == s);
                            }
                        }
                        if before.to_set().contains(s) {
                            let j = choose|j: int| 0 <= j < before.len() && before[j] == s;
                            assert(self.entries()[j] == s);
                        }
                        if s == sig@ {
                            assert(self.entries()[before.len() as int] == s);
                        }
                    }
                }
                assert forall|a: int, b: int| 0 <= a < b < self.entries().len() implies self.entries()[a] != self.entries()[b] by {
                    if b == before.len() {
                        assert(before.to_set().contains(before[a]));
                    }
                }
            }
            true
        }
    }
}


/// A signature is known after a run of outcomes exactly when it was known
/// before or one of the outcomes is a failure carrying it.
proof fn lemma_known_after_contains(known: Set<Seq<u8>>, outs: Seq<Option<Seq<u8>>>, s: Seq<u8>)
    ensures
        known_after(known, outs).contains(s) <==> (known.contains(s) || exists|j: int|
            0 <= j < outs.len() && outs[j] == Some(s)),
    decreases outs.len(),
{
    if outs.len() > 0 {
        let init = outs.drop_last();
        lemma_known_after_contains(known, init, s);
        if exists|j: int| 0 <= j < init.len() && init[j] == Some(s) {
            let j = choose|j: int| 0 <= j < init.len() && init[j] == Some(s);
            assert(outs[j] == Some(s));
        }
        if exists|j: int| 0 <= j < outs.len() && outs[j] == Some(s) {
            let j = choose|j: int| 0 <= j < outs.len() && outs[j] == Some(s);
            if j < init.len() {
                assert(init[j] == Some(s));
            }
        }
    }
}

/// The i-th verdict is that of the i-th outcome against what the outcomes
/// before it left known.
proof fn lemma_verdict_at(known: Set<Seq<u8>>, outs: Seq<Option<Seq<u8>>>, i: int)
    requires
        0 <= i < outs.len(),
    ensures
        verdicts(known, outs).len() == outs.len(),
        verdicts(known, outs)[i] == verdict_of(known_after(known, outs.take(i)), outs[i]),
    decreases outs.len(),
{
    let init = outs.drop_last();
    lemma_verdicts_len(known, outs);
    if i < outs.len() - 1 {
        lemma_verdict_at(known, init, i);
        assert(init.take(i) =~= outs.take(i));
    } else {
        lemma_verdicts_len(known, init);
        assert(outs.take(i) =~= init);
    }
}

proof fn lemma_verdicts_len(known: Set<Seq<u8>>, outs: Seq<Option<Seq<u8>>>)
    ensures
        verdicts(known, outs).len() == outs.len(),
    decreases outs.len(),
{
    if outs.len() > 0 {
        lemma_verdicts_len(known, outs.drop_last());
    }
}

/// First seen wins: when outcomes are classified one after another, in
/// whatever order they arrive, a success is never a finding, and a failure is
/// a new finding exactly when its signature was neither known beforehand nor
/// carried by an earlier outcome; otherwise it is a known finding.
pub proof fn lemma_first_seen_wins(known: Set<Seq<u8>>, outs: Seq<Option<Seq<u8>>>, i: int)
    requires
        0 <= i < outs.len(),
    ensures
        verdicts(known, outs).len() == outs.len(),
        outs[i] is None ==> verdicts(known, outs)[i] == BugVerdict::NoFinding,
        outs[i] is Some ==> (verdicts(known, outs)[i] == BugVerdict::NewFinding <==> (
        !known.contains(outs[i]->0) && forall|j: int| 0 <= j < i ==> outs[j] != outs[i])),
        outs[i] is Some ==> (verdicts(known, outs)[i] == BugVerdict::KnownFinding <==> (
        known.contains(outs[i]->0) || exists|j: int| 0 <= j < i && outs[j] == outs[i])),
{
    lemma_verdict_at(known, outs, i);
    if outs[i] is Some {
        let s = outs[i]->0;
        let pre = outs.take(i);
        lemma_known_after_contains(known, pre, s);
        if exists|j: int| 0 <= j < i && outs[j] == outs[i] {
            let j = choose|j: int| 0 <= j < i && outs[j] == outs[i];
            assert(pre[j] == Some(s));
        }
        if exists|j: int| 0 <= j < pre.len() && pre[j] == Some(s) {
            let j = choose|j: int| 0 <= j < pre.len() && pre[j] == Some(s);
            assert(outs[j] == outs[i]);
        }
    }
}

/// No finding is lost and none is repeated: a signature that was not known
/// beforehand and that some outcome carries is reported as a new finding at
/// exactly one position, the first outcome that carries it.
pub proof fn lemma_new_finding_once(known: Set<Seq<u8>>, outs: Seq<Option<Seq<u8>>>, sig: Seq<u8>)
    requires
        !known.contains(sig),
        exists|j: int| 0 <= j < outs.len() && outs[j] == Some(sig),
    ensures
        exists|i: int|
            0 <= i < outs.len() && outs[i] == Some(sig) && verdicts(known, outs)[i]
                == BugVerdict::NewFinding,
        forall|i: int, k: int|
            0 <= i < outs.len() && 0 <= k < outs.len() && outs[i] == Some(sig) && outs[k] == Some(
                sig,
            ) && verdicts(known, outs)[i] == BugVerdict::NewFinding && verdicts(known, outs)[k]
                == BugVerdict::NewFinding ==> i == k,
{
    let first = choose|j: int| 0 <= j < outs.len() && outs[j] == Some(sig) && forall|m: int|
        0 <= m < j ==> outs[m] != Some(sig);
    assert(exists|j: int| 0 <= j < outs.len() && outs[j] == Some(sig) && forall|m: int|
        0 <= m < j ==> outs[m] != Some(sig)) by {
        lemma_first_index(outs, sig, outs.len() as int);
    }
    lemma_first_seen_wins(known, outs, first);
    assert forall|i: int, k: int|
        0 <= i < outs.len() && 0 <= k < outs.len() && outs[i] == Some(sig) && outs[k] == Some(
            sig,
        ) && verdicts(known, outs)[i] == BugVerdict::NewFinding && verdicts(known, outs)[k]
            == BugVerdict::NewFinding implies i == k by {
        lemma_first_seen_wins(known, outs, i);
        lemma_first_seen_wins(known, outs, k);
        if i < k {
            assert(outs[i] == outs[k]);
        }
        if k < i {
            assert(outs[k] == outs[i]);
        }
    }
}

/// Some prefix bound `n` that contains `sig` has a first occurrence of it.
proof fn lemma_first_index(outs: Seq<Option<Seq<u8>>>, sig: Seq<u8>, n: int)
    requires
        0 <= n <= outs.len(),
        exists|j: int| 0 <= j < n && outs[j] == Some(sig),
    ensures
        exists|j: int| 0 <= j < n && outs[j] == Some(sig) && forall|m: int|
            0 <= m < j ==> outs[m] != Some(sig),
    decreases n,
{
    if exists|j: int| 0 <= j < n - 1 && outs[j] == Some(sig) {
        lemma_first_index(outs, sig, n - 1);
    } else {
        assert(outs[n - 1] == Some(sig));
        assert(forall|m: int| 0 <= m < n - 1 ==> outs[m] != Some(sig));
    }
}

/// Successes leave no trace: a run of successful executions gets the same
/// verdicts, all of them "no finding", and leaves the same memo, whatever
/// signatures earlier iterations recorded.
pub proof fn lemma_success_is_history_free(
    k1: Set<Seq<u8>>,
    k2: Set<Seq<u8>>,
    outs: Seq<Option<Seq<u8>>>,
)
    requires
        forall|i: int| 0 <= i < outs.len() ==> outs[i] is None,
    ensures
        verdicts(k1, outs) == verdicts(k2, outs),
        forall|i: int| 0 <= i < outs.len() ==> verdicts(k1, outs)[i] == BugVerdict::NoFinding,
        known_after(k1, outs) == k1,
    decreases outs.len(),
{
    lemma_verdicts_len(k1, outs);
    if outs.len() > 0 {
        lemma_success_is_history_free(k1, k2, outs.drop_last());
        assert(verdicts(k1, outs) =~= verdicts(k2, outs));
    }
}

/// A fresh vector holding the bytes of `s`.
fn copy_bytes(s: &[u8]) -> (r: Vec<u8>)
    ensures
        r@ == s@,
{
    let mut r: Vec<u8> = Vec::with_capacity(s.len());
    let mut i: usize = 0;
    while i < s.len()
        invariant
            0 <= i <= s.len(),
            r@ == s@.subrange(0, i as int),
        decreases s.len() - i,
    {
        r.push(s[i]);
        i = i + 1;
    }
    assert(r@ =~= s@);
    r
}

/// Whether two byte strings are equal.
fn bytes_equal(a: &[u8], b: &[u8]) -> (r: bool)
    ensures
        r == (a@ == b@),
{
    if a.len() != b.len() {
        return false;
    }
    let mut i: usize = 0;
    while i < a.len()
        invariant
            a@.len() == b@.len(),
            0 <= i <= a.len(),
            forall|j: int| 0 <= j < i ==> a@[j] == b@[j],
        decreases a.len() - i,
    {
        if a[i] != b[i] {
            return false;
        }
        i = i + 1;
    }
    assert(a@ =~= b@);
    true
}

/// Classifies one outcome against the memo and records a failure's
/// signature: a success is never a finding, a failure is new exactly when its
/// signature had not been recorded.
pub fn classify(memo: &mut SignatureMemo, outcome: &Outcome) -> (r: BugVerdict)
    requires
        old(memo).wf(),
    ensures
        final(memo).wf(),
        r == verdict_of(old(memo).known(), outcome@),
        final(memo).known() == known_after_one(old(memo).known(), outcome@),
{
    match outcome {
        Outcome::Success => BugVerdict::NoFinding,
        Outcome::Failure(sig) => {
            if memo.record(sig.as_slice()) {
                BugVerdict::NewFinding
            } else {
                BugVerdict::KnownFinding
            }
        },
    }
}

} // verus!
