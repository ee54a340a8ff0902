use vstd::prelude::*;
use crate::set::{valid_signo, SignalSet, MAX_SIGNO};
use crate::signo::SignalInfo;

verus! {

/// Signals raised but not yet delivered: at most one record per number.
/// A number raised again while queued keeps its first record.
pub struct PendingSignals {
    /// The numbers that have a record.
    set: SignalSet,
    infos: Vec<Option<SignalInfo>>,
}

impl PendingSignals {
    /// The record queued for each number `n`, at index `n - 1`.
    pub closed spec fn entries(&self) -> Seq<Option<SignalInfo>> {
        self.infos@
    }

    /// The record queued for `signo`, if any.
    pub open spec fn entry(&self, signo: int) -> Option<SignalInfo> {
        if valid_signo(signo) {
            self.entries()[signo - 1]
        } else {
            None
        }
    }

    /// The records after `sig` is raised: a number already queued keeps its
    /// first record.
    pub open spec fn put_spec(e: Seq<Option<SignalInfo>>, sig: SignalInfo) -> Seq<Option<SignalInfo>> {
        if e[sig.signo - 1] is None {
            e.update(sig.signo - 1, Some(sig))
        } else {
            e
        }
    }

    /// Whether some record in the queue has its number in `mask`.
    pub open spec fn has_deliverable(&self, mask: SignalSet) -> bool {
        exists|n: int| #[trigger] self.deliverable(mask, n)
    }

    /// `q1` is `q0` after a dequeue through `mask` that returned `r`.
    pub open spec fn dequeued(
        q0: PendingSignals,
        q1: PendingSignals,
        mask: SignalSet,
        r: Option<SignalInfo>,
    ) -> bool {
        match r {
            None => {
                &&& !q0.has_deliverable(mask)
                &&& q1 == q0
            },
            Some(sig) => {
                &&& q0.deliverable(mask, sig.signo as int)
                &&& q0.entry(sig.signo as int) == Some(sig)
                &&& forall|n: int| n < sig.signo ==> !#[trigger] q0.deliverable(mask, n)
                &&& q1.entry(sig.signo as int) is None
                &&& forall|n: int|
                    n != sig.signo as int ==> #[trigger] q1.entry(n) == q0.entry(n)
            },
        }
    }

    pub closed spec fn wf(&self) -> bool {
        &&& self.infos@.len() == MAX_SIGNO
        &&& forall|n: int|
            valid_signo(n) ==> (#[trigger] self.set.contains(n) <==> self.infos@[n - 1] is Some)
        &&& forall|n: int|
            valid_signo(n) && #[trigger] self.infos@[n - 1] is Some ==> self.infos@[n
                - 1]->0.signo == n
    }

    /// Whether a record for `signo` is queued and `signo` is in `mask`.
    pub open spec fn deliverable(&self, mask: SignalSet, signo: int) -> bool {
        self.entry(signo) is Some && mask.contains(signo)
    }

    /// The numbers that have a record.
    pub fn pending_set(&self) -> (r: SignalSet)
        requires
            self.wf(),
        ensures
            forall|n: int| #[trigger] r.contains(n) == (self.entry(n) is Some),
    {
        self.set
    }

    /// An empty queue.
    pub fn new() -> (r: PendingSignals)
        ensures
            r.wf(),
            forall|n: int| #[trigger] r.entry(n) is None,
    {
        let set = SignalSet::empty();
        let mut infos: Vec<Option<SignalInfo>> = Vec::new();
        while infos.len() < 64
            invariant
                infos@.len() <= 64,
                forall|i: int| 0 <= i < infos@.len() ==> #[trigger] infos@[i] is None,
            decreases 64 - infos@.len(),
        {
            infos.push(None);
        }
        PendingSignals { set, infos }
    }

    /// Queues `sig` unless its number already has a record; returns whether
    /// it was queued.
    pub fn put_signal(&mut self, sig: SignalInfo) -> (r: bool)
        requires
            old(self).wf(),
            valid_signo(sig.signo as int),
        ensures
            final(self).wf(),
            final(self).entries() == PendingSignals::put_spec(old(self).entries(), sig),
            r == (old(self).entry(sig.signo as int) is None),
            final(self).entry(sig.signo as int) == if r {
                Some(sig)
            } else {
                old(self).entry(sig.signo as int)
            },
            forall|n: int|
                n != sig.signo as int ==> #[trigger] final(self).entry(n) == old(self).entry(n),
    {
        let signo = sig.signo;
        let added = self.set.add(signo);
        if added {
            self.infos.set((signo - 1) as usize, Some(sig));
        }
        proof {
            assert forall|n: int| valid_signo(n) implies (#[trigger] self.set.contains(n)
                <==> self.infos@[n - 1] is Some) by {
                assert(old(self).set.contains(n) <==> old(self).infos@[n - 1] is Some);
            }
            assert forall|n: int|
                valid_signo(n) && #[trigger] self.infos@[n - 1] is Some implies self.infos@[n
                - 1]->0.signo == n by {
                if n != signo as int {
                    assert(old(self).infos@[n - 1] is Some);
                }
            }
        }
        proof {
            assert(self.infos@ =~= PendingSignals::put_spec(old(self).infos@, sig));
        }
        added
    }

    /// Removes and returns the record of the lowest-numbered queued signal
    /// whose number is in `mask`.
    pub fn dequeue_signal(&mut self, mask: &SignalSet) -> (r: Option<SignalInfo>)
        requires
            old(self).wf(),
        ensures
            final(self).wf(),
            PendingSignals::dequeued(*old(self), *final(self), *mask, r),
    {
        let mut signo: u32 = 1;
        while signo <= MAX_SIGNO
            invariant
                self.wf(),
                *self == *old(self),
                1 <= signo <= MAX_SIGNO + 1,
                forall|n: int| n < signo ==> !#[trigger] self.deliverable(*mask, n),
            decreases MAX_SIGNO + 1 - signo,
        {
            if self.set.has(signo) && mask.has(signo) {
                let ghost before = *self;
                self.set.remove(signo);
                let sig = self.infos[(signo - 1) as usize];
                self.infos.set((signo - 1) as usize, None);
                proof {
                    assert(before.set.contains(signo as int));
                    assert(before.infos@[signo - 1] is Some);
                    assert forall|n: int| valid_signo(n) implies (#[trigger] self.set.contains(n)
                        <==> self.infos@[n - 1] is Some) by {
                        assert(before.set.contains(n) <==> before.infos@[n - 1] is Some);
                    }
                    assert forall|n: int|
                        valid_signo(n) && #[trigger] self.infos@[n - 1] is Some implies self.infos@[n
                        - 1]->0.signo == n by {
                        assert(before.infos@[n - 1] is Some);
                    }
                }
                return sig;
            }
            signo = signo + 1;
        }
        proof {
            assert forall|n: int| !#[trigger] old(self).deliverable(*mask, n) by {
                if n < signo {
                    assert(!self.deliverable(*mask, n));
                }
                if n >= signo {
                    assert(!valid_signo(n));
                }
            }
        }
        None
    }
}

/// Raising a number twice before it is taken leaves the queue as the first
/// raise left it: the number is queued once, with the first record.
pub proof fn lemma_send_twice_coalesces(q: PendingSignals, first: SignalInfo, second: SignalInfo)
    requires
        q.wf(),
        valid_signo(first.signo as int),
        second.signo == first.signo,
    ensures
        PendingSignals::put_spec(PendingSignals::put_spec(q.entries(), first), second)
            == PendingSignals::put_spec(q.entries(), first),
        PendingSignals::put_spec(q.entries(), first)[first.signo - 1] is Some,
{
}

} // verus!
