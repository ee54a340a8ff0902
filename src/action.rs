use vstd::prelude::*;
use crate::pending::PendingSignals;
use crate::set::{valid_signo, SignalSet, MAX_SIGNO};
use crate::signo::SignalInfo;

verus! {

/// How a signal number is to be handled.
#[derive(Clone, Copy, PartialEq, Eq, Structural, Debug)]
pub enum SignalDisposition {
    /// The number's default category applies.
    Default,
    /// The signal is discarded.
    Ignore,
    /// User execution is redirected to the handler at this address.
    Handler(u64),
}

/// Flags of a signal action, with the bit values of the Linux ABI.
#[derive(Clone, Copy, PartialEq, Eq, Structural, Debug)]
pub struct SignalActionFlags {
    pub bits: u64,
}

/// Deliver on the alternate signal stack.
pub const SA_ONSTACK: u64 = 0x0800_0000;
/// Do not block the signal itself while its handler runs.
pub const SA_NODEFER: u64 = 0x4000_0000;
/// Reset the disposition to default once the handler has been entered.
pub const SA_RESETHAND: u64 = 0x8000_0000;
/// The action names its own return trampoline.
pub const SA_RESTORER: u64 = 0x0400_0000;

impl SignalActionFlags {
    /// Whether every bit of `flag` is set.
    pub open spec fn has(self, flag: u64) -> bool {
        self.bits & flag == flag
    }

    /// Whether every bit of `flag` is set.
    pub fn contains(&self, flag: u64) -> (r: bool)
        ensures
            r == self.has(flag),
    {
        self.bits & flag == flag
    }
}

/// The per-number configuration of a process.
#[derive(Clone, Copy, PartialEq, Eq, Structural, Debug)]
pub struct SignalAction {
    pub disposition: SignalDisposition,
    pub flags: SignalActionFlags,
    /// Signals additionally blocked while the handler runs.
    pub mask: SignalSet,
    /// Return trampoline; the process default is used where absent.
    pub restorer: Option<u64>,
}

impl SignalAction {
    /// The action every number starts with and is reset to: default
    /// disposition, no flags, empty mask, no trampoline.
    pub open spec fn default_value() -> SignalAction {
        SignalAction {
            disposition: SignalDisposition::Default,
            flags: SignalActionFlags { bits: 0 },
            mask: SignalSet { bits: 0 },
            restorer: None,
        }
    }

    pub open spec fn is_default(self) -> bool {
        self == SignalAction::default_value()
    }

    /// Default disposition, no flags, empty mask, no trampoline.
    pub fn new_default() -> (r: SignalAction)
        ensures
            r.is_default(),
    {
        SignalAction {
            disposition: SignalDisposition::Default,
            flags: SignalActionFlags { bits: 0 },
            mask: SignalSet { bits: 0 },
            restorer: None,
        }
    }
}

/// Process-wide signal state shared by all threads of a process: the
/// action table, the process-directed pending queue, and the trampoline
/// used by handlers that name none.
pub struct ProcessSignalManager {
    actions: Vec<SignalAction>,
    pending: PendingSignals,
    default_restorer: u64,
}

impl ProcessSignalManager {
    pub closed spec fn wf(&self) -> bool {
        &&& self.actions_view().len() == MAX_SIGNO
        &&& self.pending.wf()
    }

    /// The process-directed queue.
    pub closed spec fn pending_q(&self) -> PendingSignals {
        self.pending
    }

    /// The trampoline for handlers that name none.
    pub closed spec fn restorer_spec(&self) -> u64 {
        self.default_restorer
    }

    /// The trampoline for handlers that name none.
    pub fn default_restorer(&self) -> (r: u64)
        ensures
            r == self.restorer_spec(),
    {
        self.default_restorer
    }

    pub closed spec fn actions_view(&self) -> Seq<SignalAction> {
        self.actions@
    }

    /// The action configured for `signo`.
    pub open spec fn action_of(&self, signo: int) -> SignalAction {
        self.actions_view()[signo - 1]
    }

    /// A manager with every action at its default and nothing pending.
    pub fn new(default_restorer: u64) -> (r: ProcessSignalManager)
        ensures
            r.wf(),
            r.restorer_spec() == default_restorer,
            forall|n: int| valid_signo(n) ==> (#[trigger] r.action_of(n)).is_default(),
            forall|n: int| #[trigger] r.pending_q().entry(n) is None,
    {
        let mut actions: Vec<SignalAction> = Vec::new();
        while actions.len() < 64
            invariant
                actions@.len() <= 64,
                forall|i: int| 0 <= i < actions@.len() ==> (#[trigger] actions@[i]).is_default(),
            decreases 64 - actions@.len(),
        {
            actions.push(SignalAction::new_default());
        }
        let r = ProcessSignalManager { actions, pending: PendingSignals::new(), default_restorer };
        proof {
            assert forall|n: int| valid_signo(n) implies (#[trigger] r.action_of(n)).is_default() by {
                assert(r.actions@[n - 1].is_default());
            }
        }
        r
    }

    /// The action configured for `signo`.
    pub fn action(&self, signo: u32) -> (r: SignalAction)
        requires
            self.wf(),
            valid_signo(signo as int),
        ensures
            r == self.action_of(signo as int),
    {
        self.actions[(signo - 1) as usize]
    }

    /// Replaces the action of `signo`.
    pub fn set_action(&mut self, signo: u32, action: SignalAction)
        requires
            old(self).wf(),
            valid_signo(signo as int),
        ensures
            final(self).wf(),
            final(self).action_of(signo as int) == action,
            forall|n: int|
                valid_signo(n) && n != signo as int ==> #[trigger] final(self).action_of(n)
                    == old(self).action_of(n),
            final(self).pending_q() == old(self).pending_q(),
            final(self).restorer_spec() == old(self).restorer_spec(),
    {
        self.actions.set((signo - 1) as usize, action);
    }

    /// Removes the lowest-numbered process-directed signal in `mask`.
    pub fn dequeue_signal(&mut self, mask: &SignalSet) -> (r: Option<SignalInfo>)
        requires
            old(self).wf(),
        ensures
            final(self).wf(),
            final(self).actions_view() == old(self).actions_view(),
            final(self).restorer_spec() == old(self).restorer_spec(),
            PendingSignals::dequeued(old(self).pending_q(), final(self).pending_q(), *mask, r),
    {
        self.pending.dequeue_signal(mask)
    }

    /// Queues a process-directed signal; returns whether it was queued (a
    /// number already pending keeps its first record). Waking the waiters
    /// of the process is left to the caller.
    pub fn send_signal(&mut self, sig: SignalInfo) -> (r: bool)
        requires
            old(self).wf(),
            valid_signo(sig.signo as int),
        ensures
            final(self).wf(),
            final(self).actions_view() == old(self).actions_view(),
            final(self).restorer_spec() == old(self).restorer_spec(),
            r == (old(self).pending_q().entry(sig.signo as int) is None),
            final(self).pending_q().entry(sig.signo as int) == if r {
                Some(sig)
            } else {
                old(self).pending_q().entry(sig.signo as int)
            },
            forall|n: int|
                n != sig.signo as int ==> #[trigger] final(self).pending_q().entry(n) == old(
                    self,
                ).pending_q().entry(n),
    {
        self.pending.put_signal(sig)
    }

    /// The numbers pending at process level.
    pub fn pending(&self) -> (r: SignalSet)
        requires
            self.wf(),
        ensures
            forall|n: int| #[trigger] r.contains(n) == (self.pending_q().entry(n) is Some),
    {
        self.pending.pending_set()
    }
}

} // verus!
