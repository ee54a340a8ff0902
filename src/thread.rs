use vstd::prelude::*;
use crate::action::{
    ProcessSignalManager, SignalAction, SignalDisposition, SA_NODEFER, SA_ONSTACK, SA_RESETHAND,
};
use crate::pending::PendingSignals;
use crate::set::{lemma_complement, valid_signo, SignalSet};
use crate::signo::{
    default_action, default_os_action, DefaultSignalAction, SignalInfo, SignalOSAction,
};
use crate::ucontext::{ss_disable_bit, SignalStack, TrapFrame, UContext};

verus! {

/// Size and alignment of a signal frame in memory, and where in it the
/// signal record and the saved context lie.
#[derive(Clone, Copy, PartialEq, Eq, Structural, Debug)]
pub struct FrameLayout {
    pub size: u64,
    pub align: u64,
    pub siginfo_offset: u64,
    pub ucontext_offset: u64,
}

impl FrameLayout {
    pub open spec fn valid(self) -> bool {
        self.size > 0 && self.align > 0
    }
}

/// What is written to the stack to enter a handler and later return from it.
#[derive(Clone, Copy, PartialEq, Eq, Debug)]
pub struct SignalFrame {
    pub ucontext: UContext,
    pub siginfo: SignalInfo,
    /// The trap frame as it stood before delivery.
    pub tf: TrapFrame,
}

/// A signal frame and the address it is to be written at.
#[derive(Clone, Copy, PartialEq, Eq, Debug)]
pub struct FrameWrite {
    pub addr: u64,
    pub frame: SignalFrame,
}

/// The stack pointer below which the handler frame is placed: the top of
/// the alternate stack where the action asks for it and the stack is
/// enabled, else the interrupted stack pointer.
pub open spec fn handler_stack_top(stack: SignalStack, action: SignalAction, tf: TrapFrame) -> u64 {
    if !stack.is_disabled() && action.flags.has(SA_ONSTACK) {
        stack.sp.wrapping_add(stack.size)
    } else {
        tf.usp
    }
}

/// The highest address below `top` that leaves room for the frame and is
/// aligned as the frame requires.
pub open spec fn frame_addr_below(top: u64, layout: FrameLayout) -> u64 {
    let x = top.wrapping_sub(layout.size);
    (x - x % layout.align) as u64
}

/// Whether `action` discards `signo` without any OS action.
pub open spec fn ignores(action: SignalAction, signo: int) -> bool {
    match action.disposition {
        SignalDisposition::Default => default_os_action(signo) is None,
        SignalDisposition::Ignore => true,
        SignalDisposition::Handler(_) => false,
    }
}

/// `after` is `before` redirected into `handler` with the frame at `addr`.
pub open spec fn handler_entered(
    before: TrapFrame,
    after: TrapFrame,
    handler: u64,
    addr: u64,
    layout: FrameLayout,
    signo: u32,
    restorer: u64,
) -> bool {
    &&& after.r@ == before.r@.update(0, signo as u64).update(
        1,
        addr.wrapping_add(layout.siginfo_offset),
    ).update(2, addr.wrapping_add(layout.ucontext_offset)).update(30, restorer)
    &&& after.usp == addr
    &&& after.elr == handler
    &&& after.spsr == before.spsr
}

/// The mask in force while the handler of `signo` runs.
pub open spec fn handler_blocked(
    before: SignalSet,
    after: SignalSet,
    action: SignalAction,
    signo: int,
) -> bool {
    forall|n: int| #[trigger]
        after.contains(n) == (before.contains(n) || action.mask.contains(n) || (n == signo
            && !action.flags.has(SA_NODEFER)))
}

/// The action table of `p1` is that of `p0`, but that the action of
/// `signo` is reset to default where `reset` holds.
pub open spec fn actions_after(
    p0: ProcessSignalManager,
    p1: ProcessSignalManager,
    signo: int,
    reset: bool,
) -> bool {
    &&& p1.restorer_spec() == p0.restorer_spec()
    &&& forall|n: int|
        valid_signo(n) ==> #[trigger] p1.action_of(n) == if reset && n == signo {
            SignalAction::default_value()
        } else {
            p0.action_of(n)
        }
}

/// The outcome of handling `sig` under its action in `p0`: the OS action,
/// the frame to write, and the new trap frame, blocked mask and table.
pub open spec fn handled(
    p0: ProcessSignalManager,
    p1: ProcessSignalManager,
    stack: SignalStack,
    b0: SignalSet,
    b1: SignalSet,
    tf0: TrapFrame,
    tf1: TrapFrame,
    restore_blocked: SignalSet,
    sig: SignalInfo,
    layout: FrameLayout,
    act: Option<SignalOSAction>,
    fw: Option<FrameWrite>,
) -> bool {
    let s = sig.signo as int;
    let a = p0.action_of(s);
    match a.disposition {
        SignalDisposition::Handler(h) => {
            let addr = frame_addr_below(handler_stack_top(stack, a, tf0), layout);
            let restorer = match a.restorer {
                Some(f) => f,
                None => p0.restorer_spec(),
            };
            &&& act == Some(SignalOSAction::Handler)
            &&& fw == Some(
                FrameWrite {
                    addr,
                    frame: SignalFrame {
                        ucontext: UContext::capture(tf0, restore_blocked),
                        siginfo: sig,
                        tf: tf0,
                    },
                },
            )
            &&& handler_entered(tf0, tf1, h, addr, layout, sig.signo, restorer)
            &&& handler_blocked(b0, b1, a, s)
            &&& actions_after(p0, p1, s, a.flags.has(SA_RESETHAND))
        },
        _ => {
            &&& act == (if ignores(a, s) {
                None
            } else {
                default_os_action(s)
            })
            &&& fw is None
            &&& tf1 == tf0
            &&& b1 == b0
            &&& p1.actions_view() == p0.actions_view()
            &&& p1.restorer_spec() == p0.restorer_spec()
        },
    }
}

/// The signals not blocked by `blocked`.
pub open spec fn unblocked(blocked: SignalSet) -> SignalSet {
    SignalSet { bits: !blocked.bits }
}

/// Every record of `q` below `upto` that `mask` lets through is one that
/// the actions of `p` discard.
pub open spec fn all_ignored(
    q: PendingSignals,
    mask: SignalSet,
    p: ProcessSignalManager,
    upto: int,
) -> bool {
    forall|n: int| n < upto && #[trigger] q.deliverable(mask, n) ==> ignores(p.action_of(n), n)
}

/// `q1` is `q0` with every number up to `upto` that `mask` lets through
/// taken out.
pub open spec fn drained(q0: PendingSignals, q1: PendingSignals, mask: SignalSet, upto: int) -> bool {
    forall|n: int| #[trigger]
        q1.entry(n) == if n <= upto && mask.contains(n) {
            None
        } else {
            q0.entry(n)
        }
}

/// What `check_signals` does, from thread `t0`, process `p0` and trap frame
/// `tf0` to `t1`, `p1` and `tf1`, returning `r`. Records are taken in
/// ascending order from the thread queue, then from the process queue;
/// those whose action discards them are dropped; the first other one is
/// handled and returned. `None` means every unblocked record was dropped.
pub open spec fn checked(
    t0: ThreadSignalManager,
    t1: ThreadSignalManager,
    p0: ProcessSignalManager,
    p1: ProcessSignalManager,
    tf0: TrapFrame,
    tf1: TrapFrame,
    restore_blocked: Option<SignalSet>,
    layout: FrameLayout,
    r: Option<(SignalInfo, SignalOSAction, Option<FrameWrite>)>,
) -> bool {
    let mask = unblocked(t0.blocked);
    let restore = match restore_blocked {
        Some(m) => m,
        None => t0.blocked,
    };
    match r {
        None => {
            &&& all_ignored(t0.pending, mask, p0, 65)
            &&& drained(t0.pending, t1.pending, mask, 64)
            &&& all_ignored(p0.pending_q(), mask, p0, 65)
            &&& drained(p0.pending_q(), p1.pending_q(), mask, 64)
            &&& tf1 == tf0
            &&& t1.blocked == t0.blocked
            &&& p1.actions_view() == p0.actions_view()
            &&& p1.restorer_spec() == p0.restorer_spec()
        },
        Some((sig, act, fw)) => {
            let s = sig.signo as int;
            &&& !ignores(p0.action_of(s), s)
            &&& handled(
                p0,
                p1,
                t0.signal_stack,
                t0.blocked,
                t1.blocked,
                tf0,
                tf1,
                restore,
                sig,
                layout,
                Some(act),
                fw,
            )
            &&& if all_ignored(t0.pending, mask, p0, 65) {
                &&& drained(t0.pending, t1.pending, mask, 64)
                &&& p0.pending_q().deliverable(mask, s)
                &&& p0.pending_q().entry(s) == Some(sig)
                &&& all_ignored(p0.pending_q(), mask, p0, s)
                &&& drained(p0.pending_q(), p1.pending_q(), mask, s)
            } else {
                &&& t0.pending.deliverable(mask, s)
                &&& t0.pending.entry(s) == Some(sig)
                &&& all_ignored(t0.pending, mask, p0, s)
                &&& drained(t0.pending, t1.pending, mask, s)
                &&& p1.pending_q() == p0.pending_q()
            }
        },
    }
}

/// Per-thread signal state: its own pending queue, the blocked mask and the
/// alternate stack. The process-wide state is passed to each operation.
pub struct ThreadSignalManager {
    pub pending: PendingSignals,
    /// The set of signals currently blocked from delivery.
    pub blocked: SignalSet,
    /// The stack used by signal handlers that ask for it.
    pub signal_stack: SignalStack,
}

impl ThreadSignalManager {
    pub open spec fn wf(&self) -> bool {
        self.pending.wf()
    }

    /// A thread with nothing pending, nothing blocked and no alternate stack.
    pub fn new() -> (r: ThreadSignalManager)
        ensures
            r.wf(),
            forall|n: int| #[trigger] r.pending.entry(n) is None,
            forall|n: int| !#[trigger] r.blocked.contains(n),
            r.signal_stack == (SignalStack { sp: 0, flags: ss_disable_bit(), size: 0 }),
            r.signal_stack.is_disabled(),
    {
        let r = ThreadSignalManager {
            pending: PendingSignals::new(),
            blocked: SignalSet::empty(),
            signal_stack: SignalStack::default(),
        };
        assert(2u32 & 2u32 != 0u32) by (bit_vector);
        r
    }

    /// Takes the lowest-numbered signal in `mask` from the thread's queue,
    /// or, where that has none, from the process queue.
    pub fn dequeue_signal(&mut self, proc: &mut ProcessSignalManager, mask: &SignalSet) -> (r:
        Option<SignalInfo>)
        requires
            old(self).wf(),
            old(proc).wf(),
        ensures
            final(self).wf(),
            final(proc).wf(),
            final(self).blocked == old(self).blocked,
            final(self).signal_stack == old(self).signal_stack,
            final(proc).actions_view() == old(proc).actions_view(),
            final(proc).restorer_spec() == old(proc).restorer_spec(),
            if old(self).pending.has_deliverable(*mask) {
                &&& PendingSignals::dequeued(old(self).pending, final(self).pending, *mask, r)
                &&& final(proc).pending_q() == old(proc).pending_q()
            } else {
                &&& final(self).pending == old(self).pending
                &&& PendingSignals::dequeued(old(proc).pending_q(), final(proc).pending_q(), *mask, r)
            },
    {
        match self.pending.dequeue_signal(mask) {
            Some(sig) => Some(sig),
            None => proc.dequeue_signal(mask),
        }
    }

    /// Carries out the action configured for `sig`: reports a default OS
    /// action, discards it, or redirects `tf` into the handler and returns
    /// the frame to write for it.
    pub fn handle_signal(
        &mut self,
        proc: &mut ProcessSignalManager,
        tf: &mut TrapFrame,
        restore_blocked: SignalSet,
        sig: &SignalInfo,
        layout: &FrameLayout,
    ) -> (r: (Option<SignalOSAction>, Option<FrameWrite>))
        requires
            old(self).wf(),
            old(proc).wf(),
            valid_signo(sig.signo as int),
            layout.valid(),
        ensures
            final(self).wf(),
            final(proc).wf(),
            final(self).pending == old(self).pending,
            final(self).signal_stack == old(self).signal_stack,
            final(proc).pending_q() == old(proc).pending_q(),
            handled(
                *old(proc),
                *final(proc),
                old(self).signal_stack,
                old(self).blocked,
                final(self).blocked,
                *old(tf),
                *final(tf),
                restore_blocked,
                *sig,
                *layout,
                r.0,
                r.1,
            ),
    {
        let signo = sig.signo;
        let action = proc.action(signo);
        match action.disposition {
            SignalDisposition::Default => {
                let os = match default_action(signo) {
                    DefaultSignalAction::Terminate => Some(SignalOSAction::Terminate),
                    DefaultSignalAction::CoreDump => Some(SignalOSAction::CoreDump),
                    DefaultSignalAction::Stop => Some(SignalOSAction::Stop),
                    DefaultSignalAction::Ignore => None,
                    DefaultSignalAction::Continue => Some(SignalOSAction::Continue),
                };
                (os, None)
            },
            SignalDisposition::Ignore => (None, None),
            SignalDisposition::Handler(handler) => {
                let sp = if self.signal_stack.disabled() || !action.flags.contains(SA_ONSTACK) {
                    tf.sp()
                } else {
                    self.signal_stack.sp.wrapping_add(self.signal_stack.size)
                };
                // The room left on the target stack is not checked here.
                let x = sp.wrapping_sub(layout.size);
                proof {
                    let a = layout.align as int;
                    assert(x as int % a <= x as int) by (nonlinear_arith)
                        requires
                            a > 0,
                            x >= 0,
                    ;
                }
                let aligned_sp = x - x % layout.align;
                let frame = SignalFrame {
                    ucontext: UContext::new(tf, restore_blocked),
                    siginfo: *sig,
                    tf: *tf,
                };
                tf.set_ip(handler);
                tf.set_sp(aligned_sp);
                tf.set_arg0(signo as u64);
                tf.set_arg1(aligned_sp.wrapping_add(layout.siginfo_offset));
                tf.set_arg2(aligned_sp.wrapping_add(layout.ucontext_offset));
                let restorer = match action.restorer {
                    Some(f) => f,
                    None => proc.default_restorer(),
                };
                tf.set_ra(restorer);
                let mut add_blocked = action.mask;
                if !action.flags.contains(SA_NODEFER) {
                    add_blocked.add(signo);
                }
                if action.flags.contains(SA_RESETHAND) {
                    proc.set_action(signo, SignalAction::new_default());
                }
                self.blocked = self.blocked.union(add_blocked);
                (Some(SignalOSAction::Handler), Some(FrameWrite { addr: aligned_sp, frame }))
            },
        }
    }

    /// Looks for a signal to deliver before `tf` returns to user mode:
    /// takes unblocked pending signals in ascending order, thread queue
    /// first, drops those whose action discards them, and handles the first
    /// other one. Returns it with the OS action owed and, for a handler, the
    /// frame to write. `restore_blocked` overrides the mask that the frame
    /// saves for the handler's return.
    pub fn check_signals(
        &mut self,
        proc: &mut ProcessSignalManager,
        tf: &mut TrapFrame,
        restore_blocked: Option<SignalSet>,
        layout: &FrameLayout,
    ) -> (r: Option<(SignalInfo, SignalOSAction, Option<FrameWrite>)>)
        requires
            old(self).wf(),
            old(proc).wf(),
            layout.valid(),
        ensures
            final(self).wf(),
            final(proc).wf(),
            final(self).signal_stack == old(self).signal_stack,
            checked(
                *old(self),
                *final(self),
                *old(proc),
                *final(proc),
                *old(tf),
                *final(tf),
                restore_blocked,
                *layout,
                r,
            ),
    {
        let mask = self.blocked.complement();
        let restore = match restore_blocked {
            Some(m) => m,
            None => self.blocked,
        };
        let ghost t0 = *self;
        let ghost p0 = *proc;
        let ghost mut in_proc: bool = false;
        let ghost mut lo: int = 0;
        loop
            invariant
                self.wf(),
                proc.wf(),
                layout.valid(),
                mask == unblocked(t0.blocked),
                restore == match restore_blocked {
                    Some(m) => m,
                    None => t0.blocked,
                },
                t0 == *old(self),
                p0 == *old(proc),
                self.blocked == t0.blocked,
                self.signal_stack == t0.signal_stack,
                *tf == *old(tf),
                proc.actions_view() == p0.actions_view(),
                proc.restorer_spec() == p0.restorer_spec(),
                0 <= lo <= 64,
                !in_proc ==> {
                    &&& all_ignored(t0.pending, mask, p0, lo + 1)
                    &&& drained(t0.pending, self.pending, mask, lo)
                    &&& proc.pending_q() == p0.pending_q()
                },
                in_proc ==> {
                    &&& all_ignored(t0.pending, mask, p0, 65)
                    &&& drained(t0.pending, self.pending, mask, 64)
                    &&& all_ignored(p0.pending_q(), mask, p0, lo + 1)
                    &&& drained(p0.pending_q(), proc.pending_q(), mask, lo)
                },
            decreases
                if in_proc {
                    128 - lo
                } else {
                    192 - lo
                },
        {
            proof {
                if !in_proc && !self.pending.has_deliverable(mask) {
                    assert forall|n: int| n < 65 && #[trigger] t0.pending.deliverable(mask, n)
                        implies ignores(p0.action_of(n), n) by {
                        if n > lo {
                            assert(self.pending.deliverable(mask, n));
                        }
                    }
                    assert forall|n: int| #[trigger] self.pending.entry(n) == if n <= 64
                        && mask.contains(n) {
                        None
                    } else {
                        t0.pending.entry(n)
                    } by {
                        if n > lo && mask.contains(n) {
                            assert(!self.pending.deliverable(mask, n));
                        }
                    }
                    in_proc = true;
                    lo = 0;
                }
            }
            let ghost from_thread = self.pending.has_deliverable(mask);
            let ghost q_before = self.pending;
            let ghost pq_before = proc.pending_q();
            let sig = match self.dequeue_signal(proc, &mask) {
                Some(sig) => sig,
                None => {
                    proof {
                        assert forall|n: int| n < 65 && #[trigger] p0.pending_q().deliverable(mask, n)
                            implies ignores(p0.action_of(n), n) by {
                            if n > lo {
                                assert(pq_before.deliverable(mask, n));
                            }
                        }
                        assert forall|n: int| #[trigger] proc.pending_q().entry(n) == if n <= 64
                            && mask.contains(n) {
                            None
                        } else {
                            p0.pending_q().entry(n)
                        } by {
                            if n > lo && mask.contains(n) {
                                assert(!pq_before.deliverable(mask, n));
                            }
                        }
                    }
                    return None;
                },
            };
            let ghost s = sig.signo as int;
            proof {
                if from_thread {
                    assert(!in_proc);
                    assert(s > lo) by {
                        assert(q_before.deliverable(mask, s));
                    }
                    assert forall|n: int| n < s && #[trigger] t0.pending.deliverable(mask, n)
                        implies ignores(p0.action_of(n), n) by {
                        if n > lo {
                            assert(!q_before.deliverable(mask, n));
                        }
                    }
                } else {
                    assert(s > lo) by {
                        assert(pq_before.deliverable(mask, s));
                    }
                    assert forall|n: int| n < s && #[trigger] p0.pending_q().deliverable(mask, n)
                        implies ignores(p0.action_of(n), n) by {
                        if n > lo {
                            assert(!pq_before.deliverable(mask, n));
                        }
                    }
                }
            }
            let (os_action, frame) = self.handle_signal(proc, tf, restore, &sig, layout);
            proof {
                if from_thread {
                    assert(t0.pending.deliverable(mask, s)) by {
                        assert(q_before.deliverable(mask, s));
                    }
                    assert forall|n: int| #[trigger] self.pending.entry(n) == if n <= s
                        && mask.contains(n) {
                        None
                    } else {
                        t0.pending.entry(n)
                    } by {
                        if lo < n < s && mask.contains(n) {
                            assert(!q_before.deliverable(mask, n));
                        }
                    }
                } else {
                    assert(p0.pending_q().deliverable(mask, s)) by {
                        assert(pq_before.deliverable(mask, s));
                    }
                    assert forall|n: int| #[trigger] proc.pending_q().entry(n) == if n <= s
                        && mask.contains(n) {
                        None
                    } else {
                        p0.pending_q().entry(n)
                    } by {
                        if lo < n < s && mask.contains(n) {
                            assert(!pq_before.deliverable(mask, n));
                        }
                    }
                }
            }
            match os_action {
                Some(act) => {
                    proof {
                        assert(!ignores(p0.action_of(s), s));
                        if from_thread {
                            assert(!all_ignored(t0.pending, mask, p0, 65));
                        }
                    }
                    return Some((sig, act, frame));
                },
                None => {},
            }
            proof {
                assert(ignores(p0.action_of(s), s));
                lo = s;
            }
        }
    }

    /// Returns from a handler through `frame`, the frame found at the
    /// handler's stack pointer: `tf` becomes the frame's saved trap frame with
    /// the saved context (which the handler may have changed) written over
    /// it, and the blocked mask becomes the mask saved in that context.
    pub fn restore(&mut self, tf: &mut TrapFrame, frame: &SignalFrame)
        ensures
            *final(tf) == frame.ucontext.mcontext.restored(frame.tf),
            final(self).blocked == frame.ucontext.sigmask,
            final(self).pending == old(self).pending,
            final(self).signal_stack == old(self).signal_stack,
    {
        *tf = frame.tf;
        frame.ucontext.mcontext.restore(tf);
        self.blocked = frame.ucontext.sigmask;
    }

    /// Queues a signal directed at this thread; returns whether it was
    /// queued (a number already pending keeps its first record). Waking the
    /// process's waiters is left to the caller.
    pub fn send_signal(&mut self, sig: SignalInfo) -> (r: bool)
        requires
            old(self).wf(),
            valid_signo(sig.signo as int),
        ensures
            final(self).wf(),
            final(self).blocked == old(self).blocked,
            final(self).signal_stack == old(self).signal_stack,
            final(self).pending.entries() == PendingSignals::put_spec(
                old(self).pending.entries(),
                sig,
            ),
            r == (old(self).pending.entry(sig.signo as int) is None),
            final(self).pending.entry(sig.signo as int) == if r {
                Some(sig)
            } else {
                old(self).pending.entry(sig.signo as int)
            },
            forall|n: int|
                n != sig.signo as int ==> #[trigger] final(self).pending.entry(n) == old(
                    self,
                ).pending.entry(n),
    {
        self.pending.put_signal(sig)
    }

    /// The signals pending for this thread: its own and the process's.
    pub fn pending(&self, proc: &ProcessSignalManager) -> (r: SignalSet)
        requires
            self.wf(),
            proc.wf(),
        ensures
            forall|n: int| #[trigger]
                r.contains(n) == (self.pending.entry(n) is Some || proc.pending_q().entry(n) is Some),
    {
        self.pending.pending_set().union(proc.pending())
    }

    /// Applies `f` to the blocked mask and returns what it returns.
    pub fn with_blocked_mut<R, F: FnOnce(SignalSet) -> (SignalSet, R)>(&mut self, f: F) -> (r: R)
        requires
            f.requires((old(self).blocked,)),
        ensures
            f.ensures((old(self).blocked,), (final(self).blocked, r)),
            final(self).pending == old(self).pending,
            final(self).signal_stack == old(self).signal_stack,
    {
        let (b, r) = f(self.blocked);
        self.blocked = b;
        r
    }

    /// The blocked mask.
    pub fn blocked(&self) -> (r: SignalSet)
        ensures
            r == self.blocked,
    {
        self.blocked
    }

    /// Replaces the blocked mask.
    pub fn set_blocked(&mut self, set: SignalSet)
        ensures
            final(self).blocked == set,
            final(self).pending == old(self).pending,
            final(self).signal_stack == old(self).signal_stack,
    {
        self.blocked = set;
    }
}

/// A signal that `check_signals` returns is never one that was blocked.
pub proof fn lemma_never_blocked(
    t0: ThreadSignalManager,
    t1: ThreadSignalManager,
    p0: ProcessSignalManager,
    p1: ProcessSignalManager,
    tf0: TrapFrame,
    tf1: TrapFrame,
    restore_blocked: Option<SignalSet>,
    layout: FrameLayout,
    sig: SignalInfo,
    act: SignalOSAction,
    fw: Option<FrameWrite>,
)
    requires
        checked(t0, t1, p0, p1, tf0, tf1, restore_blocked, layout, Some((sig, act, fw))),
    ensures
        !t0.blocked.contains(sig.signo as int),
        valid_signo(sig.signo as int),
{
    lemma_complement(t0.blocked);
}

/// After a handler is entered for an action flagged reset-on-delivery, the
/// table holds the default action for that number.
pub proof fn lemma_reset_after_delivery(
    t0: ThreadSignalManager,
    t1: ThreadSignalManager,
    p0: ProcessSignalManager,
    p1: ProcessSignalManager,
    tf0: TrapFrame,
    tf1: TrapFrame,
    restore_blocked: Option<SignalSet>,
    layout: FrameLayout,
    sig: SignalInfo,
    act: SignalOSAction,
    fw: Option<FrameWrite>,
)
    requires
        checked(t0, t1, p0, p1, tf0, tf1, restore_blocked, layout, Some((sig, act, fw))),
        p0.action_of(sig.signo as int).disposition is Handler,
        p0.action_of(sig.signo as int).flags.has(SA_RESETHAND),
    ensures
        p1.action_of(sig.signo as int).is_default(),
{
    lemma_complement(t0.blocked);
}

/// Once a handler has been entered for an action flagged reset-on-delivery,
/// a later `check_signals` that returns the same number (with no new action
/// set for it in between) treats it by its default disposition: the default
/// OS action, no frame, and the trap frame left as it was.
pub proof fn lemma_second_delivery_by_default(
    t0: ThreadSignalManager,
    t1: ThreadSignalManager,
    p0: ProcessSignalManager,
    p1: ProcessSignalManager,
    tf0: TrapFrame,
    tf1: TrapFrame,
    restore_blocked: Option<SignalSet>,
    layout: FrameLayout,
    sig: SignalInfo,
    act: SignalOSAction,
    fw: Option<FrameWrite>,
    t2: ThreadSignalManager,
    t3: ThreadSignalManager,
    p2: ProcessSignalManager,
    p3: ProcessSignalManager,
    tf2: TrapFrame,
    tf3: TrapFrame,
    restore_blocked2: Option<SignalSet>,
    layout2: FrameLayout,
    sig2: SignalInfo,
    act2: SignalOSAction,
    fw2: Option<FrameWrite>,
)
    requires
        checked(t0, t1, p0, p1, tf0, tf1, restore_blocked, layout, Some((sig, act, fw))),
        p0.action_of(sig.signo as int).disposition is Handler,
        p0.action_of(sig.signo as int).flags.has(SA_RESETHAND),
        p2.action_of(sig.signo as int) == p1.action_of(sig.signo as int),
        checked(t2, t3, p2, p3, tf2, tf3, restore_blocked2, layout2, Some((sig2, act2, fw2))),
        sig2.signo == sig.signo,
    ensures
        Some(act2) == default_os_action(sig.signo as int),
        fw2 is None,
        tf3 == tf2,
{
    lemma_complement(t0.blocked);
    lemma_complement(t2.blocked);
}

/// While its handler runs, a signal is blocked unless its action is
/// flagged no-defer (and the action's own mask does not name it).
pub proof fn lemma_self_blocked_unless_nodefer(
    t0: ThreadSignalManager,
    t1: ThreadSignalManager,
    p0: ProcessSignalManager,
    p1: ProcessSignalManager,
    tf0: TrapFrame,
    tf1: TrapFrame,
    restore_blocked: Option<SignalSet>,
    layout: FrameLayout,
    sig: SignalInfo,
    act: SignalOSAction,
    fw: Option<FrameWrite>,
)
    requires
        checked(t0, t1, p0, p1, tf0, tf1, restore_blocked, layout, Some((sig, act, fw))),
        p0.action_of(sig.signo as int).disposition is Handler,
        !p0.action_of(sig.signo as int).mask.contains(sig.signo as int),
    ensures
        t1.blocked.contains(sig.signo as int) == !p0.action_of(
            sig.signo as int,
        ).flags.has(SA_NODEFER),
{
    lemma_complement(t0.blocked);
}

/// With an enabled alternate stack large enough for a frame and an action
/// flagged for it, the handler frame lies inside the alternate stack.
pub proof fn lemma_frame_on_alt_stack(
    t0: ThreadSignalManager,
    t1: ThreadSignalManager,
    p0: ProcessSignalManager,
    p1: ProcessSignalManager,
    tf0: TrapFrame,
    tf1: TrapFrame,
    restore_blocked: Option<SignalSet>,
    layout: FrameLayout,
    sig: SignalInfo,
    act: SignalOSAction,
    fw: Option<FrameWrite>,
)
    requires
        checked(t0, t1, p0, p1, tf0, tf1, restore_blocked, layout, Some((sig, act, fw))),
        layout.valid(),
        p0.action_of(sig.signo as int).disposition is Handler,
        p0.action_of(sig.signo as int).flags.has(SA_ONSTACK),
        !t0.signal_stack.is_disabled(),
        t0.signal_stack.sp + t0.signal_stack.size <= u64::MAX,
        t0.signal_stack.size >= layout.size + layout.align,
    ensures
        fw is Some,
        t0.signal_stack.sp <= fw->0.addr,
        fw->0.addr + layout.size <= t0.signal_stack.sp + t0.signal_stack.size,
        tf1.usp == fw->0.addr,
{
    let top = (t0.signal_stack.sp + t0.signal_stack.size) as u64;
    let x = (top - layout.size) as u64;
    let a = layout.align as int;
    assert(x as int % a < a && x as int % a >= 0) by (nonlinear_arith)
        requires
            a > 0,
    ;
    assert(frame_addr_below(top, layout) == x - x % layout.align);
}

} // verus!
