//! POSIX-style signal bookkeeping and delivery for threads and processes:
//! pending queues, masks, per-signal dispositions, and the construction and
//! unwinding of the frame that carries user execution into a handler.

pub mod set;
pub mod signo;
pub mod pending;
pub mod action;
pub mod ucontext;
pub mod thread;

pub use set::SignalSet;
pub use signo::{default_action, DefaultSignalAction, SignalInfo, SignalOSAction};
pub use pending::{lemma_send_twice_coalesces, PendingSignals};
pub use action::{
    ProcessSignalManager, SignalAction, SignalActionFlags, SignalDisposition, SA_NODEFER,
    SA_ONSTACK, SA_RESETHAND, SA_RESTORER,
};
pub use ucontext::{lemma_capture_restore, MContext, SignalStack, TrapFrame, UContext};
pub use thread::{
    lemma_frame_on_alt_stack, lemma_never_blocked, lemma_reset_after_delivery, lemma_second_delivery_by_default,
    lemma_self_blocked_unless_nodefer, FrameLayout, FrameWrite, SignalFrame, ThreadSignalManager,
};
