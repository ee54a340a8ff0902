use vstd::prelude::*;
use crate::set::SignalSet;

verus! {

/// The user register state saved at a trap on AArch64: general registers
/// `x0..=x30`, the user stack pointer, the exception return address and the
/// saved processor state.
#[derive(Clone, Copy, PartialEq, Eq, Debug)]
pub struct TrapFrame {
    pub r: [u64; 31],
    pub usp: u64,
    pub elr: u64,
    pub spsr: u64,
}

impl TrapFrame {
    /// The user stack pointer.
    pub fn sp(&self) -> (r: u64)
        ensures
            r == self.usp,
    {
        self.usp
    }

    /// The address user execution resumes at.
    pub fn ip(&self) -> (r: u64)
        ensures
            r == self.elr,
    {
        self.elr
    }

    pub fn set_sp(&mut self, sp: u64)
        ensures
            *final(self) == (TrapFrame { usp: sp, ..*old(self) }),
    {
        self.usp = sp;
    }

    pub fn set_ip(&mut self, ip: u64)
        ensures
            *final(self) == (TrapFrame { elr: ip, ..*old(self) }),
    {
        self.elr = ip;
    }

    /// Sets general register `x<i>`.
    pub fn set_reg(&mut self, i: usize, v: u64)
        requires
            i < 31,
        ensures
            final(self).r@ == old(self).r@.update(i as int, v),
            final(self).usp == old(self).usp,
            final(self).elr == old(self).elr,
            final(self).spsr == old(self).spsr,
    {
        self.r[i] = v;
    }

    /// Sets the first argument register.
    pub fn set_arg0(&mut self, v: u64)
        ensures
            final(self).r@ == old(self).r@.update(0, v),
            final(self).usp == old(self).usp,
            final(self).elr == old(self).elr,
            final(self).spsr == old(self).spsr,
    {
        self.set_reg(0, v);
    }

    /// Sets the second argument register.
    pub fn set_arg1(&mut self, v: u64)
        ensures
            final(self).r@ == old(self).r@.update(1, v),
            final(self).usp == old(self).usp,
            final(self).elr == old(self).elr,
            final(self).spsr == old(self).spsr,
    {
        self.set_reg(1, v);
    }

    /// Sets the third argument register.
    pub fn set_arg2(&mut self, v: u64)
        ensures
            final(self).r@ == old(self).r@.update(2, v),
            final(self).usp == old(self).usp,
            final(self).elr == old(self).elr,
            final(self).spsr == old(self).spsr,
    {
        self.set_reg(2, v);
    }

    /// Sets the link register `x30`, which a handler returns through.
    pub fn set_ra(&mut self, v: u64)
        ensures
            final(self).r@ == old(self).r@.update(30, v),
            final(self).usp == old(self).usp,
            final(self).elr == old(self).elr,
            final(self).spsr == old(self).spsr,
    {
        self.set_reg(30, v);
    }
}

/// Bit of `SignalStack::flags` that marks the alternate stack as unused.
pub open spec fn ss_disable_bit() -> u32 {
    2
}

/// Relies on linux_raw_sys::general::SS_DISABLE, the flag value of a
/// disabled alternate stack.
#[verifier::external_body]
fn ss_disable() -> (r: u32)
    ensures
        r == ss_disable_bit(),
{
    linux_raw_sys::general::SS_DISABLE
}

/// An alternate signal stack: its lowest address, its flags and its size.
#[derive(Clone, Copy, PartialEq, Eq, Structural, Debug)]
pub struct SignalStack {
    pub sp: u64,
    pub flags: u32,
    pub size: u64,
}

impl SignalStack {
    /// Whether the stack is marked disabled.
    pub open spec fn is_disabled(self) -> bool {
        self.flags & ss_disable_bit() != 0
    }

    /// Whether the stack is marked disabled.
    pub fn disabled(&self) -> (r: bool)
        ensures
            r == self.is_disabled(),
    {
        self.flags & ss_disable() != 0
    }
}

impl Default for SignalStack {
    /// No alternate stack: null, empty and disabled.
    fn default() -> (r: SignalStack)
        ensures
            r.sp == 0,
            r.flags == ss_disable_bit(),
            r.size == 0,
    {
        SignalStack { sp: 0, flags: ss_disable(), size: 0 }
    }
}

/// The machine part of a saved user context.
#[derive(Clone, Copy, PartialEq, Eq, Debug)]
pub struct MContext {
    pub fault_address: u64,
    pub regs: [u64; 31],
    pub sp: u64,
    pub pc: u64,
    pub pstate: u64,
}

impl MContext {
    /// The context captured from `tf`.
    pub open spec fn capture(tf: TrapFrame) -> MContext {
        MContext { fault_address: 0, regs: tf.r, sp: tf.usp, pc: tf.elr, pstate: tf.spsr }
    }

    /// `tf` with this context's registers written back.
    pub open spec fn restored(self, tf: TrapFrame) -> TrapFrame {
        TrapFrame { r: self.regs, usp: self.sp, elr: self.pc, spsr: self.pstate, ..tf }
    }

    /// Captures the registers of `tf`; the fault address is zero.
    pub fn new(tf: &TrapFrame) -> (r: MContext)
        ensures
            r == MContext::capture(*tf),
    {
        MContext { fault_address: 0, regs: tf.r, sp: tf.usp, pc: tf.elr, pstate: tf.spsr }
    }

    /// Writes the saved registers back into `tf`.
    pub fn restore(&self, tf: &mut TrapFrame)
        ensures
            *final(tf) == self.restored(*old(tf)),
    {
        tf.r = self.regs;
        tf.usp = self.sp;
        tf.elr = self.pc;
        tf.spsr = self.pstate;
    }
}

/// A saved user context: what a handler receives as its third argument.
#[derive(Clone, Copy, PartialEq, Eq, Debug)]
pub struct UContext {
    pub flags: u64,
    pub link: u64,
    pub stack: SignalStack,
    /// The mask reinstated when the handler returns.
    pub sigmask: SignalSet,
    pub mcontext: MContext,
}

impl UContext {
    /// The context saved for `tf`, to reinstate `sigmask` on return.
    pub open spec fn capture(tf: TrapFrame, sigmask: SignalSet) -> UContext {
        UContext {
            flags: 0,
            link: 0,
            stack: SignalStack { sp: 0, flags: ss_disable_bit(), size: 0 },
            sigmask,
            mcontext: MContext::capture(tf),
        }
    }

    /// Captures `tf` together with the mask to reinstate.
    pub fn new(tf: &TrapFrame, sigmask: SignalSet) -> (r: UContext)
        ensures
            r == UContext::capture(*tf, sigmask),
    {
        UContext {
            flags: 0,
            link: 0,
            stack: SignalStack::default(),
            sigmask,
            mcontext: MContext::new(tf),
        }
    }
}

/// Capturing a trap frame and restoring the capture into any frame yields
/// the captured frame again; the fault address of a capture is always zero.
pub proof fn lemma_capture_restore(tf: TrapFrame, other: TrapFrame)
    ensures
        MContext::capture(tf).restored(other) == tf,
        MContext::capture(tf).fault_address == 0,
{
}

} // verus!
