use axsignal::{
    default_action, DefaultSignalAction, FrameLayout, MContext, PendingSignals,
    ProcessSignalManager, SignalAction, SignalActionFlags, SignalDisposition, SignalInfo,
    SignalOSAction, SignalSet, SignalStack, ThreadSignalManager, TrapFrame, UContext, SA_NODEFER,
    SA_ONSTACK, SA_RESETHAND,
};

const RESTORER: u64 = 0x7000;

fn layout() -> FrameLayout {
    FrameLayout { size: 600, align: 16, siginfo_offset: 448, ucontext_offset: 0 }
}

fn trap_frame() -> TrapFrame {
    let mut r = [0u64; 31];
    for (i, x) in r.iter_mut().enumerate() {
        *x = 100 + i as u64;
    }
    TrapFrame { r, usp: 0x8000_0008, elr: 0x4000_1234, spsr: 0x3c5 }
}

fn handler_action(handler: u64, flags: u64) -> SignalAction {
    SignalAction {
        disposition: SignalDisposition::Handler(handler),
        flags: SignalActionFlags { bits: flags },
        mask: SignalSet::empty(),
        restorer: None,
    }
}

fn setup() -> (ThreadSignalManager, ProcessSignalManager) {
    (ThreadSignalManager::new(), ProcessSignalManager::new(RESTORER))
}

#[test]
fn default_terminate_leaves_trap_frame() {
    let (mut t, mut p) = setup();
    let info = SignalInfo::new(15, 0);
    assert!(t.send_signal(info));
    let mut tf = trap_frame();
    let r = t.check_signals(&mut p, &mut tf, None, &layout());
    assert_eq!(r, Some((info, SignalOSAction::Terminate, None)));
    assert_eq!(tf, trap_frame());
    assert!(!t.pending(&p).has(15));
}

#[test]
fn ignored_signal_skipped_before_handler() {
    let (mut t, mut p) = setup();
    p.set_action(17, SignalAction {
        disposition: SignalDisposition::Ignore,
        flags: SignalActionFlags { bits: 0 },
        mask: SignalSet::empty(),
        restorer: None,
    });
    p.set_action(2, handler_action(0x5000, 0));
    t.send_signal(SignalInfo::new(17, 0));
    p.send_signal(SignalInfo::new(2, 0));
    let mut tf = trap_frame();
    let r = t.check_signals(&mut p, &mut tf, None, &layout()).unwrap();
    assert_eq!(r.0.signo, 2);
    assert_eq!(r.1, SignalOSAction::Handler);
    assert!(r.2.is_some());
    assert_eq!(tf.elr, 0x5000);
    assert!(!t.pending(&p).has(17));
    assert!(!t.pending(&p).has(2));
}

#[test]
fn both_in_thread_queue_lower_number_first() {
    let (mut t, mut p) = setup();
    p.set_action(17, SignalAction {
        disposition: SignalDisposition::Ignore,
        flags: SignalActionFlags { bits: 0 },
        mask: SignalSet::empty(),
        restorer: None,
    });
    p.set_action(2, handler_action(0x5000, 0));
    t.send_signal(SignalInfo::new(17, 0));
    t.send_signal(SignalInfo::new(2, 0));
    let mut tf = trap_frame();
    let r = t.check_signals(&mut p, &mut tf, None, &layout()).unwrap();
    assert_eq!(r.0.signo, 2);
    assert!(t.pending(&p).has(17));
}

#[test]
fn blocked_signal_not_delivered() {
    let (mut t, mut p) = setup();
    let mut b = SignalSet::empty();
    b.add(10);
    t.set_blocked(b);
    t.send_signal(SignalInfo::new(10, 0));
    p.send_signal(SignalInfo::new(12, 0));
    let mut b2 = t.blocked();
    b2.add(12);
    t.set_blocked(b2);
    let mut tf = trap_frame();
    assert_eq!(t.check_signals(&mut p, &mut tf, None, &layout()), None);
    assert!(t.pending(&p).has(10));
    assert!(t.pending(&p).has(12));
    assert_eq!(tf, trap_frame());
}

#[test]
fn nothing_pending_gives_none() {
    let (mut t, mut p) = setup();
    let mut tf = trap_frame();
    assert_eq!(t.check_signals(&mut p, &mut tf, None, &layout()), None);
    assert_eq!(tf, trap_frame());
}

#[test]
fn default_ignore_category_is_dropped() {
    let (mut t, mut p) = setup();
    t.send_signal(SignalInfo::new(17, 0));
    t.send_signal(SignalInfo::new(28, 0));
    let mut tf = trap_frame();
    assert_eq!(t.check_signals(&mut p, &mut tf, None, &layout()), None);
    assert!(!t.pending(&p).has(17));
    assert!(!t.pending(&p).has(28));
}

#[test]
fn default_categories_reported() {
    let (mut t, mut p) = setup();
    let mut tf = trap_frame();
    t.send_signal(SignalInfo::new(11, 0));
    let r = t.check_signals(&mut p, &mut tf, None, &layout()).unwrap();
    assert_eq!(r.1, SignalOSAction::CoreDump);
    t.send_signal(SignalInfo::new(19, 0));
    let r = t.check_signals(&mut p, &mut tf, None, &layout()).unwrap();
    assert_eq!(r.1, SignalOSAction::Stop);
    p.send_signal(SignalInfo::new(18, 0));
    let r = t.check_signals(&mut p, &mut tf, None, &layout()).unwrap();
    assert_eq!(r.1, SignalOSAction::Continue);
    assert_eq!(tf, trap_frame());
}

#[test]
fn default_action_table() {
    assert_eq!(default_action(9), DefaultSignalAction::Terminate);
    assert_eq!(default_action(15), DefaultSignalAction::Terminate);
    assert_eq!(default_action(3), DefaultSignalAction::CoreDump);
    assert_eq!(default_action(31), DefaultSignalAction::CoreDump);
    assert_eq!(default_action(17), DefaultSignalAction::Ignore);
    assert_eq!(default_action(18), DefaultSignalAction::Continue);
    assert_eq!(default_action(20), DefaultSignalAction::Stop);
    assert_eq!(default_action(40), DefaultSignalAction::Terminate);
}

#[test]
fn send_twice_coalesces() {
    let (mut t, mut p) = setup();
    let first = SignalInfo { signo: 10, errno: 0, code: 1, pid: 7, uid: 0, value: 0 };
    let second = SignalInfo { signo: 10, errno: 0, code: 2, pid: 8, uid: 0, value: 0 };
    assert!(t.send_signal(first));
    assert!(!t.send_signal(second));
    let set = t.pending(&p);
    assert!(set.has(10));
    assert_eq!(set.bits, 1u64 << 9);
    let mut tf = trap_frame();
    let r = t.check_signals(&mut p, &mut tf, None, &layout());
    assert_eq!(r, Some((first, SignalOSAction::Terminate, None)));
    assert_eq!(t.check_signals(&mut p, &mut tf, None, &layout()), None);
}

#[test]
fn reset_after_delivery() {
    let (mut t, mut p) = setup();
    p.set_action(10, handler_action(0x5000, SA_RESETHAND));
    t.send_signal(SignalInfo::new(10, 0));
    let mut tf = trap_frame();
    let r = t.check_signals(&mut p, &mut tf, None, &layout()).unwrap();
    assert_eq!(r.1, SignalOSAction::Handler);
    let a = p.action(10);
    assert_eq!(a.disposition, SignalDisposition::Default);
    assert_eq!(a.flags.bits, 0);
    assert_eq!(a.restorer, None);
    t.set_blocked(SignalSet::empty());
    t.send_signal(SignalInfo::new(10, 0));
    let mut tf2 = trap_frame();
    let r = t.check_signals(&mut p, &mut tf2, None, &layout()).unwrap();
    assert_eq!(r.1, SignalOSAction::Terminate);
}

#[test]
fn handler_blocks_itself() {
    let (mut t, mut p) = setup();
    p.set_action(10, handler_action(0x5000, 0));
    t.send_signal(SignalInfo::new(10, 0));
    let mut tf = trap_frame();
    t.check_signals(&mut p, &mut tf, None, &layout()).unwrap();
    assert!(t.blocked().has(10));
}

#[test]
fn nodefer_handler_leaves_itself_unblocked() {
    let (mut t, mut p) = setup();
    let mut a = handler_action(0x5000, SA_NODEFER);
    a.mask.add(12);
    p.set_action(10, a);
    t.send_signal(SignalInfo::new(10, 0));
    let mut tf = trap_frame();
    t.check_signals(&mut p, &mut tf, None, &layout()).unwrap();
    assert!(!t.blocked().has(10));
    assert!(t.blocked().has(12));
}

#[test]
fn handler_entry_registers_and_frame() {
    let (mut t, mut p) = setup();
    let mut b = SignalSet::empty();
    b.add(5);
    t.set_blocked(b);
    p.set_action(10, handler_action(0x5000, 0));
    let info = SignalInfo::new(10, 3);
    t.send_signal(info);
    let mut tf = trap_frame();
    let r = t.check_signals(&mut p, &mut tf, None, &layout()).unwrap();
    let fw = r.2.unwrap();
    // 0x8000_0008 - 600 = 0x7fff_fdb0, already a multiple of 16.
    assert_eq!(fw.addr, 0x7fff_fdb0);
    assert_eq!(fw.addr % 16, 0);
    assert_eq!(tf.usp, fw.addr);
    assert_eq!(tf.elr, 0x5000);
    assert_eq!(tf.r[0], 10);
    assert_eq!(tf.r[1], fw.addr + 448);
    assert_eq!(tf.r[2], fw.addr);
    assert_eq!(tf.r[30], RESTORER);
    assert_eq!(tf.r[3], 103);
    assert_eq!(tf.spsr, 0x3c5);
    assert_eq!(fw.frame.siginfo, info);
    assert_eq!(fw.frame.tf, trap_frame());
    assert_eq!(fw.frame.ucontext.sigmask, b);
    assert_eq!(fw.frame.ucontext.mcontext.pc, 0x4000_1234);
    assert_eq!(fw.frame.ucontext.mcontext.sp, 0x8000_0008);
    assert_eq!(fw.frame.ucontext.mcontext.fault_address, 0);
}

#[test]
fn frame_address_rounded_down() {
    let (mut t, mut p) = setup();
    p.set_action(10, handler_action(0x5000, 0));
    t.send_signal(SignalInfo::new(10, 0));
    let mut tf = trap_frame();
    tf.usp = 0x8000_0000;
    let r = t.check_signals(&mut p, &mut tf, None, &layout()).unwrap();
    // 0x8000_0000 - 600 = 0x7fff_fda8, rounded down to 0x7fff_fda0.
    assert_eq!(r.2.unwrap().addr, 0x7fff_fda0);
}

#[test]
fn custom_restorer_and_mask_override() {
    let (mut t, mut p) = setup();
    let mut a = handler_action(0x5000, 0);
    a.restorer = Some(0x9999);
    p.set_action(10, a);
    t.send_signal(SignalInfo::new(10, 0));
    let mut over = SignalSet::empty();
    over.add(1);
    let mut tf = trap_frame();
    let r = t.check_signals(&mut p, &mut tf, Some(over), &layout()).unwrap();
    assert_eq!(tf.r[30], 0x9999);
    assert_eq!(r.2.unwrap().frame.ucontext.sigmask, over);
}

#[test]
fn alternate_stack_delivery() {
    let (mut t, mut p) = setup();
    t.signal_stack = SignalStack { sp: 0x10000, flags: 0, size: 0x4000 };
    p.set_action(10, handler_action(0x5000, SA_ONSTACK));
    t.send_signal(SignalInfo::new(10, 0));
    let mut tf = trap_frame();
    let r = t.check_signals(&mut p, &mut tf, None, &layout()).unwrap();
    let addr = r.2.unwrap().addr;
    assert!(addr >= 0x10000);
    assert!(addr + 600 <= 0x14000);
    assert_eq!(addr, 0x13da0);
    assert_eq!(tf.usp, addr);
}

#[test]
fn disabled_alternate_stack_unused() {
    let (mut t, mut p) = setup();
    t.signal_stack = SignalStack { sp: 0x10000, flags: 2, size: 0x4000 };
    p.set_action(10, handler_action(0x5000, SA_ONSTACK));
    t.send_signal(SignalInfo::new(10, 0));
    let mut tf = trap_frame();
    let r = t.check_signals(&mut p, &mut tf, None, &layout()).unwrap();
    assert_eq!(r.2.unwrap().addr, 0x7fff_fdb0);
}

#[test]
fn restore_round_trip() {
    let (mut t, mut p) = setup();
    let mut b = SignalSet::empty();
    b.add(5);
    t.set_blocked(b);
    p.set_action(10, handler_action(0x5000, 0));
    t.send_signal(SignalInfo::new(10, 0));
    let mut tf = trap_frame();
    let r = t.check_signals(&mut p, &mut tf, None, &layout()).unwrap();
    assert!(t.blocked().has(10));
    let frame = r.2.unwrap().frame;
    t.restore(&mut tf, &frame);
    assert_eq!(tf, trap_frame());
    assert_eq!(t.blocked(), b);
}

#[test]
fn restore_honours_edited_context() {
    let (mut t, mut p) = setup();
    p.set_action(10, handler_action(0x5000, 0));
    t.send_signal(SignalInfo::new(10, 0));
    let mut tf = trap_frame();
    let r = t.check_signals(&mut p, &mut tf, None, &layout()).unwrap();
    let mut frame = r.2.unwrap().frame;
    frame.ucontext.mcontext.pc = 0x6000;
    frame.ucontext.mcontext.regs[4] = 42;
    let mut m = SignalSet::empty();
    m.add(20);
    frame.ucontext.sigmask = m;
    t.restore(&mut tf, &frame);
    assert_eq!(tf.elr, 0x6000);
    assert_eq!(tf.r[4], 42);
    assert_eq!(tf.usp, 0x8000_0008);
    assert_eq!(t.blocked(), m);
}

#[test]
fn mcontext_capture_restore() {
    let tf = trap_frame();
    let m = MContext::new(&tf);
    assert_eq!(m.fault_address, 0);
    let mut other = TrapFrame { r: [0; 31], usp: 1, elr: 2, spsr: 3 };
    m.restore(&mut other);
    assert_eq!(other, tf);
}

#[test]
fn ucontext_new_fields() {
    let tf = trap_frame();
    let mut s = SignalSet::empty();
    s.add(64);
    let u = UContext::new(&tf, s);
    assert_eq!(u.flags, 0);
    assert_eq!(u.link, 0);
    assert_eq!(u.sigmask, s);
    assert_eq!(u.stack.flags, 2);
    assert_eq!(u.mcontext.regs, tf.r);
}

#[test]
fn signal_stack_default_is_disabled() {
    let s = SignalStack::default();
    assert_eq!(s.sp, 0);
    assert_eq!(s.size, 0);
    assert_eq!(s.flags, 2);
    assert!(s.disabled());
    assert!(!SignalStack { sp: 0, flags: 0, size: 0 }.disabled());
}

#[test]
fn signal_set_operations() {
    let mut s = SignalSet::empty();
    assert!(s.add(1));
    assert!(!s.add(1));
    assert!(s.add(64));
    assert_eq!(s.bits, 1 | (1u64 << 63));
    assert!(s.has(1) && s.has(64) && !s.has(2));
    assert!(!s.has(0) && !s.has(65));
    assert!(s.remove(1));
    assert!(!s.remove(1));
    let mut o = SignalSet::empty();
    o.add(3);
    let u = s.union(o);
    assert!(u.has(3) && u.has(64) && !u.has(1));
    let c = u.complement();
    assert!(!c.has(3) && c.has(1) && !c.has(0));
}

#[test]
fn pending_queue_ascending_and_masked() {
    let mut q = PendingSignals::new();
    assert!(q.put_signal(SignalInfo::new(30, 0)));
    assert!(q.put_signal(SignalInfo::new(4, 0)));
    assert!(q.put_signal(SignalInfo::new(50, 0)));
    let mut mask = SignalSet::empty();
    mask.add(30);
    mask.add(50);
    assert_eq!(q.dequeue_signal(&mask).unwrap().signo, 30);
    assert_eq!(q.dequeue_signal(&mask).unwrap().signo, 50);
    assert_eq!(q.dequeue_signal(&mask), None);
    assert!(q.pending_set().has(4));
    let all = SignalSet::empty().complement();
    assert_eq!(q.dequeue_signal(&all).unwrap().signo, 4);
    assert_eq!(q.dequeue_signal(&all), None);
}

#[test]
fn process_queue_used_after_thread_queue() {
    let (mut t, mut p) = setup();
    p.send_signal(SignalInfo::new(3, 0));
    t.send_signal(SignalInfo::new(9, 0));
    let mut tf = trap_frame();
    let r = t.check_signals(&mut p, &mut tf, None, &layout()).unwrap();
    assert_eq!(r.0.signo, 9);
    let r = t.check_signals(&mut p, &mut tf, None, &layout()).unwrap();
    assert_eq!(r.0.signo, 3);
    assert_eq!(p.default_restorer(), RESTORER);
}

#[test]
fn with_blocked_mut_updates_mask() {
    let (mut t, _p) = setup();
    let was = t.with_blocked_mut(|mut b| {
        let added = b.add(7);
        (b, added)
    });
    assert!(was);
    assert!(t.blocked().has(7));
    let again = t.with_blocked_mut(|mut b| {
        let added = b.add(7);
        (b, added)
    });
    assert!(!again);
}

#[test]
fn new_thread_manager_has_default_stack() {
    let t = ThreadSignalManager::new();
    assert_eq!(t.signal_stack.sp, 0);
    assert_eq!(t.signal_stack.size, 0);
    assert_eq!(t.signal_stack.flags, 2);
    assert_eq!(t.blocked(), SignalSet::empty());
}

#[test]
fn reset_then_second_delivery_after_restore() {
    let (mut t, mut p) = setup();
    p.set_action(10, handler_action(0x5000, SA_RESETHAND));
    t.send_signal(SignalInfo::new(10, 0));
    let mut tf = trap_frame();
    let r = t.check_signals(&mut p, &mut tf, None, &layout()).unwrap();
    assert!(t.blocked().has(10));
    t.restore(&mut tf, &r.2.unwrap().frame);
    assert!(!t.blocked().has(10));
    let info = SignalInfo::new(10, 1);
    t.send_signal(info);
    let r = t.check_signals(&mut p, &mut tf, None, &layout());
    assert_eq!(r, Some((info, SignalOSAction::Terminate, None)));
    assert_eq!(tf, trap_frame());
}
