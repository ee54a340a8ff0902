use vstd::prelude::*;

verus! {

/// What the kernel does for a signal whose disposition is left at its default.
#[derive(Clone, Copy, PartialEq, Eq, Structural, Debug)]
pub enum DefaultSignalAction {
    Terminate,
    CoreDump,
    Stop,
    Ignore,
    Continue,
}

/// The outcome of delivery that the caller must carry out.
#[derive(Clone, Copy, PartialEq, Eq, Structural, Debug)]
pub enum SignalOSAction {
    Terminate,
    CoreDump,
    Stop,
    Continue,
    /// Execution has been redirected into a user handler.
    Handler,
}

/// The default category of each signal number, as Linux defines it.
pub open spec fn default_action_of(signo: int) -> DefaultSignalAction {
    if signo == 3 || signo == 4 || signo == 5 || signo == 6 || signo == 7 || signo == 8 || signo
        == 11 || signo == 24 || signo == 25 || signo == 31 {
        DefaultSignalAction::CoreDump
    } else if signo == 17 || signo == 23 || signo == 28 {
        DefaultSignalAction::Ignore
    } else if signo == 18 {
        DefaultSignalAction::Continue
    } else if 19 <= signo <= 22 {
        DefaultSignalAction::Stop
    } else {
        DefaultSignalAction::Terminate
    }
}

/// The default category of `signo`.
pub fn default_action(signo: u32) -> (r: DefaultSignalAction)
    ensures
        r == default_action_of(signo as int),
{
    match signo {
        3 | 4 | 5 | 6 | 7 | 8 | 11 | 24 | 25 | 31 => DefaultSignalAction::CoreDump,
        17 | 23 | 28 => DefaultSignalAction::Ignore,
        18 => DefaultSignalAction::Continue,
        19 | 20 | 21 | 22 => DefaultSignalAction::Stop,
        _ => DefaultSignalAction::Terminate,
    }
}

/// The OS action owed for a signal left at its default disposition;
/// `None` where the default is to ignore it.
pub open spec fn default_os_action(signo: int) -> Option<SignalOSAction> {
    match default_action_of(signo) {
        DefaultSignalAction::Terminate => Some(SignalOSAction::Terminate),
        DefaultSignalAction::CoreDump => Some(SignalOSAction::CoreDump),
        DefaultSignalAction::Stop => Some(SignalOSAction::Stop),
        DefaultSignalAction::Ignore => None,
        DefaultSignalAction::Continue => Some(SignalOSAction::Continue),
    }
}

/// Information about one raised signal: its number and what its sender
/// recorded.
#[derive(Clone, Copy, PartialEq, Eq, Structural, Debug)]
pub struct SignalInfo {
    pub signo: u32,
    pub errno: i32,
    pub code: i32,
    pub pid: u32,
    pub uid: u32,
    pub value: u64,
}

impl SignalInfo {
    /// A record for `signo` with the given code and no sender details.
    pub fn new(signo: u32, code: i32) -> (r: SignalInfo)
        ensures
            r.signo == signo,
            r.code == code,
            r.errno == 0,
            r.pid == 0,
            r.uid == 0,
            r.value == 0,
    {
        SignalInfo { signo, errno: 0, code, pid: 0, uid: 0, value: 0 }
    }

    /// The signal number.
    pub fn signo(&self) -> (r: u32)
        ensures
            r == self.signo,
    {
        self.signo
    }
}

} // verus!
