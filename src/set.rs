use vstd::prelude::*;

verus! {

/// Largest signal number.
pub const MAX_SIGNO: u32 = 64;

/// Whether bit `i` of `x` is set.
pub open spec fn bit_at(x: u64, i: u64) -> bool {
    (x >> i) & 1u64 == 1u64
}

/// Whether `signo` lies in the signal-number domain `1..=64`.
pub open spec fn valid_signo(signo: int) -> bool {
    1 <= signo <= MAX_SIGNO
}

proof fn lemma_bit_zero(i: u64)
    requires
        i < 64,
    ensures
        (0u64 >> i) & 1u64 != 1u64,
{
    assert((0u64 >> i) & 1u64 != 1u64) by (bit_vector);
}

proof fn lemma_bit_or(a: u64, b: u64, i: u64)
    requires
        i < 64,
    ensures
        ((a | b) >> i) & 1u64 == 1u64 <==> ((a >> i) & 1u64 == 1u64 || (b >> i) & 1u64 == 1u64),
{
    assert(((a | b) >> i) & 1u64 == 1u64 <==> ((a >> i) & 1u64 == 1u64 || (b >> i) & 1u64
        == 1u64)) by (bit_vector);
}

proof fn lemma_bit_not(a: u64, i: u64)
    requires
        i < 64,
    ensures
        ((!a) >> i) & 1u64 == 1u64 <==> !((a >> i) & 1u64 == 1u64),
{
    assert(((!a) >> i) & 1u64 == 1u64 <==> !((a >> i) & 1u64 == 1u64)) by (bit_vector)
        requires
            i < 64,
    ;
}

proof fn lemma_bit_single(k: u64, i: u64)
    requires
        i < 64,
        k < 64,
    ensures
        ((1u64 << k) >> i) & 1u64 == 1u64 <==> i == k,
{
    assert(((1u64 << k) >> i) & 1u64 == 1u64 <==> i == k) by (bit_vector)
        requires
            i < 64,
            k < 64,
    ;
}

proof fn lemma_bit_and_not(a: u64, b: u64, i: u64)
    requires
        i < 64,
    ensures
        ((a & !b) >> i) & 1u64 == 1u64 <==> ((a >> i) & 1u64 == 1u64 && !((b >> i) & 1u64
            == 1u64)),
{
    assert(((a & !b) >> i) & 1u64 == 1u64 <==> ((a >> i) & 1u64 == 1u64 && !((b >> i) & 1u64
        == 1u64))) by (bit_vector)
        requires
            i < 64,
    ;
}

/// A set of signal numbers in `1..=64`; number `n` is bit `n - 1`.
#[derive(Clone, Copy, PartialEq, Eq, Structural, Debug)]
pub struct SignalSet {
    pub bits: u64,
}

impl SignalSet {
    /// Whether `signo` is a member.
    pub open spec fn contains(self, signo: int) -> bool {
        valid_signo(signo) && bit_at(self.bits, (signo - 1) as u64)
    }

    /// The empty set.
    pub fn empty() -> (r: SignalSet)
        ensures
            forall|n: int| !r.contains(n),
    {
        proof {
            assert forall|n: int| !SignalSet { bits: 0 }.contains(n) by {
                if valid_signo(n) {
                    lemma_bit_zero((n - 1) as u64);
                }
            }
        }
        SignalSet { bits: 0 }
    }

    /// Whether `signo` is a member; false outside the domain.
    pub fn has(&self, signo: u32) -> (r: bool)
        ensures
            r == self.contains(signo as int),
    {
        if signo == 0 || signo > MAX_SIGNO {
            false
        } else {
            (self.bits >> ((signo - 1) as u64)) & 1u64 == 1u64
        }
    }

    /// Adds `signo`; returns whether it was absent before.
    pub fn add(&mut self, signo: u32) -> (r: bool)
        requires
            valid_signo(signo as int),
        ensures
            r == !old(self).contains(signo as int),
            forall|n: int| #[trigger]
                final(self).contains(n) == (old(self).contains(n) || n == signo as int),
    {
        let k: u64 = (signo - 1) as u64;
        let was = (self.bits >> k) & 1u64 == 1u64;
        let ghost before = self.bits;
        self.bits = self.bits | (1u64 << k);
        proof {
            assert forall|n: int| #[trigger]
                self.contains(n) == (SignalSet { bits: before }.contains(n) || n == signo as int) by {
                if valid_signo(n) {
                    lemma_bit_or(before, 1u64 << k, (n - 1) as u64);
                    lemma_bit_single(k, (n - 1) as u64);
                }
            }
        }
        !was
    }

    /// Removes `signo`; returns whether it was present before.
    pub fn remove(&mut self, signo: u32) -> (r: bool)
        requires
            valid_signo(signo as int),
        ensures
            r == old(self).contains(signo as int),
            forall|n: int| #[trigger]
                final(self).contains(n) == (old(self).contains(n) && n != signo as int),
    {
        let k: u64 = (signo - 1) as u64;
        let was = (self.bits >> k) & 1u64 == 1u64;
        let ghost before = self.bits;
        self.bits = self.bits & !(1u64 << k);
        proof {
            assert forall|n: int| #[trigger]
                self.contains(n) == (SignalSet { bits: before }.contains(n) && n != signo as int) by {
                if valid_signo(n) {
                    lemma_bit_and_not(before, 1u64 << k, (n - 1) as u64);
                    lemma_bit_single(k, (n - 1) as u64);
                }
            }
        }
        was
    }

    /// The union of two sets.
    pub fn union(self, other: SignalSet) -> (r: SignalSet)
        ensures
            forall|n: int| #[trigger] r.contains(n) == (self.contains(n) || other.contains(n)),
    {
        let r = SignalSet { bits: self.bits | other.bits };
        proof {
            assert forall|n: int| #[trigger]
                r.contains(n) == (self.contains(n) || other.contains(n)) by {
                if valid_signo(n) {
                    lemma_bit_or(self.bits, other.bits, (n - 1) as u64);
                }
            }
        }
        r
    }

    /// Every signal number of the domain that is not in `self`.
    pub fn complement(self) -> (r: SignalSet)
        ensures
            r.bits == !self.bits,
            forall|n: int| #[trigger] r.contains(n) == (valid_signo(n) && !self.contains(n)),
    {
        let r = SignalSet { bits: !self.bits };
        proof {
            assert forall|n: int| #[trigger]
                r.contains(n) == (valid_signo(n) && !self.contains(n)) by {
                if valid_signo(n) {
                    lemma_bit_not(self.bits, (n - 1) as u64);
                }
            }
        }
        r
    }
}

/// A number is in the complement of `s` exactly when it is a signal
/// number outside `s`.
pub proof fn lemma_complement(s: SignalSet)
    ensures
        forall|n: int| #[trigger]
            (SignalSet { bits: !s.bits }).contains(n) == (valid_signo(n) && !s.contains(n)),
{
    assert forall|n: int| #[trigger]
        (SignalSet { bits: !s.bits }).contains(n) == (valid_signo(n) && !s.contains(n)) by {
        if valid_signo(n) {
            lemma_bit_not(s.bits, (n - 1) as u64);
        }
    }
}

} // verus!
