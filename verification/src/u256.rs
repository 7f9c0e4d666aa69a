//! Unsigned 256-bit numbers, as the ledger passes amounts and time values.

use vstd::prelude::*;

verus! {

/// An unsigned 256-bit number in two halves.
#[derive(Clone, Copy, Debug, PartialEq, Eq)]
pub struct U256 {
    pub hi: u128,
    pub lo: u128,
}

/// 2^128.
pub open spec fn two_to_128() -> int {
    0x1_0000_0000_0000_0000_0000_0000_0000_0000int
}

impl View for U256 {
    type V = nat;

    /// The number that the two halves stand for.
    open spec fn view(&self) -> nat {
        (self.hi * two_to_128() + self.lo) as nat
    }
}

impl U256 {
    /// The number `value`.
    pub fn from_u128(value: u128) -> (number: U256)
        ensures
            number@ == value,
    {
        U256 { hi: 0, lo: value }
    }

    /// The number `value`.
    pub fn from_u64(value: u64) -> (number: U256)
        ensures
            number@ == value,
    {
        U256 { hi: 0, lo: value as u128 }
    }

    /// The number as a `u128`, where it fits.
    pub fn to_u128(&self) -> (value: Option<u128>)
        ensures
            match value {
                Some(v) => v == self@,
                None => self@ > u128::MAX,
            },
    {
        if self.hi == 0 {
            Some(self.lo)
        } else {
            assert(self.hi * two_to_128() >= two_to_128()) by (nonlinear_arith)
                requires
                    self.hi >= 1,
            ;
            None
        }
    }

    /// The number as a ledger amount, where it fits a signed 128-bit number.
    pub fn to_i128(&self) -> (value: Option<i128>)
        ensures
            match value {
                Some(v) => v == self@,
                None => self@ > i128::MAX,
            },
    {
        match self.to_u128() {
            Some(v) => if v <= 0x7fff_ffff_ffff_ffff_ffff_ffff_ffff_ffff {
                Some(v as i128)
            } else {
                None
            },
            None => None,
        }
    }

    /// The sum of two numbers, where it fits 256 bits.
    pub fn checked_add(&self, other: &U256) -> (sum: Option<U256>)
        ensures
            match sum {
                Some(s) => s@ == self@ + other@,
                None => self@ + other@ >= two_to_128() * two_to_128(),
            },
    {
        let room: u128 = u128::MAX - other.lo;
        let carry: u128 = if self.lo > room {
            1
        } else {
            0
        };
        let lo: u128 = if self.lo > room {
            self.lo - room - 1
        } else {
            self.lo + other.lo
        };
        assert(lo + carry * two_to_128() == self.lo + other.lo);
        if self.hi > u128::MAX - other.hi {
            assert((self.hi + other.hi) * two_to_128() >= two_to_128() * two_to_128()) by (nonlinear_arith)
                requires
                    self.hi + other.hi >= two_to_128(),
            ;
            assert(self.hi * two_to_128() + other.hi * two_to_128() == (self.hi + other.hi) * two_to_128())
                by (nonlinear_arith);
            return None;
        }
        let partial: u128 = self.hi + other.hi;
        assert(self.hi * two_to_128() + other.hi * two_to_128() == partial * two_to_128()) by (nonlinear_arith)
            requires
                partial == self.hi + other.hi,
        ;
        if partial > u128::MAX - carry {
            assert((partial + carry) * two_to_128() >= two_to_128() * two_to_128()) by (nonlinear_arith)
                requires
                    partial + carry >= two_to_128(),
            ;
            assert((partial + carry) * two_to_128() == partial * two_to_128() + carry * two_to_128())
                by (nonlinear_arith);
            return None;
        }
        let hi: u128 = partial + carry;
        assert(hi * two_to_128() == partial * two_to_128() + carry * two_to_128()) by (nonlinear_arith)
            requires
                hi == partial + carry,
        ;
        Some(U256 { hi, lo })
    }

    /// Whether this number is below `other`.
    pub fn less_than(&self, other: &U256) -> (below: bool)
        ensures
            below == (self@ < other@),
    {
        if self.hi < other.hi {
            assert(self.hi * two_to_128() + two_to_128() <= other.hi * two_to_128()) by (nonlinear_arith)
                requires
                    self.hi + 1 <= other.hi,
            ;
            true
        } else if self.hi > other.hi {
            assert(other.hi * two_to_128() + two_to_128() <= self.hi * two_to_128()) by (nonlinear_arith)
                requires
                    other.hi + 1 <= self.hi,
            ;
            false
        } else {
            self.lo < other.lo
        }
    }
}

} // verus!
