//! The standard operator and conversion traits of [`Ternary64`]: unary minus,
//! and `From` to and from the binary integers.

use crate::ternary64::Ternary64;
use vstd::prelude::*;
use vstd::std_specs::convert::FromSpecImpl;
use vstd::std_specs::ops::NegSpecImpl;

verus! {

impl core::ops::Neg for Ternary64 {
    type Output = Ternary64;

    /// The additive inverse, as [`Ternary64::negate`] gives it.
    fn neg(self) -> (result: Ternary64) {
        self.negate()
    }
}

impl NegSpecImpl for Ternary64 {
    open spec fn obeys_neg_spec() -> bool {
        true
    }

    open spec fn neg_req(self) -> bool {
        true
    }

    open spec fn neg_spec(self) -> Ternary64 {
        self.negated()
    }
}

impl From<Ternary64> for i128 {
    /// The integer that the value denotes, as
    /// [`Ternary64::to_signed_integer`] gives it.
    fn from(ternary: Ternary64) -> (result: i128) {
        proof {
            ternary.lemma_value_fits();
        }
        ternary.to_signed_integer()
    }
}

impl FromSpecImpl<Ternary64> for i128 {
    open spec fn obeys_from_spec() -> bool {
        true
    }

    open spec fn from_spec(ternary: Ternary64) -> i128 {
        ternary.value() as i128
    }
}

impl From<u64> for Ternary64 {
    /// The balanced-ternary encoding, as
    /// [`Ternary64::from_unsigned_integer`] gives it.
    fn from(binary: u64) -> (result: Ternary64) {
        Ternary64::from_unsigned_integer(binary)
    }
}

impl FromSpecImpl<u64> for Ternary64 {
    open spec fn obeys_from_spec() -> bool {
        true
    }

    open spec fn from_spec(binary: u64) -> Ternary64 {
        Ternary64::from_int(binary as int)
    }
}

impl From<i64> for Ternary64 {
    /// The balanced-ternary encoding, as
    /// [`Ternary64::from_signed_integer`] gives it.
    fn from(binary: i64) -> (result: Ternary64) {
        Ternary64::from_signed_integer(binary)
    }
}

impl FromSpecImpl<i64> for Ternary64 {
    open spec fn obeys_from_spec() -> bool {
        true
    }

    open spec fn from_spec(binary: i64) -> Ternary64 {
        Ternary64::from_int(binary as int)
    }
}

} // verus!
