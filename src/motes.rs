//! Arbitrary-precision stake amounts, backed by `casper_types::U512`.

use casper_types::U512;
use num_traits::AsPrimitive;
use vstd::prelude::*;

verus! {

/// 2^64, the radix of one limb.
pub open spec fn limb_radix() -> nat {
    18446744073709551616
}

/// 2^512, one past the largest value a `Motes` can hold.
pub open spec fn motes_bound() -> nat {
    limb_radix() * limb_radix() * limb_radix() * limb_radix() * limb_radix() * limb_radix()
        * limb_radix() * limb_radix()
}

/// The number written by little-endian 64-bit limbs.
pub open spec fn limbs_value(l: Seq<u64>) -> nat
    decreases l.len(),
{
    if l.len() == 0 {
        0
    } else {
        l[0] as nat + limb_radix() * limbs_value(l.drop_first())
    }
}

/// A stake amount: a non-negative integer below 2^512, held as the
/// little-endian limbs of a `U512`.
#[derive(Clone, Copy, Debug, PartialEq, Eq)]
pub struct Motes {
    pub limbs: [u64; 8],
}

impl Motes {
    pub open spec fn value(&self) -> nat {
        limbs_value(self.limbs@)
    }

    /// The amount `v`.
    pub fn from_u64(v: u64) -> (r: Motes)
        ensures
            r.value() == v as nat,
    {
        u512_from_u64(v)
    }

    /// `self + other`, or `None` where the sum does not fit in 512 bits.
    pub fn checked_add(&self, other: &Motes) -> (r: Option<Motes>)
        ensures
            r is None <==> self.value() + other.value() >= motes_bound(),
            r matches Some(s) ==> s.value() == self.value() + other.value(),
    {
        u512_checked_add(self, other)
    }
}

/// Relies on `From<u64> for U512`: the value keeps its number.
#[verifier::external_body]
fn u512_from_u64(v: u64) -> (r: Motes)
    ensures
        r.value() == v as nat,
{
    Motes { limbs: U512::from(v).0 }
}

/// Relies on `U512::checked_add`: the sum, `None` on overflow past 2^512.
#[verifier::external_body]
fn u512_checked_add(a: &Motes, b: &Motes) -> (r: Option<Motes>)
    ensures
        r is None <==> a.value() + b.value() >= motes_bound(),
        r matches Some(s) ==> s.value() == a.value() + b.value(),
{
    U512(a.limbs).checked_add(U512(b.limbs)).map(|s| Motes { limbs: s.0 })
}

/// Relies on `PartialOrd for U512`, which compares the numbers.
#[verifier::external_body]
pub(crate) fn u512_gt(a: &Motes, b: &Motes) -> (r: bool)
    ensures
        r == (a.value() > b.value()),
{
    U512(a.limbs) > U512(b.limbs)
}

/// Relies on `Div for U512`: the quotient truncated toward zero; it panics
/// on a zero divisor.
#[verifier::external_body]
pub(crate) fn u512_div(a: &Motes, b: &Motes) -> (r: Motes)
    requires
        b.value() > 0,
    ensures
        r.value() == a.value() / b.value(),
{
    Motes { limbs: (U512(a.limbs) / U512(b.limbs)).0 }
}

/// Relies on `AsPrimitive<u64> for U512`, which keeps the low limb: the
/// number modulo 2^64.
#[verifier::external_body]
pub(crate) fn u512_as_u64(a: &Motes) -> (r: u64)
    ensures
        r as nat == a.value() % limb_radix(),
{
    AsPrimitive::<u64>::as_(U512(a.limbs))
}

} // verus!
