//! Per-era instance identifiers: the BLAKE2b digest of a label that names
//! the era, so that no two eras share protocol-level identifiers.

use crate::types::EraId;
use casper_types::Digest;
use vstd::prelude::*;

verus! {

/// The 32-byte BLAKE2b digest of `data`.
pub uninterp spec fn blake2b_256(data: Seq<u8>) -> Seq<u8>;

/// Relies on `casper_types::Digest::hash`: the 32-byte BLAKE2b digest of the
/// bytes, which depends on them alone.
#[verifier::external_body]
fn digest_of(data: &Vec<u8>) -> (r: [u8; 32])
    ensures
        r@ == blake2b_256(data@),
{
    Digest::hash(data).value()
}

/// ASCII decimal digits of `n`, most significant first, without leading zeros.
pub open spec fn decimal(n: nat) -> Seq<u8>
    decreases n,
{
    if n < 10 {
        seq![(48 + n) as u8]
    } else {
        decimal(n / 10).push((48 + n % 10) as u8)
    }
}

/// The ASCII text `Highway era ` followed by the era number in decimal.
pub open spec fn instance_label(era: u64) -> Seq<u8> {
    seq![72u8, 105, 103, 104, 119, 97, 121, 32, 101, 114, 97, 32] + decimal(era as nat)
}

/// Appends the decimal digits of `n` to `out`.
fn push_decimal(n: u64, out: &mut Vec<u8>)
    ensures
        final(out)@ == old(out)@ + decimal(n as nat),
    decreases n,
{
    if n >= 10 {
        push_decimal(n / 10, out);
    }
    out.push(48 + (n % 10) as u8);
    assert(final(out)@ =~= old(out)@ + decimal(n as nat));
}

/// The label that names the instance of `era_id`.
pub fn instance_label_bytes(era_id: EraId) -> (r: Vec<u8>)
    ensures
        r@ == instance_label(era_id.0),
{
    let mut r: Vec<u8> = Vec::new();
    r.push(72);
    r.push(105);
    r.push(103);
    r.push(104);
    r.push(119);
    r.push(97);
    r.push(121);
    r.push(32);
    r.push(101);
    r.push(114);
    r.push(97);
    r.push(32);
    push_decimal(era_id.0, &mut r);
    assert(r@ =~= instance_label(era_id.0));
    r
}

/// The identifier of the protocol instance of `era_id`: the digest of its label.
pub fn instance_id(era_id: EraId) -> (r: [u8; 32])
    ensures
        r@ == blake2b_256(instance_label(era_id.0)),
{
    let label = instance_label_bytes(era_id);
    digest_of(&label)
}

} // verus!
