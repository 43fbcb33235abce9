//! The Adler-32 checksum, computed by the `adler2` crate.

use vstd::prelude::*;
use vstd::string::StringSliceAdditionalSpecFns;

verus! {

/// The modulus of both Adler-32 sums.
pub open spec fn adler_modulus() -> nat {
    65521
}

/// The two running sums of Adler-32 after `data`: `a` starts at 1 and adds
/// each byte, `b` starts at 0 and adds each new `a`, both modulo 65521.
pub open spec fn adler_sums(data: Seq<u8>) -> (nat, nat)
    decreases data.len(),
{
    if data.len() == 0 {
        (1, 0)
    } else {
        let (a, b) = adler_sums(data.drop_last());
        let a2 = (a + data.last() as nat) % adler_modulus();
        (a2, (b + a2) % adler_modulus())
    }
}

/// The Adler-32 checksum of `data`: the `b` sum in the high half-word and the
/// `a` sum in the low one.
pub open spec fn adler32(data: Seq<u8>) -> nat {
    adler_sums(data).1 * 65536 + adler_sums(data).0
}

/// Both sums stay below the modulus, so the checksum fits in 32 bits.
pub proof fn lemma_adler_sums_bounded(data: Seq<u8>)
    ensures
        adler_sums(data).0 < adler_modulus(),
        adler_sums(data).1 < adler_modulus(),
        adler32(data) < 0x1_0000_0000,
    decreases data.len(),
{
    if data.len() > 0 {
        lemma_adler_sums_bounded(data.drop_last());
    }
}

/// Calls `adler2::adler32_slice`. The adler2 crate documents it as the
/// Adler-32 checksum of the slice, and its source keeps exactly the two sums
/// of `adler_sums` (start 1 and 0, each reduced modulo 65521) and returns
/// `(b << 16) | a`; the contract claims that value.
#[verifier::external_body]
fn adler32_slice(data: &[u8]) -> (sum: u32)
    ensures
        sum == adler32(data@),
{
    adler2::adler32_slice(data)
}

/// The Adler-32 checksum of the UTF-8 bytes of `s`.
pub fn get_hash(s: &str) -> (h: u32)
    ensures
        h == adler32(s.spec_bytes()),
{
    adler32_slice(s.as_bytes())
}

} // verus!
