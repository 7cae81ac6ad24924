//! Derivation of genetic codes from an entropy payload.

use vstd::prelude::*;

verus! {

/// What `sp_io::hashing::blake2_128` returns for the given bytes.
pub uninterp spec fn blake2_128_of(data: Seq<u8>) -> Seq<u8>;

/// Relies on `sp_io::hashing::blake2_128`: a 128-bit Blake2b digest that
/// depends on the input bytes alone.
#[verifier::external_body]
fn blake2_128(data: &Vec<u8>) -> (r: [u8; 16])
    ensures
        r@ == blake2_128_of(data@),
{
    sp_io::hashing::blake2_128(data.as_slice())
}

/// The `n` least significant bytes of `x`, lowest first.
pub open spec fn le_bytes(x: nat, n: nat) -> Seq<u8>
    decreases n,
{
    if n == 0 {
        Seq::empty()
    } else {
        seq![(x % 256) as u8].add(le_bytes(x / 256, (n - 1) as nat))
    }
}

/// The bytes hashed to derive a genetic code: the account, the oracle seed
/// and the block height, each in its fixed-width little-endian encoding.
pub open spec fn entropy_payload(who: u64, seed: Seq<u8>, block_number: u64) -> Seq<u8> {
    le_bytes(who as nat, 8).add(seed).add(le_bytes(block_number as nat, 8))
}

/// The genetic code (or breeding selector) derived for an account at a block
/// from an oracle seed.
pub open spec fn random_value_of(who: u64, seed: Seq<u8>, block_number: u64) -> Seq<u8> {
    blake2_128_of(entropy_payload(who, seed, block_number))
}

/// Appends the little-endian encoding of `x` to `out`.
fn push_le_u64(out: &mut Vec<u8>, x: u64)
    ensures
        final(out)@ == old(out)@.add(le_bytes(x as nat, 8)),
{
    let ghost start = out@;
    let mut rest: u64 = x;
    let mut i: usize = 0;
    while i < 8
        invariant
            i <= 8,
            out@.add(le_bytes(rest as nat, (8 - i) as nat)) == start.add(le_bytes(x as nat, 8)),
        decreases 8 - i,
    {
        let ghost before = out@;
        let ghost r = rest;
        out.push((rest % 256) as u8);
        rest = rest / 256;
        i = i + 1;
        assert(le_bytes(r as nat, (8 - (i - 1)) as nat) == seq![(r as nat % 256) as u8].add(
            le_bytes(rest as nat, (8 - i) as nat),
        ));
        assert(out@.add(le_bytes(rest as nat, (8 - i) as nat)) =~= before.add(
            le_bytes(r as nat, (8 - (i - 1)) as nat),
        ));
    }
    assert(le_bytes(rest as nat, 0) =~= Seq::<u8>::empty());
    assert(out@ =~= out@.add(le_bytes(rest as nat, 0)));
}

/// Encodes the entropy payload for an account, an oracle seed and a block height.
pub fn entropy_payload_bytes(who: u64, seed: &[u8; 32], block_number: u64) -> (r: Vec<u8>)
    ensures
        r@ == entropy_payload(who, seed@, block_number),
{
    let mut out: Vec<u8> = Vec::new();
    push_le_u64(&mut out, who);
    let mut i: usize = 0;
    while i < 32
        invariant
            i <= 32,
            out@ == le_bytes(who as nat, 8).add(seed@.subrange(0, i as int)),
        decreases 32 - i,
    {
        out.push(seed[i]);
        i = i + 1;
        assert(out@ =~= le_bytes(who as nat, 8).add(seed@.subrange(0, i as int)));
    }
    assert(seed@.subrange(0, 32) =~= seed@);
    push_le_u64(&mut out, block_number);
    out
}

/// Derives sixteen pseudo-random bytes for an account at a block from an
/// oracle seed.
pub fn random_value(who: u64, seed: &[u8; 32], block_number: u64) -> (r: [u8; 16])
    ensures
        r@ == random_value_of(who, seed@, block_number),
{
    let payload = entropy_payload_bytes(who, seed, block_number);
    blake2_128(&payload)
}

} // verus!
