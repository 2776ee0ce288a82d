use anchor_lang::solana_program::hash::hashv;
use rand::Rng;
use rand_chacha::rand_core::SeedableRng;
use rand_chacha::ChaCha8Rng;
use vstd::prelude::*;

verus! {

/// The SHA-256 digest of `data`.
pub uninterp spec fn sha256(data: Seq<u8>) -> Seq<u8>;

/// The generator of `rand_chacha` with eight rounds. What it holds is not
/// known here, but for the two names below.
#[verifier::external_type_specification]
#[verifier::external_body]
pub struct ExChaCha8Rng(ChaCha8Rng);

/// The seed that a generator was made with.
pub uninterp spec fn generator_seed(rng: ChaCha8Rng) -> u64;

/// The bounds under which numbers were drawn from a generator since it was
/// made, the first one first.
pub uninterp spec fn generator_asked(rng: ChaCha8Rng) -> Seq<u16>;

/// The number below `bound` that a generator made with `seed` hands out
/// after numbers below the bounds of `earlier` were drawn from it.
pub uninterp spec fn chacha8_draw(seed: u64, earlier: Seq<u16>, bound: u16) -> u16;

/// The number that `bytes` spell, the least significant byte first.
pub open spec fn le_value(bytes: Seq<u8>) -> nat
    decreases bytes.len(),
{
    if bytes.len() == 0 {
        0
    } else {
        bytes[0] as nat + 256 * le_value(bytes.subrange(1, bytes.len() as int))
    }
}

/// The `len` lowest bytes of `value`, the least significant byte first.
pub open spec fn le_bytes(value: nat, len: nat) -> Seq<u8>
    decreases len,
{
    if len == 0 {
        Seq::<u8>::empty()
    } else {
        seq![(value % 256) as u8] + le_bytes(value / 256, (len - 1) as nat)
    }
}

/// The unsigned number with the same 64 bits as `value` in two's
/// complement.
pub open spec fn twos_complement(value: i64) -> u64 {
    if value >= 0 {
        value as u64
    } else {
        (value + 0x1_0000_0000_0000_0000) as u64
    }
}

/// The seed of a round: the first eight bytes of the digest of the time,
/// the slot hash, the player's key and what the vault has left, in this
/// order, both numbers as eight bytes with the least significant first.
pub open spec fn round_seed(
    timestamp: i64,
    slot_hash: Seq<u8>,
    player: Seq<u8>,
    mint_remaining: u64,
) -> u64 {
    le_value(
        sha256(
            le_bytes(twos_complement(timestamp) as nat, 8) + slot_hash + player + le_bytes(
                mint_remaining as nat,
                8,
            ),
        ).take(8),
    ) as u64
}

/// Calls `solana_program::hash::hashv`, which feeds the slices it is given
/// to one SHA-256 hasher in their order, on the four parts, and hands out
/// the digest's bytes. The claim is that this is the digest of the parts
/// put end to end.
#[verifier::external_body]
pub(crate) fn hash_parts(
    first: &[u8; 8],
    second: &[u8; 32],
    third: &[u8; 32],
    fourth: &[u8; 8],
) -> (digest: [u8; 32])
    ensures
        digest@ == sha256(first@ + second@ + third@ + fourth@),
{
    hashv(&[&first[..], &second[..], &third[..], &fourth[..]]).to_bytes()
}

/// Calls `SeedableRng::seed_from_u64` for `ChaCha8Rng`, which spreads the
/// seed over the generator's key and starts its stream. The claim is only
/// that the generator remembers what it was made with, and that nothing
/// was drawn from it yet.
#[verifier::external_body]
pub(crate) fn seeded_rng(seed: u64) -> (rng: ChaCha8Rng)
    ensures
        generator_seed(rng) == seed,
        generator_asked(rng) == Seq::<u16>::empty(),
{
    ChaCha8Rng::seed_from_u64(seed)
}

/// Calls `Rng::gen_range` with the range from 0 up to, not including,
/// `bound`. The crate documents a value in the range, and a panic on an
/// empty range, which the precondition keeps out. The generator is no
/// source of chance: what it hands out is fixed by its seed and by the
/// draws made before, on every machine alike, which is all that the name
/// claims.
#[verifier::external_body]
pub(crate) fn draw_below(rng: &mut ChaCha8Rng, bound: u16) -> (drawn: u16)
    requires
        bound > 0,
    ensures
        drawn < bound,
        drawn == chacha8_draw(generator_seed(*old(rng)), generator_asked(*old(rng)), bound),
        generator_seed(*final(rng)) == generator_seed(*old(rng)),
        generator_asked(*final(rng)) == generator_asked(*old(rng)).push(bound),
{
    rng.gen_range(0..bound)
}

/// The eight bytes of `value`, the least significant first.
pub fn u64_le_bytes(value: u64) -> (bytes: [u8; 8])
    ensures
        bytes@ == le_bytes(value as nat, 8),
{
    let mut bytes: [u8; 8] = [0u8; 8];
    let mut rest: u64 = value;
    let mut i: usize = 0;
    while i < 8
        invariant
            i <= 8,
            le_bytes(value as nat, 8) == bytes@.take(i as int) + le_bytes(
                rest as nat,
                (8 - i) as nat,
            ),
        decreases 8 - i,
    {
        let ghost before = bytes@;
        bytes[i] = (rest % 256) as u8;
        proof {
            assert(bytes@.take(i + 1) =~= before.take(i as int) + seq![(rest % 256) as u8]);
            assert(before.take(i as int) + (seq![(rest % 256) as u8] + le_bytes(
                rest as nat / 256,
                (8 - i - 1) as nat,
            )) =~= bytes@.take(i + 1) + le_bytes(rest as nat / 256, (8 - i - 1) as nat));
        }
        rest = rest / 256;
        i = i + 1;
    }
    proof {
        assert(bytes@.take(8) =~= bytes@);
        assert(bytes@ + le_bytes(rest as nat, 0) =~= bytes@);
    }
    bytes
}

/// The unsigned number with the same 64 bits as `value`.
pub fn i64_bits(value: i64) -> (bits: u64)
    ensures
        bits == twos_complement(value),
{
    if value >= 0 {
        value as u64
    } else {
        // -(value + 1) is the distance of the bits from all ones.
        let below: u64 = (-(value + 1)) as u64;
        u64::MAX - below
    }
}

/// The number that the first eight bytes of a digest spell, the least
/// significant first.
pub fn seed_from_digest(digest: &[u8; 32]) -> (seed: u64)
    ensures
        seed == le_value(digest@.take(8)),
{
    let mut seed: u64 = 0;
    let mut i: usize = 8;
    proof {
        assert(digest@.take(8).subrange(8, 8) =~= Seq::<u8>::empty());
    }
    while i > 0
        invariant
            i <= 8,
            seed == le_value(digest@.take(8).subrange(i as int, 8)),
            i == 8 ==> seed == 0,
            i == 7 ==> seed < 0x100,
            i == 6 ==> seed < 0x1_0000,
            i == 5 ==> seed < 0x100_0000,
            i == 4 ==> seed < 0x1_0000_0000,
            i == 3 ==> seed < 0x100_0000_0000,
            i == 2 ==> seed < 0x1_0000_0000_0000,
            i == 1 ==> seed < 0x100_0000_0000_0000,
        decreases i,
    {
        i = i - 1;
        proof {
            let tail = digest@.take(8).subrange(i as int, 8);
            assert(tail.subrange(1, tail.len() as int) =~= digest@.take(8).subrange(i + 1, 8));
            assert(tail[0] == digest@[i as int]);
        }
        seed = seed * 256 + digest[i] as u64;
    }
    proof {
        assert(digest@.take(8).subrange(0, 8) =~= digest@.take(8));
    }
    seed
}

/// The seed of a round.
pub fn derive_seed(
    timestamp: i64,
    slot_hash: &[u8; 32],
    player: &[u8; 32],
    mint_remaining: u64,
) -> (seed: u64)
    ensures
        seed == round_seed(timestamp, slot_hash@, player@, mint_remaining),
{
    let time_bytes: [u8; 8] = u64_le_bytes(i64_bits(timestamp));
    let supply_bytes: [u8; 8] = u64_le_bytes(mint_remaining);
    let digest: [u8; 32] = hash_parts(&time_bytes, slot_hash, player, &supply_bytes);
    seed_from_digest(&digest)
}

} // verus!
