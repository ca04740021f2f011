//! Pseudorandom values derived from external entropy and a counter, and additive
//! secret sharing over them.
use vstd::prelude::*;
use crate::bytes::{le_bytes, le_bytes_of, le_value, le_value_of};
use secret_toolkit_crypto::hkdf_sha_512;

verus! {

/// Length in bytes of the key-derivation salt and output.
pub const SECRET_LENGTH: usize = 64;

/// Bytes of entropy that seed the counter.
pub const RANDOM_SEED_SIZE: usize = 16;

/// What HKDF-SHA512 derives from a salt, input keying material, info and output length.
pub uninterp spec fn hkdf_sha512_of(salt: Seq<u8>, ikm: Seq<u8>, info: Seq<u8>, length: nat) -> Seq<u8>;

/// Relies on secret_toolkit_crypto::hkdf_sha_512: HKDF over SHA-512 with the given salt;
/// it returns `length` bytes and fails only for a length above 255 * 64.
#[verifier::external_body]
fn hkdf_sha512(salt: &Vec<u8>, ikm: &[u8], info: &[u8], length: usize) -> (r: Option<Vec<u8>>)
    requires
        length <= 255 * 64,
    ensures
        r is Some,
        r.unwrap()@ == hkdf_sha512_of(salt@, ikm@, info@, length as nat),
        r.unwrap()@.len() == length,
{
    hkdf_sha_512(&Some(salt.clone()), ikm, info, length).ok()
}

/// The value derived from `entropy` at counter value `counter`: the first eight bytes,
/// read little-endian, of HKDF-SHA512 over a 64-byte zero salt, the entropy and the
/// counter's 16 little-endian bytes.
pub open spec fn derived_value(entropy: Seq<u8>, counter: u128) -> u64 {
    le_value(
        hkdf_sha512_of(
            Seq::new(64, |i: int| 0u8),
            entropy,
            le_bytes(counter as nat, 16),
            64,
        ).subrange(0, 8),
    ) as u64
}

/// Derives the next pseudorandom value and advances the counter by one.
pub fn generate_random_number(entropy: &[u8], counter: &mut u128) -> (r: u64)
    requires
        *old(counter) < u128::MAX,
    ensures
        r == derived_value(entropy@, *old(counter)),
        *final(counter) == *old(counter) + 1,
{
    let salt: Vec<u8> = vec![0u8; SECRET_LENGTH];
    assert(salt@ =~= Seq::new(64, |i: int| 0u8));
    let info = le_bytes_of(*counter, 16);
    let okm = hkdf_sha512(&salt, entropy, info.as_slice(), SECRET_LENGTH).unwrap();
    let value = le_value_of(okm.as_slice(), 8) as u64;
    *counter = *counter + 1;
    value
}

/// Reads the initial counter from the first 16 bytes of `seed`, little-endian; `None`
/// when the seed is shorter.
pub fn init_counter(seed: &[u8]) -> (r: Option<u128>)
    ensures
        r == (if seed@.len() >= 16 {
            Some(le_value(seed@.subrange(0, 16)) as u128)
        } else {
            None
        }),
{
    if seed.len() < RANDOM_SEED_SIZE {
        None
    } else {
        Some(le_value_of(seed, RANDOM_SEED_SIZE))
    }
}

/// The sum of `s`, modulo 2^64.
pub open spec fn wrapping_sum(s: Seq<u64>) -> u64
    decreases s.len(),
{
    if s.len() == 0 {
        0
    } else {
        wrapping_sum(s.drop_last()).wrapping_add(s.last())
    }
}

/// The `n - 1` values derived from counter values `counter` onward.
pub open spec fn random_shares(entropy: Seq<u8>, counter: u128, n: nat) -> Seq<u64> {
    Seq::new((n - 1) as nat, |k: int| derived_value(entropy, (counter + k) as u128))
}

/// The `n` shares of `secret` drawn from counter value `counter` on: the random shares,
/// then the secret minus their sum, modulo 2^64.
pub open spec fn shares_of(entropy: Seq<u8>, counter: u128, n: nat, secret: u64) -> Seq<u64> {
    let rs = random_shares(entropy, counter, n);
    rs.push(secret.wrapping_sub(wrapping_sum(rs)))
}

/// Completing random shares with the secret minus their sum, modulo 2^64, gives shares
/// whose sum, modulo 2^64, is the secret.
pub proof fn lemma_shares_reconstruct(randoms: Seq<u64>, secret: u64)
    ensures
        wrapping_sum(randoms.push(secret.wrapping_sub(wrapping_sum(randoms)))) == secret,
{
    let s = randoms.push(secret.wrapping_sub(wrapping_sum(randoms)));
    assert(s.drop_last() =~= randoms);
}

/// Splits `secret` into `players` shares: all but the last are derived values, the last
/// is the secret minus their sum, modulo 2^64. The shares sum to the secret modulo 2^64.
pub fn additive_secret_sharing(entropy: &[u8], players: usize, secret: u64, counter: &mut u128) -> (r: Vec<u64>)
    requires
        players >= 1,
        *old(counter) + players - 1 <= u128::MAX,
    ensures
        r@.len() == players,
        forall|k: int|
            0 <= k < players - 1 ==> r@[k] == derived_value(entropy@, (*old(counter) + k) as u128),
        r@[players - 1] == secret.wrapping_sub(wrapping_sum(r@.subrange(0, players - 1))),
        wrapping_sum(r@) == secret,
        r@ == shares_of(entropy@, *old(counter), players as nat, secret),
        *final(counter) == *old(counter) + players - 1,
{
    let mut shares: Vec<u64> = Vec::with_capacity(players);
    let mut sum: u64 = 0;
    let mut i: usize = 0;
    while i < players - 1
        invariant
            1 <= players,
            i <= players - 1,
            *old(counter) + players - 1 <= u128::MAX,
            *counter == *old(counter) + i,
            shares@.len() == i,
            forall|k: int|
                0 <= k < i ==> shares@[k] == derived_value(entropy@, (*old(counter) + k) as u128),
            sum == wrapping_sum(shares@),
        decreases players - 1 - i,
    {
        let share = generate_random_number(entropy, counter);
        proof {
            assert(shares@.push(share).drop_last() =~= shares@);
        }
        shares.push(share);
        sum = sum.wrapping_add(share);
        i = i + 1;
    }
    let last = secret.wrapping_sub(sum);
    proof {
        lemma_shares_reconstruct(shares@, secret);
        assert(shares@.push(last).subrange(0, players - 1) =~= shares@);
        assert(shares@ =~= random_shares(entropy@, *old(counter), players as nat));
        assert(shares@.push(last) =~= shares_of(entropy@, *old(counter), players as nat, secret));
    }
    shares.push(last);
    shares
}

} // verus!
