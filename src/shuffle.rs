//! Unbiased Fisher-Yates shuffle driven by SHA-256 with rejection sampling.
use vstd::prelude::*;
use vstd::multiset::*;
use crate::bytes::{le_bytes, le_bytes_of, le_value, le_value_of};
use crate::card::{Card, Deck, canonical_deck};
use sha2::Digest;

verus! {

/// The SHA-256 digest of a byte string.
pub uninterp spec fn sha256_of(data: Seq<u8>) -> Seq<u8>;

/// Relies on sha2's Sha256::digest: the 32-byte SHA-256 digest of the input.
#[verifier::external_body]
fn sha256(data: &[u8]) -> (r: Vec<u8>)
    ensures
        r@ == sha256_of(data@),
        r@.len() == 32,
{
    sha2::Sha256::digest(data).to_vec()
}

/// The candidate drawn for position `pos` at attempt `attempt`: the first eight bytes,
/// little-endian, of the SHA-256 digest of the seed, the position and the attempt, each
/// as eight little-endian bytes.
pub open spec fn candidate(seed: u64, pos: u64, attempt: u64) -> u64 {
    le_value(
        sha256_of(
            le_bytes(seed as nat, 8) + le_bytes(pos as nat, 8) + le_bytes(attempt as nat, 8),
        ).subrange(0, 8),
    ) as u64
}

/// The largest multiple of `bound` that does not exceed `u64::MAX`.
pub open spec fn threshold(bound: int) -> int {
    (u64::MAX as int / bound) * bound
}

/// The index chosen for position `pos` by rejection sampling from attempt `attempt` on:
/// the first candidate below the threshold, reduced modulo `pos + 1`. Should every
/// attempt up to `u64::MAX` be rejected, the position keeps its card.
pub open spec fn sample_index(seed: u64, pos: u64, attempt: u64) -> int
    decreases u64::MAX - attempt,
{
    let c = candidate(seed, pos, attempt);
    if c < threshold(pos as int + 1) {
        c as int % (pos as int + 1)
    } else if attempt == u64::MAX {
        pos as int
    } else {
        sample_index(seed, pos, (attempt + 1) as u64)
    }
}

/// Rejection sampling maps accepted candidates evenly onto the indices: the threshold is
/// a multiple of `bound`, at most `bound` of the 2^64 candidates are rejected, and for
/// each index `j` exactly the candidates `j + m * bound` with `m` below
/// `threshold(bound) / bound` are accepted and reduce to `j`.
pub proof fn lemma_rejection_is_even(bound: int)
    requires
        1 <= bound <= u64::MAX,
    ensures
        threshold(bound) % bound == 0,
        u64::MAX as int + 1 - threshold(bound) <= bound,
        forall|j: int, m: int|
            0 <= j < bound && 0 <= m < threshold(bound) / bound ==> {
                let c = #[trigger] (j + m * bound);
                &&& 0 <= c < threshold(bound)
                &&& c % bound == j
                &&& c / bound == m
            },
        forall|c: int|
            0 <= c < threshold(bound) ==> 0 <= #[trigger] (c / bound) < threshold(bound) / bound,
{
    let q = u64::MAX as int / bound;
    let t = threshold(bound);
    assert(t == q * bound);
    vstd::arithmetic::div_mod::lemma_fundamental_div_mod(u64::MAX as int, bound);
    vstd::arithmetic::div_mod::lemma_mod_multiples_basic(q, bound);
    vstd::arithmetic::div_mod::lemma_div_multiples_vanish(q, bound);
    assert(q * bound == bound * q) by (nonlinear_arith);
    assert(t / bound == q);
    assert forall|j: int, m: int| 0 <= j < bound && 0 <= m < t / bound implies {
        let c = #[trigger] (j + m * bound);
        &&& 0 <= c < t
        &&& c % bound == j
        &&& c / bound == m
    } by {
        let c = j + m * bound;
        assert(m * bound <= (q - 1) * bound) by (nonlinear_arith)
            requires
                m <= q - 1,
                bound >= 1,
        ;
        assert(0 <= m * bound) by (nonlinear_arith)
            requires
                m >= 0,
                bound >= 1,
        ;
        assert(c == m * bound + j);
        vstd::arithmetic::div_mod::lemma_fundamental_div_mod_converse(c, bound, m, j);
        assert(c < t) by (nonlinear_arith)
            requires
                c == m * bound + j,
                m * bound <= (q - 1) * bound,
                j < bound,
                t == q * bound,
        ;
    }
    assert forall|c: int| 0 <= c < t implies 0 <= #[trigger] (c / bound) < t / bound by {
        vstd::arithmetic::div_mod::lemma_div_is_ordered(c, t, bound);
        vstd::arithmetic::div_mod::lemma_div_pos_is_pos(c, bound);
        if c / bound == q {
            vstd::arithmetic::div_mod::lemma_fundamental_div_mod(c, bound);
            assert(c >= q * bound) by (nonlinear_arith)
                requires
                    c == bound * (c / bound) + c % bound,
                    c / bound == q,
                    c % bound >= 0,
            ;
        }
    }
}

pub proof fn lemma_sample_index_in_range(seed: u64, pos: u64, attempt: u64)
    ensures
        0 <= sample_index(seed, pos, attempt) <= pos,
    decreases u64::MAX - attempt,
{
    let c = candidate(seed, pos, attempt);
    if !(c < threshold(pos as int + 1)) && attempt < u64::MAX {
        lemma_sample_index_in_range(seed, pos, (attempt + 1) as u64);
    }
}

/// `s` with the elements at `i` and `j` exchanged.
pub open spec fn swap(s: Seq<Card>, i: int, j: int) -> Seq<Card> {
    s.update(i, s[j]).update(j, s[i])
}

/// `s` after the Fisher-Yates steps for positions `i` down to 1.
pub open spec fn shuffle_down(s: Seq<Card>, seed: u64, i: int) -> Seq<Card>
    decreases i,
{
    if i < 1 {
        s
    } else {
        shuffle_down(swap(s, i, sample_index(seed, i as u64, 0)), seed, i - 1)
    }
}

/// The permutation of `s` that the shuffle with `seed` produces.
pub open spec fn shuffled(s: Seq<Card>, seed: u64) -> Seq<Card> {
    shuffle_down(s, seed, s.len() - 1)
}

fn candidate_of(seed: u64, pos: u64, attempt: u64) -> (r: u64)
    ensures
        r == candidate(seed, pos, attempt),
{
    let mut input = le_bytes_of(seed as u128, 8);
    let mut p = le_bytes_of(pos as u128, 8);
    let mut a = le_bytes_of(attempt as u128, 8);
    input.append(&mut p);
    input.append(&mut a);
    let digest = sha256(input.as_slice());
    le_value_of(digest.as_slice(), 8) as u64
}

/// Draws an index in `[0, pos]` uniformly by rejection sampling.
fn draw_index(seed: u64, pos: u64) -> (j: u64)
    requires
        pos < u64::MAX,
    ensures
        j == sample_index(seed, pos, 0),
        j <= pos,
{
    let bound: u64 = pos + 1;
    let q: u64 = u64::MAX / bound;
    assert(q * bound <= u64::MAX) by (nonlinear_arith)
        requires
            q == u64::MAX as int / bound as int,
            bound >= 1,
    ;
    let limit: u64 = q * bound;
    let mut attempt: u64 = 0;
    loop
        invariant
            bound == pos + 1,
            limit == threshold(bound as int),
            sample_index(seed, pos, 0) == sample_index(seed, pos, attempt),
        decreases u64::MAX - attempt,
    {
        let c = candidate_of(seed, pos, attempt);
        if c < limit {
            return c % bound;
        }
        if attempt == u64::MAX {
            return pos;
        }
        attempt = attempt + 1;
    }
}

/// Shuffles the deck in place: Fisher-Yates from the last position down to the second,
/// each swap partner drawn by `draw_index`. The result depends on the seed and the
/// deck alone.
pub fn shuffle_deck(deck: &mut Deck, seed: u64)
    ensures
        final(deck).cards@ == shuffled(old(deck).cards@, seed),
{
    let mut deck_len: usize = deck.cards.len();
    while deck_len > 1
        invariant
            deck_len <= deck.cards@.len(),
            shuffle_down(deck.cards@, seed, deck_len - 1) == shuffled(old(deck).cards@, seed),
        decreases deck_len,
    {
        deck_len = deck_len - 1;
        let j = draw_index(seed, deck_len as u64) as usize;
        let a = deck.cards[deck_len];
        let b = deck.cards[j];
        deck.cards[deck_len] = b;
        deck.cards[j] = a;
    }
}

pub proof fn lemma_swap_keeps_multiset(s: Seq<Card>, i: int, j: int)
    requires
        0 <= i < s.len(),
        0 <= j < s.len(),
    ensures
        swap(s, i, j).to_multiset() == s.to_multiset(),
        swap(s, i, j).len() == s.len(),
{
    broadcast use group_multiset_axioms;

    let m = s.to_multiset();
    let s1 = s.update(i, s[j]);
    let s2 = s1.update(j, s[i]);
    assert(s1[j] == s[j]);
    vstd::seq_lib::to_multiset_update(s, i, s[j]);
    vstd::seq_lib::to_multiset_update(s1, j, s[i]);
    vstd::seq_lib::to_multiset_contains(s, s[i]);
    vstd::seq_lib::to_multiset_contains(s1, s[j]);
    assert(s2.to_multiset() =~= m);
}

pub proof fn lemma_shuffle_down_permutes(s: Seq<Card>, seed: u64, i: int)
    requires
        i < s.len(),
    ensures
        shuffle_down(s, seed, i).to_multiset() == s.to_multiset(),
        shuffle_down(s, seed, i).len() == s.len(),
    decreases i,
{
    if i >= 1 {
        let j = sample_index(seed, i as u64, 0);
        lemma_sample_index_in_range(seed, i as u64, 0);
        lemma_swap_keeps_multiset(s, i, j);
        lemma_shuffle_down_permutes(swap(s, i, j), seed, i - 1);
    }
}

/// Shuffling permutes: the shuffled sequence holds each card exactly as often as the
/// input, so no card is lost or duplicated.
pub proof fn lemma_shuffle_is_permutation(s: Seq<Card>, seed: u64)
    ensures
        shuffled(s, seed).to_multiset() == s.to_multiset(),
        shuffled(s, seed).len() == s.len(),
{
    lemma_shuffle_down_permutes(s, seed, s.len() - 1);
}

/// Shuffling is deterministic: equal decks shuffled with the same seed come out equal.
pub proof fn lemma_shuffle_is_deterministic(a: Seq<Card>, b: Seq<Card>, seed: u64)
    requires
        a == b,
    ensures
        shuffled(a, seed) == shuffled(b, seed),
{
}

/// The canonical deck holds each of the 52 valid cards exactly once.
pub proof fn lemma_canonical_deck_distinct()
    ensures
        canonical_deck().no_duplicates(),
        forall|i: int| 0 <= i < 52 ==> (#[trigger] canonical_deck()[i]).is_valid(),
        forall|c: Card| c.is_valid() ==> canonical_deck().contains(c),
{
    let d = canonical_deck();
    assert forall|i: int| 0 <= i < 52 implies (#[trigger] d[i]).is_valid()
        && d[i].0 == (i / 13) * 16 + i % 13 + 1 by {
        let b = (i / 13) * 16 + i % 13 + 1;
        assert(0 <= i / 13 < 4 && 0 <= i % 13 < 13);
        assert(b / 16 == i / 13 && b % 16 == i % 13 + 1) by (nonlinear_arith)
            requires
                b == (i / 13) * 16 + i % 13 + 1,
                0 <= i % 13 < 13,
                0 <= i / 13 < 4,
        ;
    }
    assert forall|i: int, j: int| 0 <= i < 52 && 0 <= j < 52 && i != j implies d[i] != d[j] by {
        assert(d[i].0 == (i / 13) * 16 + i % 13 + 1);
        assert(d[j].0 == (j / 13) * 16 + j % 13 + 1);
        assert((i / 13) * 16 + i % 13 != (j / 13) * 16 + j % 13) by (nonlinear_arith)
            requires
                0 <= i < 52,
                0 <= j < 52,
                i != j,
        ;
    }
    assert forall|c: Card| c.is_valid() implies d.contains(c) by {
        let k = c.spec_suit() * 13 + c.spec_rank() - 1;
        assert(k / 13 == c.spec_suit() && k % 13 == c.spec_rank() - 1) by (nonlinear_arith)
            requires
                k == c.spec_suit() * 13 + c.spec_rank() - 1,
                1 <= c.spec_rank() <= 13,
        ;
        assert(d[k].0 == c.0);
    }
}

/// Shuffling a fresh deck yields each of the 52 valid cards exactly once.
pub proof fn lemma_shuffled_deck_is_complete(seed: u64)
    ensures
        shuffled(canonical_deck(), seed).len() == 52,
        shuffled(canonical_deck(), seed).to_multiset() == canonical_deck().to_multiset(),
        shuffled(canonical_deck(), seed).no_duplicates(),
        forall|c: Card| c.is_valid() ==> shuffled(canonical_deck(), seed).contains(c),
{
    broadcast use vstd::seq_lib::to_multiset_contains;

    let d = canonical_deck();
    let s = shuffled(d, seed);
    lemma_canonical_deck_distinct();
    lemma_shuffle_is_permutation(d, seed);
    d.lemma_multiset_has_no_duplicates();
    s.lemma_multiset_has_no_duplicates_conv();
    assert forall|c: Card| c.is_valid() implies s.contains(c) by {
        assert(d.to_multiset().count(c) > 0);
    }
}

} // verus!
