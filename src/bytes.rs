//! Little-endian byte encodings of unsigned integers.
use vstd::prelude::*;

verus! {

/// `256` raised to the power `k`.
pub open spec fn pow256(k: nat) -> nat
    decreases k,
{
    if k == 0 {
        1
    } else {
        256 * pow256((k - 1) as nat)
    }
}

/// The value of a little-endian byte string: its first byte is the least significant.
pub open spec fn le_value(s: Seq<u8>) -> nat
    decreases s.len(),
{
    if s.len() == 0 {
        0
    } else {
        s[0] as nat + 256 * le_value(s.subrange(1, s.len() as int))
    }
}

/// The `n` least significant bytes of `x`, least significant first.
pub open spec fn le_bytes(x: nat, n: nat) -> Seq<u8>
    decreases n,
{
    if n == 0 {
        Seq::empty()
    } else {
        seq![(x % 256) as u8] + le_bytes(x / 256, (n - 1) as nat)
    }
}

pub proof fn lemma_le_value_bound(s: Seq<u8>)
    ensures
        le_value(s) < pow256(s.len()),
    decreases s.len(),
{
    if s.len() > 0 {
        let t = s.subrange(1, s.len() as int);
        lemma_le_value_bound(t);
        assert(le_value(s) < pow256(s.len())) by (nonlinear_arith)
            requires
                le_value(s) == s[0] as nat + 256 * le_value(t),
                le_value(t) < pow256(t.len()),
                s[0] < 256,
                pow256(s.len()) == 256 * pow256(t.len()),
        ;
    }
}

pub proof fn lemma_pow256_monotonic(a: nat, b: nat)
    requires
        a <= b,
    ensures
        pow256(a) <= pow256(b),
    decreases b,
{
    if a < b {
        lemma_pow256_monotonic(a, (b - 1) as nat);
    }
}

pub proof fn lemma_pow256_16()
    ensures
        pow256(16) == 0x1_0000_0000_0000_0000_0000_0000_0000_0000,
{
    reveal_with_fuel(pow256, 17);
}

/// The `n` least significant bytes of `x`, least significant first.
pub fn le_bytes_of(x: u128, n: usize) -> (r: Vec<u8>)
    ensures
        r@ == le_bytes(x as nat, n as nat),
{
    let mut r: Vec<u8> = Vec::new();
    let mut y: u128 = x;
    let mut i: usize = 0;
    while i < n
        invariant
            i <= n,
            r@ + le_bytes(y as nat, (n - i) as nat) == le_bytes(x as nat, n as nat),
        decreases n - i,
    {
        let b: u8 = (y % 256) as u8;
        proof {
            assert(r@.push(b) + le_bytes((y / 256) as nat, (n - i - 1) as nat) =~= r@ + le_bytes(
                y as nat,
                (n - i) as nat,
            ));
        }
        r.push(b);
        y = y / 256;
        i = i + 1;
    }
    assert(r@ + le_bytes(y as nat, 0) =~= r@);
    r
}

/// The little-endian value of the first `n` bytes of `s`.
pub fn le_value_of(s: &[u8], n: usize) -> (r: u128)
    requires
        n <= 16,
        n <= s@.len(),
    ensures
        r as nat == le_value(s@.subrange(0, n as int)),
        (r as nat) < pow256(n as nat),
{
    let mut acc: u128 = 0;
    let mut i: usize = n;
    assert(s@.subrange(n as int, n as int) =~= Seq::<u8>::empty());
    while i > 0
        invariant
            i <= n <= 16,
            n <= s@.len(),
            acc as nat == le_value(s@.subrange(i as int, n as int)),
        decreases i,
    {
        let ghost t = s@.subrange(i as int, n as int);
        let ghost u = s@.subrange(i - 1, n as int);
        proof {
            assert(u.subrange(1, u.len() as int) =~= t);
            lemma_le_value_bound(u);
            lemma_pow256_monotonic(u.len(), 16);
            lemma_pow256_16();
        }
        acc = (s[i - 1] as u128) + 256 * acc;
        i = i - 1;
    }
    proof {
        lemma_le_value_bound(s@.subrange(0, n as int));
    }
    acc
}

} // verus!
