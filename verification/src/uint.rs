//! Unsigned integers written as fixed-length byte sequences.
use vstd::prelude::*;

verus! {

/// `256` raised to `n`.
pub open spec fn pow256(n: nat) -> nat
    decreases n,
{
    if n == 0 {
        1
    } else {
        256 * pow256((n - 1) as nat)
    }
}

/// The value of bytes read most significant first.
pub open spec fn be_value(b: Seq<u8>) -> nat
    decreases b.len(),
{
    if b.len() == 0 {
        0
    } else {
        be_value(b.drop_last()) * 256 + b.last() as nat
    }
}

/// The value of bytes read least significant first.
pub open spec fn le_value(b: Seq<u8>) -> nat
    decreases b.len(),
{
    if b.len() == 0 {
        0
    } else {
        b[0] as nat + 256 * le_value(b.drop_first())
    }
}

/// The value of bytes in the given order.
pub open spec fn uint_value(b: Seq<u8>, big_endian: bool) -> nat {
    if big_endian {
        be_value(b)
    } else {
        le_value(b)
    }
}

pub proof fn lemma_pow256_facts(n: nat)
    ensures
        pow256(n) >= 1,
        n <= 8 ==> pow256(n) <= pow256(8),
        pow256(8) == 0x1_0000_0000_0000_0000,
        pow256(1) == 0x100,
        pow256(2) == 0x1_0000,
        pow256(3) == 0x100_0000,
        pow256(4) == 0x1_0000_0000,
    decreases n,
{
    reveal_with_fuel(pow256, 9);
    if n > 0 {
        lemma_pow256_facts((n - 1) as nat);
        if n <= 8 {
            lemma_pow256_mono((n - 1) as nat);
        }
    }
}

proof fn lemma_pow256_mono(n: nat)
    requires
        n < 8,
    ensures
        pow256(n + 1) <= pow256(8),
    decreases 8 - n,
{
    reveal_with_fuel(pow256, 9);
    if n < 7 {
        lemma_pow256_mono(n + 1);
        assert(pow256(n + 2) == 256 * pow256(n + 1));
        lemma_pow256_positive(n + 1);
    }
}

proof fn lemma_pow256_positive(n: nat)
    ensures
        pow256(n) >= 1,
    decreases n,
{
    if n > 0 {
        lemma_pow256_positive((n - 1) as nat);
    }
}

/// A value read from `n` bytes is less than `256^n`.
pub proof fn lemma_be_bound(b: Seq<u8>)
    ensures
        be_value(b) < pow256(b.len()),
    decreases b.len(),
{
    if b.len() > 0 {
        lemma_be_bound(b.drop_last());
        let v = be_value(b.drop_last());
        let p = pow256(b.drop_last().len());
        assert(v * 256 + (b.last() as nat) < 256 * p) by (nonlinear_arith)
            requires
                v < p,
                b.last() < 256,
        ;
    }
}

/// A value read from `n` bytes is less than `256^n`.
pub proof fn lemma_le_bound(b: Seq<u8>)
    ensures
        le_value(b) < pow256(b.len()),
    decreases b.len(),
{
    if b.len() > 0 {
        lemma_le_bound(b.drop_first());
        let v = le_value(b.drop_first());
        let p = pow256(b.drop_first().len());
        assert(b[0] as nat + 256 * v < 256 * p) by (nonlinear_arith)
            requires
                v < p,
                b[0] < 256,
        ;
    }
}

/// Putting a byte in front of a big-endian number adds it at the top.
pub proof fn lemma_be_prepend(b: u8, s: Seq<u8>)
    ensures
        be_value(seq![b] + s) == b as nat * pow256(s.len()) + be_value(s),
    decreases s.len(),
{
    let t = seq![b] + s;
    if s.len() == 0 {
        assert(t.drop_last() =~= Seq::<u8>::empty());
        assert(t.last() == b);
        assert(be_value(t) == be_value(t.drop_last()) * 256 + b as nat);
        assert(pow256(0) == 1);
    } else {
        lemma_be_prepend(b, s.drop_last());
        assert(t.drop_last() =~= seq![b] + s.drop_last());
        assert(t.last() == s.last());
        assert(pow256(s.len()) == 256 * pow256(s.drop_last().len()));
        let p = pow256(s.drop_last().len());
        let r = be_value(s.drop_last());
        assert((b as nat * p + r) * 256 + s.last() as nat == b as nat * (256 * p) + (r * 256
            + s.last() as nat)) by (nonlinear_arith);
    }
}

/// Appending a byte to a little-endian number adds it at the top.
pub proof fn lemma_le_push(s: Seq<u8>, b: u8)
    ensures
        le_value(s.push(b)) == le_value(s) + pow256(s.len()) * b as nat,
    decreases s.len(),
{
    if s.len() == 0 {
        assert(s.push(b).drop_first() =~= Seq::<u8>::empty());
        assert(s.push(b)[0] == b);
        assert(le_value(s.push(b)) == b as nat + 256 * le_value(s.push(b).drop_first()));
        assert(pow256(0) == 1);
    } else {
        lemma_le_push(s.drop_first(), b);
        assert(s.push(b).drop_first() =~= s.drop_first().push(b));
        assert(s.push(b)[0] == s[0]);
        assert(pow256(s.len()) == 256 * pow256(s.drop_first().len()));
        let p = pow256(s.drop_first().len());
        let r = le_value(s.drop_first());
        assert(s[0] as nat + 256 * (r + p * b as nat) == (s[0] as nat + 256 * r) + (256 * p) * b as nat)
            by (nonlinear_arith);
    }
}

/// Reads `n` bytes at `start`, most significant first when `big_endian`.
pub fn read_uint(b: &[u8], start: usize, n: usize, big_endian: bool) -> (v: u64)
    requires
        n <= 8,
        start + n <= b@.len(),
    ensures
        v as nat == uint_value(b@.subrange(start as int, start + n), big_endian),
{
    proof {
        lemma_pow256_facts(8);
    }
    let len = b.len();
    let mut v: u64 = 0;
    if big_endian {
        let mut i: usize = 0;
        assert(b@.subrange(start as int, start as int) =~= Seq::<u8>::empty());
        while i < n
            invariant
                0 <= i <= n <= 8,
                start + n <= b@.len(),
                len == b@.len(),
                v as nat == be_value(b@.subrange(start as int, start + i)),
                pow256(8) == 0x1_0000_0000_0000_0000,
            decreases n - i,
        {
            proof {
                let pre = b@.subrange(start as int, start + i);
                lemma_be_bound(pre);
                lemma_pow256_facts(i as nat);
                lemma_pow256_mono(i as nat);
                assert(b@.subrange(start as int, start + i + 1).drop_last() =~= pre);
                assert(v * 256 + 255 < 0x1_0000_0000_0000_0000) by (nonlinear_arith)
                    requires
                        v < pow256(i as nat),
                        256 * pow256(i as nat) <= 0x1_0000_0000_0000_0000,
                ;
            }
            v = v * 256 + b[start + i] as u64;
            i = i + 1;
        }
    } else {
        let mut i: usize = n;
        assert(b@.subrange(start + n, start + n) =~= Seq::<u8>::empty());
        while i > 0
            invariant
                0 <= i <= n <= 8,
                start + n <= b@.len(),
                len == b@.len(),
                v as nat == le_value(b@.subrange(start + i, start + n)),
                pow256(8) == 0x1_0000_0000_0000_0000,
            decreases i,
        {
            proof {
                let post = b@.subrange(start + i, start + n);
                lemma_le_bound(post);
                lemma_pow256_facts((n - i) as nat);
                lemma_pow256_mono((n - i) as nat);
                assert(b@.subrange(start + i - 1, start + n).drop_first() =~= post);
                assert(v * 256 + 255 < 0x1_0000_0000_0000_0000) by (nonlinear_arith)
                    requires
                        v < pow256((n - i) as nat),
                        256 * pow256((n - i) as nat) <= 0x1_0000_0000_0000_0000,
                ;
            }
            v = b[start + i - 1] as u64 + v * 256;
            i = i - 1;
        }
    }
    v
}

/// The `n` bytes of `v`, most significant first when `big_endian`.
pub fn uint_bytes(v: u64, n: usize, big_endian: bool) -> (out: Vec<u8>)
    requires
        n <= 8,
        (v as nat) < pow256(n as nat),
    ensures
        out@.len() == n,
        uint_value(out@, big_endian) == v,
{
    let mut out: Vec<u8> = Vec::new();
    let mut cur = v;
    let mut i: usize = 0;
    assert(pow256(0) == 1);
    assert(be_value(out@) == 0 && le_value(out@) == 0);
    while i < n
        invariant
            0 <= i <= n <= 8,
            out@.len() == i,
            big_endian ==> be_value(out@) + pow256(i as nat) * cur == v,
            !big_endian ==> le_value(out@) + pow256(i as nat) * cur == v,
        decreases n - i,
    {
        let byte = (cur % 256) as u8;
        let next = cur / 256;
        proof {
            let p = pow256(i as nat);
            assert(p * cur == p * byte + (256 * p) * next && byte as nat * p == p * byte) by (nonlinear_arith)
                requires
                    byte == cur % 256,
                    next == cur / 256,
            ;
            assert(pow256((i + 1) as nat) == 256 * p);
            if big_endian {
                lemma_be_prepend(byte, out@);
            } else {
                lemma_le_push(out@, byte);
            }
        }
        let ghost before = out@;
        if big_endian {
            out.insert(0, byte);
            assert(out@ =~= seq![byte] + before);
        } else {
            out.push(byte);
        }
        cur = next;
        i = i + 1;
    }
    proof {
        let p = pow256(n as nat);
        lemma_pow256_positive(n as nat);
        if cur > 0 {
            assert(p * cur >= p) by (nonlinear_arith)
                requires
                    cur >= 1,
                    p >= 1,
            ;
        }
        if big_endian {
            assert(out@ =~= out@);
        }
    }
    out
}

} // verus!
