//! Big-endian integer fields, the building block of every frame on the wire.
//!
//! A field of `n` bytes stands for a value below `pow256(n)`; `be_bytes`
//! renders a value as bytes, `be_val` reads bytes back, and the lemmas here
//! show the two are inverse to each other.
use vstd::prelude::*;

verus! {

/// 256^n: the number of distinct values an n-byte field can carry.
pub open spec fn pow256(n: nat) -> nat
    decreases n,
{
    if n == 0 {
        1
    } else {
        256 * pow256((n - 1) as nat)
    }
}

/// The n-byte big-endian rendering of x (truncated to its low n bytes).
pub open spec fn be_bytes(x: nat, n: nat) -> Seq<u8>
    decreases n,
{
    if n == 0 {
        Seq::empty()
    } else {
        be_bytes(x / 256, (n - 1) as nat).push((x % 256) as u8)
    }
}

/// The value a big-endian byte string stands for.
pub open spec fn be_val(s: Seq<u8>) -> nat
    decreases s.len(),
{
    if s.len() == 0 {
        0
    } else {
        (be_val(s.drop_last()) * 256 + s.last()) as nat
    }
}

/// Shorthand for the 2-byte rendering of a u16 field.
pub open spec fn be16(x: u16) -> Seq<u8> {
    be_bytes(x as nat, 2)
}

/// Shorthand for the 4-byte rendering of a u32 field.
pub open spec fn be32(x: u32) -> Seq<u8> {
    be_bytes(x as nat, 4)
}

/// Shorthand for the 8-byte rendering of a u64 field.
pub open spec fn be64(x: u64) -> Seq<u8> {
    be_bytes(x as nat, 8)
}

pub proof fn lemma_pow256_mono(a: nat, b: nat)
    requires
        a <= b,
    ensures
        pow256(a) <= pow256(b),
    decreases b,
{
    if a < b {
        lemma_pow256_mono(a, (b - 1) as nat);
    }
}

pub proof fn lemma_be_bytes_len(x: nat, n: nat)
    ensures
        be_bytes(x, n).len() == n,
    decreases n,
{
    if n > 0 {
        lemma_be_bytes_len(x / 256, (n - 1) as nat);
    }
}

pub proof fn lemma_be_val_bound(s: Seq<u8>)
    ensures
        be_val(s) < pow256(s.len()),
    decreases s.len(),
{
    if s.len() > 0 {
        lemma_be_val_bound(s.drop_last());
    }
}

/// Reading back the rendering of a value in range gives the value itself.
pub proof fn lemma_be_val_of_bytes(x: nat, n: nat)
    requires
        x < pow256(n),
    ensures
        be_val(be_bytes(x, n)) == x,
    decreases n,
{
    if n > 0 {
        let rest = be_bytes(x / 256, (n - 1) as nat);
        lemma_be_bytes_len(x / 256, (n - 1) as nat);
        assert(rest.push((x % 256) as u8).drop_last() =~= rest);
        lemma_be_val_of_bytes(x / 256, (n - 1) as nat);
    }
}

/// Rendering the value a byte string stands for gives the string back.
pub proof fn lemma_be_bytes_of_val(s: Seq<u8>)
    ensures
        be_bytes(be_val(s), s.len()) == s,
    decreases s.len(),
{
    if s.len() > 0 {
        let d = s.drop_last();
        let v = be_val(s);
        assert(v == be_val(d) * 256 + s.last());
        assert(v % 256 == s.last() && v / 256 == be_val(d)) by (nonlinear_arith)
            requires
                v == be_val(d) * 256 + s.last(),
                0 <= s.last() < 256,
        ;
        lemma_be_bytes_of_val(d);
        assert(be_bytes(v, s.len()) =~= s);
    }
}

/// Appends the n-byte big-endian rendering of x to out.
pub fn push_be_bytes(out: &mut Vec<u8>, x: u64, n: usize)
    ensures
        final(out)@ == old(out)@ + be_bytes(x as nat, n as nat),
    decreases n,
{
    if n > 0 {
        push_be_bytes(out, x / 256, n - 1);
        out.push((x % 256) as u8);
        proof {
            assert(final(out)@ =~= old(out)@ + be_bytes(x as nat, n as nat));
        }
    } else {
        proof {
            assert(final(out)@ =~= old(out)@ + be_bytes(x as nat, 0));
        }
    }
}

/// Appends the 2-byte rendering of a u16 field.
pub fn push_be_u16(out: &mut Vec<u8>, x: u16)
    ensures
        final(out)@ == old(out)@ + be16(x),
{
    push_be_bytes(out, x as u64, 2);
}

/// Appends the 4-byte rendering of a u32 field.
pub fn push_be_u32(out: &mut Vec<u8>, x: u32)
    ensures
        final(out)@ == old(out)@ + be32(x),
{
    push_be_bytes(out, x as u64, 4);
}

/// Appends the 8-byte rendering of a u64 field.
pub fn push_be_u64(out: &mut Vec<u8>, x: u64)
    ensures
        final(out)@ == old(out)@ + be64(x),
{
    push_be_bytes(out, x, 8);
}

/// Appends a copy of the bytes of `src` to `out`.
pub fn extend_bytes(out: &mut Vec<u8>, src: &[u8])
    ensures
        final(out)@ == old(out)@ + src@,
{
    let n: usize = src.len();
    let mut i: usize = 0;
    while i < n
        invariant
            i <= n,
            n == src@.len(),
            out@ == old(out)@ + src@.subrange(0, i as int),
        decreases n - i,
    {
        let b = *vstd::slice::slice_index_get(src, i);
        out.push(b);
        proof {
            assert(out@ =~= old(out)@ + src@.subrange(0, i as int + 1));
        }
        i = i + 1;
    }
    proof {
        assert(old(out)@ + src@.subrange(0, n as int) =~= old(out)@ + src@);
    }
}

/// Reads the value of the n-byte big-endian field at `start`.
pub fn be_val_at(buf: &[u8], start: usize, n: usize) -> (r: u64)
    requires
        start + n <= buf@.len(),
        n <= 8,
    ensures
        r as nat == be_val(buf@.subrange(start as int, start as int + n as int)),
{
    proof {
        reveal_with_fuel(pow256, 9);
    }
    let buf_len: usize = buf.len();
    let mut val: u64 = 0;
    let mut k: usize = 0;
    while k < n
        invariant
            k <= n,
            n <= 8,
            start + n <= buf_len,
            buf_len == buf@.len(),
            val as nat == be_val(buf@.subrange(start as int, start as int + k as int)),
            (val as nat) < pow256(k as nat),
            pow256(8) == 0x1_0000_0000_0000_0000,
        decreases n - k,
    {
        let b = *vstd::slice::slice_index_get(buf, start + k);
        proof {
            let pre = buf@.subrange(start as int, start as int + k as int);
            assert(buf@.subrange(start as int, start as int + k as int + 1) =~= pre.push(b));
            assert(pre.push(b).drop_last() =~= pre);
            lemma_pow256_mono((k + 1) as nat, 8);
        }
        val = val * 256 + (b as u64);
        k = k + 1;
    }
    val
}

/// Reads the 2-byte field at i; the field is the rendering of the result.
pub fn be_u16_at(buf: &[u8], i: usize) -> (r: u16)
    requires
        i + 2 <= buf@.len(),
    ensures
        r as nat == be_val(buf@.subrange(i as int, i as int + 2)),
        be16(r) == buf@.subrange(i as int, i as int + 2),
{
    let v = be_val_at(buf, i, 2);
    proof {
        let s = buf@.subrange(i as int, i as int + 2);
        lemma_be_val_bound(s);
        reveal_with_fuel(pow256, 3);
        lemma_be_bytes_of_val(s);
    }
    v as u16
}

/// Reads the 4-byte field at i; the field is the rendering of the result.
pub fn be_u32_at(buf: &[u8], i: usize) -> (r: u32)
    requires
        i + 4 <= buf@.len(),
    ensures
        r as nat == be_val(buf@.subrange(i as int, i as int + 4)),
        be32(r) == buf@.subrange(i as int, i as int + 4),
{
    let v = be_val_at(buf, i, 4);
    proof {
        let s = buf@.subrange(i as int, i as int + 4);
        lemma_be_val_bound(s);
        reveal_with_fuel(pow256, 5);
        lemma_be_bytes_of_val(s);
    }
    v as u32
}

/// Reads the 8-byte field at i; the field is the rendering of the result.
pub fn be_u64_at(buf: &[u8], i: usize) -> (r: u64)
    requires
        i + 8 <= buf@.len(),
    ensures
        r as nat == be_val(buf@.subrange(i as int, i as int + 8)),
        be64(r) == buf@.subrange(i as int, i as int + 8),
{
    let v = be_val_at(buf, i, 8);
    proof {
        let s = buf@.subrange(i as int, i as int + 8);
        lemma_be_val_bound(s);
        lemma_be_bytes_of_val(s);
    }
    v
}

} // verus!
