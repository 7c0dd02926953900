use vstd::prelude::*;

verus! {

/// The little-endian 16-bit integer stored at byte offset `off`.
pub open spec fn spec_le_u16(b: Seq<u8>, off: int) -> u16 {
    (b[off] as int + b[off + 1] as int * 0x100) as u16
}

/// The little-endian 32-bit integer stored at byte offset `off`.
pub open spec fn spec_le_u32(b: Seq<u8>, off: int) -> u32 {
    (b[off] as int + b[off + 1] as int * 0x100 + b[off + 2] as int * 0x10000 + b[off
        + 3] as int * 0x1000000) as u32
}

pub fn read_u16_le(bytes: &[u8], off: usize) -> (r: u16)
    requires
        off + 2 <= bytes@.len(),
    ensures
        r == spec_le_u16(bytes@, off as int),
{
    let lo = bytes[off] as u16;
    let hi = bytes[off + 1] as u16;
    lo + hi * 0x100
}

pub fn read_u32_le(bytes: &[u8], off: usize) -> (r: u32)
    requires
        off + 4 <= bytes@.len(),
    ensures
        r == spec_le_u32(bytes@, off as int),
{
    let b0 = bytes[off] as u32;
    let b1 = bytes[off + 1] as u32;
    let b2 = bytes[off + 2] as u32;
    let b3 = bytes[off + 3] as u32;
    b0 + b1 * 0x100 + b2 * 0x10000 + b3 * 0x1000000
}

/// Index of the first null byte of `b`, or `b.len()` when none occurs.
pub open spec fn spec_first_nul(b: Seq<u8>) -> int
    decreases b.len(),
{
    if b.len() == 0 {
        0
    } else if b[0] == 0 {
        0
    } else {
        1 + spec_first_nul(b.subrange(1, b.len() as int))
    }
}

/// `b` cut at its first null byte: the decoded form of a fixed-size,
/// null-terminated name buffer.
pub open spec fn spec_trunc_nul(b: Seq<u8>) -> Seq<u8> {
    b.take(spec_first_nul(b))
}

pub proof fn lemma_first_nul_bounds(b: Seq<u8>)
    ensures
        0 <= spec_first_nul(b) <= b.len(),
        forall|k: int| 0 <= k < spec_first_nul(b) ==> b[k] != 0,
        spec_first_nul(b) < b.len() ==> b[spec_first_nul(b)] == 0,
    decreases b.len(),
{
    if b.len() == 0 {
    } else if b[0] == 0 {
    } else {
        let t = b.subrange(1, b.len() as int);
        lemma_first_nul_bounds(t);
        assert forall|k: int| 0 <= k < spec_first_nul(b) implies b[k] != 0 by {
            if k > 0 {
                assert(t[k - 1] != 0);
            }
        }
    }
}

/// A decoded name holds no embedded null byte: it is the original
/// fixed-size buffer cut at its first null, and the longest such prefix.
pub proof fn lemma_name_no_nul(buf: Seq<u8>)
    ensures
        spec_trunc_nul(buf).len() <= buf.len(),
        forall|k: int| 0 <= k < spec_trunc_nul(buf).len() ==> spec_trunc_nul(buf)[k] != 0,
        spec_trunc_nul(buf).len() < buf.len() ==> buf[spec_trunc_nul(buf).len() as int] == 0,
{
    lemma_first_nul_bounds(buf);
}

/// Reads the name stored in `bytes[off .. off + n]`, cut at the first
/// null byte.
pub fn read_name(bytes: &[u8], off: usize, n: usize) -> (r: Vec<u8>)
    requires
        off + n <= bytes@.len(),
    ensures
        r@ == spec_trunc_nul(bytes@.subrange(off as int, off + n)),
{
    let ghost seg = bytes@.subrange(off as int, off + n);
    proof {
        lemma_first_nul_bounds(seg);
    }
    let total: usize = bytes.len();
    let mut out: Vec<u8> = Vec::new();
    let mut i: usize = 0;
    while i < n
        invariant
            off + n <= bytes@.len(),
            bytes@.len() == total,
            seg == bytes@.subrange(off as int, off + n),
            i <= n,
            i <= spec_first_nul(seg),
            out@ == seg.take(i as int),
        decreases n - i,
    {
        let c = bytes[off + i];
        proof {
            assert(seg[i as int] == bytes@[off + i]);
            lemma_first_nul_bounds(seg);
        }
        if c == 0 {
            proof {
                // the first null is not past i, and not before it either
                assert(spec_first_nul(seg) == i);
            }
            return out;
        }
        out.push(c);
        proof {
            // seg[i] != 0, so the first null lies strictly past i
            assert(spec_first_nul(seg) != i);
            assert(seg.take(i + 1) == seg.take(i as int).push(seg[i as int]));
        }
        i = i + 1;
    }
    proof {
        assert(spec_first_nul(seg) == n) by {
            lemma_first_nul_bounds(seg);
        }
    }
    out
}

} // verus!
