use vstd::prelude::*;

verus! {

/// 256 to the power `n`: the number of values an `n`-byte big-endian
/// unsigned integer can take.
pub open spec fn pow256(n: int) -> int
    decreases n,
{
    if n <= 0 {
        1
    } else {
        256 * pow256(n - 1)
    }
}

/// The unsigned big-endian integer held by the `n` bytes of `s` starting
/// at `i` (most significant byte first).
pub open spec fn be_int(s: Seq<u8>, i: int, n: int) -> int
    decreases n,
{
    if n <= 0 {
        0
    } else {
        be_int(s, i, n - 1) * 256 + s[i + n - 1]
    }
}

/// The value of an `n`-byte two's-complement integer whose unsigned
/// reading is `v`.
pub open spec fn signed_of(v: int, n: int) -> int {
    if v >= pow256(n) / 2 {
        v - pow256(n)
    } else {
        v
    }
}

pub proof fn lemma_pow256_pos(n: int)
    ensures
        pow256(n) >= 1,
    decreases n,
{
    if n > 0 {
        lemma_pow256_pos(n - 1);
    }
}

pub proof fn lemma_pow256_mono(a: int, b: int)
    requires
        a <= b,
    ensures
        pow256(a) <= pow256(b),
    decreases b - a,
{
    if a < b {
        lemma_pow256_mono(a, b - 1);
        lemma_pow256_pos(b - 1);
    }
}

pub proof fn lemma_pow256_values()
    ensures
        pow256(0) == 1,
        pow256(1) == 0x100,
        pow256(2) == 0x10000,
        pow256(3) == 0x1000000,
        pow256(4) == 0x100000000,
        pow256(5) == 0x10000000000,
        pow256(6) == 0x1000000000000,
        pow256(7) == 0x100000000000000,
        pow256(8) == 0x10000000000000000,
{
    assert(pow256(0) == 1);
    assert(pow256(1) == 0x100);
    assert(pow256(2) == 0x10000);
    assert(pow256(3) == 0x1000000);
    assert(pow256(4) == 0x100000000);
    assert(pow256(5) == 0x10000000000);
    assert(pow256(6) == 0x1000000000000);
    assert(pow256(7) == 0x100000000000000);
    assert(pow256(8) == 0x10000000000000000);
}

/// A big-endian number is bounded by 256 to its width.
pub proof fn lemma_be_int_bounds(s: Seq<u8>, i: int, n: int)
    requires
        0 <= i,
        n >= 0,
        i + n <= s.len(),
    ensures
        0 <= be_int(s, i, n) < pow256(n),
    decreases n,
{
    if n > 0 {
        lemma_be_int_bounds(s, i, n - 1);
    }
}

/// Reads a 2-byte big-endian unsigned integer.
pub fn read_be_u16(data: &[u8], off: usize) -> (r: u16)
    requires
        off + 2 <= data@.len(),
    ensures
        r as int == be_int(data@, off as int, 2),
{
    let b0 = data[off];
    let b1 = data[off + 1];
    proof {
        assert(be_int(data@, off as int, 0) == 0);
        assert(be_int(data@, off as int, 1) == be_int(data@, off as int, 0) * 256 + data@[off
            as int]);
        assert(be_int(data@, off as int, 2) == be_int(data@, off as int, 1) * 256 + data@[off
            + 1]);
    }
    (b0 as u16) * 256 + (b1 as u16)
}

/// Reads a 4-byte big-endian unsigned integer.
pub fn read_be_u32(data: &[u8], off: usize) -> (r: u32)
    requires
        off + 4 <= data@.len(),
    ensures
        r as int == be_int(data@, off as int, 4),
{
    let b0 = data[off];
    let b1 = data[off + 1];
    let b2 = data[off + 2];
    let b3 = data[off + 3];
    proof {
        assert(be_int(data@, off as int, 0) == 0);
        assert(be_int(data@, off as int, 1) == be_int(data@, off as int, 0) * 256 + data@[off
            as int]);
        assert(be_int(data@, off as int, 2) == be_int(data@, off as int, 1) * 256 + data@[off
            + 1]);
        assert(be_int(data@, off as int, 3) == be_int(data@, off as int, 2) * 256 + data@[off
            + 2]);
        assert(be_int(data@, off as int, 4) == be_int(data@, off as int, 3) * 256 + data@[off
            + 3]);
    }
    (b0 as u32) * 0x1000000 + (b1 as u32) * 0x10000 + (b2 as u32) * 0x100 + (b3 as u32)
}

/// Reads an `n`-byte big-endian unsigned integer, `n` at most 8.
pub fn read_be_uint(data: &[u8], off: usize, n: usize) -> (r: u64)
    requires
        n <= 8,
        off + n <= data@.len(),
    ensures
        r as int == be_int(data@, off as int, n as int),
{
    proof {
        lemma_pow256_values();
    }
    let dlen = data.len();
    let mut acc: u64 = 0;
    let mut k: usize = 0;
    while k < n
        invariant
            k <= n <= 8,
            off + n <= dlen,
            dlen == data@.len(),
            acc as int == be_int(data@, off as int, k as int),
            (acc as int) < pow256(k as int),
        decreases n - k,
    {
        proof {
            lemma_pow256_mono(k as int, 7);
        }
        acc = acc * 256 + (data[off + k] as u64);
        k = k + 1;
    }
    acc
}

/// Reads an `n`-byte big-endian two's-complement integer, `n` between
/// 1 and 8, sign-extending from its top bit.
pub fn read_be_sint(data: &[u8], off: usize, n: usize) -> (r: i64)
    requires
        1 <= n <= 8,
        off + n <= data@.len(),
    ensures
        r as int == signed_of(be_int(data@, off as int, n as int), n as int),
{
    proof {
        lemma_pow256_values();
        lemma_be_int_bounds(data@, off as int, n as int);
    }
    let u = read_be_uint(data, off, n);
    if n == 8 {
        if u >= 0x8000000000000000 {
            ((u - 0x8000000000000000) as i64) + i64::MIN
        } else {
            u as i64
        }
    } else {
        let full: u64 = match n {
            1 => 0x100,
            2 => 0x10000,
            3 => 0x1000000,
            4 => 0x100000000,
            5 => 0x10000000000,
            6 => 0x1000000000000,
            _ => 0x100000000000000,
        };
        if u >= full / 2 {
            -((full - u) as i64)
        } else {
            u as i64
        }
    }
}

} // verus!
