use vstd::prelude::*;

use crate::error::Error;

verus! {

/// 128 to the power `n`: the number of values `n` 7-bit payload groups
/// can carry.
pub open spec fn pow128(n: int) -> int
    decreases n,
{
    if n <= 0 {
        1
    } else {
        128 * pow128(n - 1)
    }
}

/// One step of varint decoding. `k` bytes were already consumed, each with
/// its continuation (high) bit set; `s` is the remaining input and `acc`
/// the payload bits read so far. Yields the decoded value and the total
/// number of bytes consumed, or `None` when the input ends first.
///
/// For each of the first 8 candidate bytes the high bit is a continuation
/// flag and the low 7 bits are payload, most significant group first; if
/// all 8 have the flag set, a 9th byte contributes its full 8 bits.
pub open spec fn varint_rec(s: Seq<u8>, k: int, acc: int) -> Option<(int, int)>
    decreases 9 - k,
{
    if s.len() == 0 {
        None
    } else if k >= 8 {
        Some((acc * 256 + s[0], 9))
    } else if s[0] < 128 {
        Some((acc * 128 + s[0], k + 1))
    } else {
        varint_rec(s.skip(1), k + 1, acc * 128 + (s[0] - 128))
    }
}

/// The value and consumed length of the varint at the start of `s`,
/// or `None` when `s` is exhausted before the encoding terminates.
pub open spec fn spec_varint(s: Seq<u8>) -> Option<(int, int)> {
    varint_rec(s, 0, 0)
}

pub proof fn lemma_pow128_pos(n: int)
    ensures
        pow128(n) >= 1,
    decreases n,
{
    if n > 0 {
        lemma_pow128_pos(n - 1);
    }
}

pub proof fn lemma_pow128_mono(a: int, b: int)
    requires
        a <= b,
    ensures
        pow128(a) <= pow128(b),
    decreases b - a,
{
    if a < b {
        lemma_pow128_mono(a, b - 1);
        lemma_pow128_pos(b - 1);
    }
}

pub proof fn lemma_pow128_values()
    ensures
        pow128(0) == 1,
        pow128(1) == 0x80,
        pow128(2) == 0x4000,
        pow128(3) == 0x200000,
        pow128(4) == 0x10000000,
        pow128(5) == 0x800000000,
        pow128(6) == 0x40000000000,
        pow128(7) == 0x2000000000000,
        pow128(8) == 0x100000000000000,
{
    assert(pow128(0) == 1);
    assert(pow128(1) == 0x80);
    assert(pow128(2) == 0x4000);
    assert(pow128(3) == 0x200000);
    assert(pow128(4) == 0x10000000);
    assert(pow128(5) == 0x800000000);
    assert(pow128(6) == 0x40000000000);
    assert(pow128(7) == 0x2000000000000);
    assert(pow128(8) == 0x100000000000000);
}

/// Decodes the varint at the start of `input`: the decoded value and how
/// many bytes it occupied. Fails exactly when the input is exhausted
/// before the encoding terminates.
pub fn varint(input: &[u8]) -> (r: Result<(u64, usize), Error>)
    ensures
        match r {
            Ok((v, n)) => {
                &&& spec_varint(input@) == Some((v as int, n as int))
                &&& 1 <= n <= 9
                &&& n <= input@.len()
            },
            Err(e) => e == Error::Truncated && spec_varint(input@) is None,
        },
{
    proof {
        lemma_pow128_values();
    }
    let len = input.len();
    let mut acc: u64 = 0;
    let mut k: usize = 0;
    proof {
        assert(input@.skip(0) =~= input@);
    }
    while k < 8
        invariant
            k <= 8,
            k <= len,
            len == input@.len(),
            (acc as int) < pow128(k as int),
            varint_rec(input@.skip(k as int), k as int, acc as int) == spec_varint(input@),
        decreases 8 - k,
    {
        if k >= len {
            proof {
                assert(input@.skip(k as int).len() == 0);
            }
            return Err(Error::Truncated);
        }
        let b = input[k];
        proof {
            lemma_pow128_mono(k as int, 7);
            assert(input@.skip(k as int)[0] == input@[k as int]);
        }
        if b < 128 {
            return Ok((acc * 128 + (b as u64), k + 1));
        }
        acc = acc * 128 + ((b - 128) as u64);
        proof {
            assert(input@.skip(k as int).skip(1) =~= input@.skip(k as int + 1));
        }
        k = k + 1;
    }
    if len <= 8 {
        proof {
            assert(input@.skip(8).len() == 0);
        }
        return Err(Error::Truncated);
    }
    proof {
        assert(input@.skip(8)[0] == input@[8]);
    }
    Ok((acc * 256 + (input[8] as u64), 9))
}

/// Exactly `n` continuation-flagged bytes carrying the 7-bit groups of
/// `x`, most significant group first.
pub open spec fn groups7(x: int, n: nat) -> Seq<u8>
    decreases n,
{
    if n == 0 {
        seq![]
    } else {
        groups7(x / 128, (n - 1) as nat) + seq![(128 + x % 128) as u8]
    }
}

/// The canonical encoded length of `v`: 1 byte per started 7-bit group,
/// at most 9.
pub open spec fn varint_size(v: u64) -> int {
    if v < 0x80 {
        1
    } else if v < 0x4000 {
        2
    } else if v < 0x200000 {
        3
    } else if v < 0x10000000 {
        4
    } else if v < 0x800000000 {
        5
    } else if v < 0x40000000000 {
        6
    } else if v < 0x2000000000000 {
        7
    } else if v < 0x100000000000000 {
        8
    } else {
        9
    }
}

/// The canonical encoding of `v`: its 7-bit groups, flagged but for the
/// last byte; a 9-byte encoding ends in a full 8-bit byte instead.
pub open spec fn spec_encode(v: u64) -> Seq<u8> {
    if varint_size(v) <= 8 {
        groups7(v as int / 128, (varint_size(v) - 1) as nat) + seq![(v % 128) as u8]
    } else {
        groups7(v as int / 256, 8) + seq![(v % 256) as u8]
    }
}

proof fn lemma_groups_len(x: int, n: nat)
    ensures
        groups7(x, n).len() == n,
    decreases n,
{
    if n > 0 {
        lemma_groups_len(x / 128, (n - 1) as nat);
    }
}

/// Decoding runs straight through `n` flagged group bytes, accumulating
/// their payload bits.
proof fn lemma_groups_decode(x: int, n: nat, rest: Seq<u8>, k: int, acc: int)
    requires
        0 <= x < pow128(n as int),
        0 <= k,
        k + n <= 8,
        0 <= acc,
    ensures
        varint_rec(groups7(x, n) + rest, k, acc) == varint_rec(
            rest,
            k + n,
            acc * pow128(n as int) + x,
        ),
    decreases n,
{
    if n == 0 {
        assert(groups7(x, 0) + rest =~= rest);
    } else {
        let b = (128 + x % 128) as u8;
        let head = seq![b] + rest;
        assert(groups7(x, n) + rest =~= groups7(x / 128, (n - 1) as nat) + head);
        assert(x / 128 < pow128(n as int - 1)) by (nonlinear_arith)
            requires
                0 <= x < pow128(n as int),
                pow128(n as int) == 128 * pow128(n as int - 1),
        ;
        lemma_pow128_pos(n as int - 1);
        lemma_groups_decode(x / 128, (n - 1) as nat, head, k, acc);
        let acc2 = acc * pow128(n as int - 1) + x / 128;
        assert(head[0] == b);
        assert(head.skip(1) =~= rest);
        assert(varint_rec(head, k + n - 1, acc2) == varint_rec(rest, k + n, acc2 * 128 + (b
            - 128)));
        assert(acc2 * 128 + x % 128 == acc * pow128(n as int) + x) by (nonlinear_arith)
            requires
                acc2 == acc * pow128(n as int - 1) + x / 128,
                pow128(n as int) == 128 * pow128(n as int - 1),
                x == 128 * (x / 128) + x % 128,
        ;
    }
}

/// Round trip: decoding the canonical encoding of `v` yields exactly `v`
/// and consumes exactly its canonical length.
pub proof fn lemma_varint_round_trip(v: u64)
    ensures
        spec_encode(v).len() == varint_size(v),
        spec_varint(spec_encode(v)) == Some((v as int, varint_size(v))),
{
    lemma_pow128_values();
    let n = varint_size(v);
    if n <= 8 {
        let x = v as int / 128;
        let last = seq![(v % 128) as u8];
        lemma_groups_len(x, (n - 1) as nat);
        assert(x < pow128(n - 1));
        lemma_groups_decode(x, (n - 1) as nat, last, 0, 0);
        assert(varint_rec(last, n - 1, x) == Some((x * 128 + (v as int % 128), n as int)));
        assert(x * 128 + (v as int % 128) == v as int);
    } else {
        let x = v as int / 256;
        let last = seq![(v % 256) as u8];
        lemma_groups_len(x, 8);
        assert(x < pow128(8));
        lemma_groups_decode(x, 8, last, 0, 0);
        assert(varint_rec(last, 8, x) == Some((x * 256 + (v as int % 256), 9int)));
        assert(x * 256 + (v as int % 256) == v as int);
    }
}

fn push_groups(x: u64, n: usize, out: &mut Vec<u8>)
    requires
        n <= 8,
        (x as int) < pow128(n as int),
    ensures
        final(out)@ == old(out)@ + groups7(x as int, n as nat),
    decreases n,
{
    if n > 0 {
        proof {
            assert((x as int) / 128 < pow128(n as int - 1)) by (nonlinear_arith)
                requires
                    0 <= (x as int) < pow128(n as int),
                    pow128(n as int) == 128 * pow128(n as int - 1),
            ;
        }
        let ghost start = out@;
        push_groups(x / 128, n - 1, out);
        out.push(128 + ((x % 128) as u8));
        proof {
            assert(out@ =~= start + groups7(x as int, n as nat));
        }
    } else {
        proof {
            assert(out@ =~= out@ + groups7(x as int, 0));
        }
    }
}

/// Encodes `v` in the format's canonical varint form.
///
/// Round trip: decoding the returned bytes yields exactly `v` and
/// consumes every one of them; their number is the canonical length
/// of `v`.
pub fn encode_varint(v: u64) -> (r: Vec<u8>)
    ensures
        r@ == spec_encode(v),
        r@.len() == varint_size(v),
        spec_varint(r@) == Some((v as int, r@.len() as int)),
{
    proof {
        lemma_pow128_values();
        lemma_varint_round_trip(v);
    }
    let n: usize = if v < 0x80 {
        1
    } else if v < 0x4000 {
        2
    } else if v < 0x200000 {
        3
    } else if v < 0x10000000 {
        4
    } else if v < 0x800000000 {
        5
    } else if v < 0x40000000000 {
        6
    } else if v < 0x2000000000000 {
        7
    } else if v < 0x100000000000000 {
        8
    } else {
        9
    };
    let mut out: Vec<u8> = Vec::new();
    if n <= 8 {
        push_groups(v / 128, n - 1, &mut out);
        out.push((v % 128) as u8);
    } else {
        push_groups(v / 256, 8, &mut out);
        out.push((v % 256) as u8);
    }
    proof {
        assert(out@ =~= spec_encode(v));
    }
    out
}

} // verus!
