//! Variable-length integer encoding used for the frame length prefix:
//! little-endian base-128 bytes, every byte but the last carrying a
//! continuation bit, with the signed value mapped through zigzag first.

use vstd::prelude::*;

verus! {

/// Little-endian base-128 encoding of a non-negative integer: each byte
/// carries seven value bits; every byte except the last has the high bit set.
pub open spec fn leb128(n: nat) -> Seq<u8>
    decreases n,
{
    if n < 128 {
        seq![n as u8]
    } else {
        seq![(n % 128 + 128) as u8] + leb128(n / 128)
    }
}

/// Inverse of the zigzag mapping that the length prefix runs through: even
/// values are non-negative (a length `n` travels as `2 * n`), odd values are
/// negative.
pub open spec fn unzigzag(n: nat) -> int {
    if n % 2 == 0 {
        (n / 2) as int
    } else {
        -(((n + 1) / 2) as int)
    }
}

/// Parses a base-128 integer from the front of `b`, reading at most `limit`
/// bytes. `None` means no terminating byte was found within the limit: the
/// prefix is incomplete (or unreasonably long, which no amount of further
/// data can mend). `Some((value, used))` gives the parsed value and how many
/// bytes it occupied.
pub open spec fn varint_parse_at(b: Seq<u8>, limit: nat) -> Option<(nat, nat)>
    decreases limit,
{
    if b.len() == 0 || limit == 0 {
        None
    } else if b[0] < 128 {
        Some((b[0] as nat, 1))
    } else {
        match varint_parse_at(b.skip(1), (limit - 1) as nat) {
            None => None,
            Some((v, n)) => Some(((v * 128 + (b[0] - 128)) as nat, (n + 1) as nat)),
        }
    }
}

/// A length prefix is a varint of at most ten bytes: ten bytes carry seventy
/// value bits, enough for the zigzag image of any 64-bit length.
pub open spec fn varint_parse(b: Seq<u8>) -> Option<(nat, nat)> {
    varint_parse_at(b, 10)
}

/// 128 to the power `k`: the number of values a `k`-byte varint can carry.
pub open spec fn pow128(k: nat) -> nat
    decreases k,
{
    if k == 0 {
        1
    } else {
        128 * pow128((k - 1) as nat)
    }
}

/// A parsed value is below `pow128(limit)`, occupies between one and `limit`
/// bytes, and never more than the buffer holds.
pub proof fn lemma_varint_parse_bound(b: Seq<u8>, limit: nat)
    ensures
        varint_parse_at(b, limit) matches Some((v, n)) ==> v < pow128(limit) && 1 <= n <= limit
            && n <= b.len(),
    decreases limit,
{
    if b.len() != 0 && limit != 0 {
        if b[0] < 128 {
            lemma_pow128_increases(1, limit);
            assert(pow128(1) == 128 * pow128(0));
        } else {
            lemma_varint_parse_bound(b.skip(1), (limit - 1) as nat);
            match varint_parse_at(b.skip(1), (limit - 1) as nat) {
                Some((v, n)) => {
                    assert(pow128(limit) == 128 * pow128((limit - 1) as nat));
                    assert(v * 128 + (b[0] - 128) <= (pow128((limit - 1) as nat) - 1) * 128
                        + 127);
                },
                None => {},
            }
        }
    }
}

/// Every byte of an encoding except the last carries the continuation bit.
pub proof fn lemma_leb128_shape(n: nat)
    ensures
        1 <= leb128(n).len(),
        leb128(n).last() < 128,
        forall|i: int| 0 <= i < leb128(n).len() - 1 ==> leb128(n)[i] >= 128,
    decreases n,
{
    if n >= 128 {
        lemma_leb128_shape(n / 128);
    }
}

/// On bytes that all carry the continuation bit the parse never finds an end.
pub proof fn lemma_varint_parse_all_cont(b: Seq<u8>, limit: nat)
    requires
        forall|i: int| 0 <= i < b.len() ==> b[i] >= 128,
    ensures
        varint_parse_at(b, limit) is None,
    decreases limit,
{
    if b.len() != 0 && limit != 0 {
        lemma_varint_parse_all_cont(b.skip(1), (limit - 1) as nat);
    }
}

/// Parsing an encoding back, with anything at all after it, recovers exactly
/// the encoded value and consumes exactly the encoding.
pub proof fn lemma_varint_roundtrip(n: nat, rest: Seq<u8>, limit: nat)
    requires
        1 <= limit,
        n < pow128(limit),
    ensures
        varint_parse_at(leb128(n) + rest, limit) == Some((n, leb128(n).len() as nat)),
    decreases n,
{
    let b = leb128(n) + rest;
    if n < 128 {
        assert(b[0] == n as u8);
    } else {
        assert(pow128(limit) == 128 * pow128((limit - 1) as nat));
        assert(b[0] == (n % 128 + 128) as u8);
        lemma_varint_roundtrip(n / 128, rest, (limit - 1) as nat);
        assert(b.skip(1) =~= leb128(n / 128) + rest);
        assert((n / 128) * 128 + ((n % 128 + 128) - 128) == n);
    }
}

/// A strict prefix of an encoding parses to nothing: more bytes are needed.
pub proof fn lemma_leb128_prefix_incomplete(n: nat, k: int, limit: nat)
    requires
        0 <= k < leb128(n).len(),
    ensures
        varint_parse_at(leb128(n).take(k), limit) is None,
{
    lemma_leb128_shape(n);
    lemma_varint_parse_all_cont(leb128(n).take(k), limit);
}

// ---- executable encoder and parser ----

/// Appends the base-128 encoding of `n` to `out`.
pub fn push_leb128(out: &mut Vec<u8>, n: u128)
    ensures
        final(out)@ == old(out)@ + leb128(n as nat),
{
    let mut v: u128 = n;
    while v >= 128
        invariant
            out@ + leb128(v as nat) == old(out)@ + leb128(n as nat),
        decreases v,
    {
        let byte: u8 = (v % 128 + 128) as u8;
        proof {
            assert((out@ + seq![byte]) + leb128((v as nat) / 128) =~= out@ + (seq![byte]
                + leb128((v as nat) / 128)));
        }
        out.push(byte);
        v = v / 128;
    }
    proof {
        assert(leb128(v as nat) =~= seq![v as u8]);
        assert(out@ + seq![v as u8] =~= out@.push(v as u8));
    }
    out.push(v as u8);
}

/// Parses a base-128 integer from `b` at position `from`, reading at most
/// `limit` bytes; mirrors `varint_parse_at` on the remaining bytes.
pub fn read_varint_at(b: &[u8], from: usize, limit: usize) -> (r: Option<(u128, usize)>)
    requires
        from <= b@.len(),
        limit <= 10,
    ensures
        r is Some <==> varint_parse_at(b@.skip(from as int), limit as nat) is Some,
        r matches Some((v, n)) ==> varint_parse_at(b@.skip(from as int), limit as nat) == Some(
            ((v as nat), (n as nat)),
        ),
    decreases limit,
{
    let tail = Ghost(b@.skip(from as int));
    if from == b.len() || limit == 0 {
        return None;
    }
    let byte = b[from];
    assert(byte == tail@[0]);
    if byte < 128 {
        Some((byte as u128, 1))
    } else {
        proof {
            assert(tail@.skip(1) =~= b@.skip(from as int + 1));
        }
        match read_varint_at(b, from + 1, limit - 1) {
            None => None,
            Some((v, n)) => {
                proof {
                    lemma_varint_parse_bound(b@.skip(from as int + 1), (limit - 1) as nat);
                    lemma_pow128_increases((limit - 1) as nat, 10);
                    lemma_pow128_10();
                }
                Some((v * 128 + (byte - 128) as u128, n + 1))
            },
        }
    }
}

/// `pow128` grows with its argument.
pub proof fn lemma_pow128_increases(j: nat, k: nat)
    requires
        j <= k,
    ensures
        pow128(j) <= pow128(k),
    decreases k,
{
    if j < k {
        lemma_pow128_increases(j, (k - 1) as nat);
        assert(pow128(k) == 128 * pow128((k - 1) as nat));
    }
}

/// The numeric value of ten varint bytes' worth of headroom.
pub proof fn lemma_pow128_10()
    ensures
        pow128(10) == 0x400000000000000000,
{
    assert(pow128(1) == 128 * pow128(0));
    assert(pow128(2) == 128 * pow128(1));
    assert(pow128(3) == 128 * pow128(2));
    assert(pow128(4) == 128 * pow128(3));
    assert(pow128(5) == 128 * pow128(4));
    assert(pow128(6) == 128 * pow128(5));
    assert(pow128(7) == 128 * pow128(6));
    assert(pow128(8) == 128 * pow128(7));
    assert(pow128(9) == 128 * pow128(8));
    assert(pow128(10) == 128 * pow128(9));
}

} // verus!
