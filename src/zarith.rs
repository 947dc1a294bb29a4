//! The variable-length integer format: little-endian groups of seven bits,
//! the high bit of each byte telling whether another byte follows. Signed
//! values keep their sign in bit 6 of the first byte, above six bits of the
//! magnitude.
use vstd::prelude::*;

verus! {

/// The bytes that stand for the natural number `v`.
pub open spec fn zarith_nat(v: nat) -> Seq<u8>
    decreases v,
{
    if v < 128 {
        seq![v as u8]
    } else {
        seq![(v % 128 + 128) as u8] + zarith_nat(v / 128)
    }
}

/// Reads a natural number from the front of `s`: the value and the number of
/// bytes it takes, or `None` where `s` ends before a byte without the
/// continuation flag.
pub open spec fn zarith_nat_decode(s: Seq<u8>) -> Option<(nat, nat)>
    decreases s.len(),
{
    if s.len() == 0 {
        None
    } else if s[0] < 128 {
        Some((s[0] as nat, 1nat))
    } else {
        shift_decoded(zarith_nat_decode(s.drop_first()), (s[0] - 128) as nat, 128, 1)
    }
}

/// A decoded value `v` read after `k` bytes that contributed `low`, where
/// `v` counts in units of `scale`.
pub open spec fn shift_decoded(r: Option<(nat, nat)>, low: nat, scale: nat, k: nat) -> Option<
    (nat, nat),
> {
    match r {
        Some((v, n)) => Some((low + scale * v, n + k)),
        None => None,
    }
}

/// Magnitude of an integer.
pub open spec fn magnitude(v: int) -> nat {
    if v < 0 {
        (-v) as nat
    } else {
        v as nat
    }
}

/// The integer with the given sign flag and magnitude.
pub open spec fn signed(negative: bool, m: nat) -> int {
    if negative {
        -(m as int)
    } else {
        m as int
    }
}

/// The bytes that stand for the integer `v`.
pub open spec fn zarith_int(v: int) -> Seq<u8> {
    let m = magnitude(v);
    let sign: nat = if v < 0 {
        64
    } else {
        0
    };
    if m < 64 {
        seq![(m + sign) as u8]
    } else {
        seq![(m % 64 + sign + 128) as u8] + zarith_nat(m / 64)
    }
}

/// Reads an integer from the front of `s`: the value and the number of bytes
/// it takes, or `None` where `s` is empty or ends inside the value.
pub open spec fn zarith_int_decode(s: Seq<u8>) -> Option<(int, nat)> {
    if s.len() == 0 {
        None
    } else {
        let negative = s[0] % 128 >= 64;
        let low = (s[0] % 64) as nat;
        let m = if s[0] < 128 {
            Some((low, 1nat))
        } else {
            shift_decoded(zarith_nat_decode(s.drop_first()), low, 64, 1)
        };
        match m {
            Some((v, n)) => Some((signed(negative, v), n)),
            None => None,
        }
    }
}

/// Decoding the encoding of `v`, with any bytes after it, gives back `v` and
/// takes exactly the bytes of the encoding.
pub proof fn lemma_nat_round_trip(v: nat, rest: Seq<u8>)
    ensures
        zarith_nat_decode(zarith_nat(v) + rest) == Some((v, zarith_nat(v).len())),
    decreases v,
{
    let s = zarith_nat(v) + rest;
    if v < 128 {
        assert(s[0] == v as u8);
    } else {
        let tail = zarith_nat(v / 128);
        assert(s.drop_first() =~= tail + rest);
        lemma_nat_round_trip(v / 128, rest);
        assert(s[0] == (v % 128 + 128) as u8);
    }
}

/// An encoding without its last byte does not decode.
pub proof fn lemma_nat_truncated(v: nat)
    ensures
        zarith_nat_decode(zarith_nat(v).drop_last()) is None,
    decreases v,
{
    let s = zarith_nat(v).drop_last();
    if v >= 128 {
        let tail = zarith_nat(v / 128);
        lemma_nat_truncated(v / 128);
        assert(s.drop_first() =~= tail.drop_last());
        assert(s[0] == (v % 128 + 128) as u8);
    }
}

/// A decoded value takes at least one byte and no more than there are.
pub proof fn lemma_nat_decode_length(s: Seq<u8>)
    ensures
        zarith_nat_decode(s) is Some ==> 1 <= zarith_nat_decode(s)->Some_0.1 <= s.len(),
    decreases s.len(),
{
    if s.len() > 0 {
        lemma_nat_decode_length(s.drop_first());
    }
}

/// Encodings are never empty.
pub proof fn lemma_nat_encoding_nonempty(v: nat)
    ensures
        zarith_nat(v).len() >= 1,
    decreases v,
{
}

/// Decoding the encoding of `v`, with any bytes after it, gives back `v` and
/// takes exactly the bytes of the encoding.
pub proof fn lemma_int_round_trip(v: int, rest: Seq<u8>)
    ensures
        zarith_int_decode(zarith_int(v) + rest) == Some((v, zarith_int(v).len())),
{
    let m = magnitude(v);
    let s = zarith_int(v) + rest;
    if m < 64 {
        assert(s[0] == zarith_int(v)[0]);
    } else {
        let tail = zarith_nat(m / 64);
        assert(s.drop_first() =~= tail + rest);
        lemma_nat_round_trip(m / 64, rest);
        assert(s[0] == zarith_int(v)[0]);
    }
}

/// An encoding without its last byte does not decode.
pub proof fn lemma_int_truncated(v: int)
    ensures
        zarith_int_decode(zarith_int(v).drop_last()) is None,
{
    let m = magnitude(v);
    let s = zarith_int(v).drop_last();
    if m >= 64 {
        let tail = zarith_nat(m / 64);
        lemma_nat_truncated(m / 64);
        assert(s.drop_first() =~= tail.drop_last());
        assert(s[0] == zarith_int(v)[0]);
    }
}

/// Zero is the single byte `0`; a positive value and its negation are
/// encoded alike but for bit 6 of the first byte, which is clear for the
/// positive value and set for the negative one.
pub proof fn lemma_int_sign_bit(m: nat)
    requires
        m > 0,
    ensures
        zarith_int(0) == seq![0u8],
        zarith_int(m as int)[0] % 128 < 64,
        zarith_int(-(m as int)) == zarith_int(m as int).update(
            0,
            (zarith_int(m as int)[0] + 64) as u8,
        ),
{
    let p = zarith_int(m as int);
    let n = zarith_int(-(m as int));
    assert(magnitude(-(m as int)) == m);
    if m < 64 {
        assert(n =~= p.update(0, (p[0] + 64) as u8));
    } else {
        assert(n =~= p.update(0, (p[0] + 64) as u8));
    }
    assert(zarith_int(0) =~= seq![0u8]);
}

} // verus!
