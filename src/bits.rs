//! Little-endian bit sequences: the representation behind `Nat` magnitudes.
use vstd::prelude::*;

verus! {

/// Two to the power `n`.
pub open spec fn pow2(n: nat) -> nat
    decreases n,
{
    if n == 0 {
        1
    } else {
        2 * pow2((n - 1) as nat)
    }
}

/// The number a little-endian bit sequence stands for.
pub open spec fn bits_value(b: Seq<bool>) -> nat
    decreases b.len(),
{
    if b.len() == 0 {
        0
    } else {
        (if b[0] {
            1nat
        } else {
            0nat
        }) + 2 * bits_value(b.drop_first())
    }
}

/// A bit sequence without high zero bits; zero is the empty sequence.
pub open spec fn bits_canonical(b: Seq<bool>) -> bool {
    b.len() == 0 || b.last()
}

pub proof fn lemma_pow2_positive(n: nat)
    ensures
        pow2(n) > 0,
    decreases n,
{
    if n > 0 {
        lemma_pow2_positive((n - 1) as nat);
    }
}

pub proof fn lemma_pow2_small()
    ensures
        pow2(0) == 1,
        pow2(1) == 2,
        pow2(2) == 4,
        pow2(3) == 8,
        pow2(4) == 16,
        pow2(5) == 32,
        pow2(6) == 64,
        pow2(7) == 128,
        pow2(8) == 256,
{
    reveal_with_fuel(pow2, 9);
}

pub proof fn lemma_pow2_monotone(a: nat, b: nat)
    requires
        a <= b,
    ensures
        pow2(a) <= pow2(b),
    decreases b,
{
    if a < b {
        lemma_pow2_monotone(a, (b - 1) as nat);
        lemma_pow2_positive((b - 1) as nat);
    }
}

pub proof fn lemma_pow2_add(a: nat, b: nat)
    ensures
        pow2(a + b) == pow2(a) * pow2(b),
    decreases a,
{
    if a == 0 {
        assert(pow2(0) == 1);
        assert(a + b == b);
    } else {
        lemma_pow2_add((a - 1) as nat, b);
        assert(pow2(a + b) == 2 * pow2((a - 1 + b) as nat));
        assert(2 * (pow2((a - 1) as nat) * pow2(b)) == (2 * pow2((a - 1) as nat)) * pow2(b))
            by (nonlinear_arith);
    }
}

/// A sequence of `n` bits stands for less than `2^n`.
pub proof fn lemma_bits_bound(b: Seq<bool>)
    ensures
        bits_value(b) < pow2(b.len()),
    decreases b.len(),
{
    if b.len() > 0 {
        lemma_bits_bound(b.drop_first());
    }
}

/// Concatenation places the second sequence above the first.
pub proof fn lemma_bits_concat(a: Seq<bool>, c: Seq<bool>)
    ensures
        bits_value(a + c) == bits_value(a) + pow2(a.len()) * bits_value(c),
    decreases a.len(),
{
    if a.len() == 0 {
        assert(a + c =~= c);
        assert(pow2(0) == 1);
    } else {
        let t = a.drop_first();
        assert((a + c).drop_first() =~= t + c);
        lemma_bits_concat(t, c);
        let p = pow2(t.len());
        let y = bits_value(c);
        assert(2 * (bits_value(t) + p * y) == 2 * bits_value(t) + (2 * p) * y)
            by (nonlinear_arith);
        assert((a + c)[0] == a[0]);
        assert(pow2(a.len()) == 2 * p);
    }
}

/// A canonical sequence that is not empty stands for a positive number.
pub proof fn lemma_bits_positive(b: Seq<bool>)
    requires
        b.len() > 0,
        b.last(),
    ensures
        bits_value(b) > 0,
    decreases b.len(),
{
    if b.len() > 1 {
        assert(b.drop_first().last() == b.last());
        lemma_bits_positive(b.drop_first());
    }
}

/// Only all-zero sequences stand for zero.
pub proof fn lemma_bits_zero(b: Seq<bool>)
    requires
        forall|i: int| 0 <= i < b.len() ==> !b[i],
    ensures
        bits_value(b) == 0,
    decreases b.len(),
{
    if b.len() > 0 {
        lemma_bits_zero(b.drop_first());
    }
}

/// Canonical sequences are determined by their value.
pub proof fn lemma_bits_canonical_unique(a: Seq<bool>, b: Seq<bool>)
    requires
        bits_canonical(a),
        bits_canonical(b),
        bits_value(a) == bits_value(b),
    ensures
        a == b,
    decreases a.len(),
{
    if a.len() == 0 {
        if b.len() > 0 {
            lemma_bits_positive(b);
        }
        assert(a =~= b);
    } else {
        lemma_bits_positive(a);
        if b.len() == 0 {
            assert(false);
        }
        let ta = a.drop_first();
        let tb = b.drop_first();
        assert(a[0] == b[0]);
        assert(bits_canonical(ta)) by {
            if ta.len() > 0 {
                assert(ta.last() == a.last());
            }
        }
        assert(bits_canonical(tb)) by {
            if tb.len() > 0 {
                assert(tb.last() == b.last());
            }
        }
        lemma_bits_canonical_unique(ta, tb);
        assert(a =~= seq![a[0]] + ta);
        assert(b =~= seq![b[0]] + tb);
    }
}

/// The value of the bits `b[start..end]`, as a byte.
pub fn bits_to_byte(b: &Vec<bool>, start: usize, end: usize) -> (r: u8)
    requires
        start <= end <= b.len(),
        end - start <= 8,
    ensures
        r as nat == bits_value(b@.subrange(start as int, end as int)),
{
    let mut r: u8 = 0;
    let mut j: usize = end;
    proof {
        assert(b@.subrange(end as int, end as int) =~= Seq::<bool>::empty());
    }
    while j > start
        invariant
            start <= j <= end,
            end <= b.len(),
            end - start <= 8,
            r as nat == bits_value(b@.subrange(j as int, end as int)),
        decreases j,
    {
        let ghost tail = b@.subrange(j as int, end as int);
        proof {
            lemma_bits_bound(tail);
            lemma_pow2_monotone(tail.len(), 7);
            lemma_pow2_small();
        }
        j = j - 1;
        let bit: u8 = if b[j] {
            1
        } else {
            0
        };
        proof {
            assert(b@.subrange(j as int, end as int).drop_first() =~= tail);
        }
        r = 2 * r + bit;
    }
    r
}

/// Appends the `k` low bits of `d` to `acc`, least significant first.
pub fn push_bits(acc: &mut Vec<bool>, d: u8, k: usize)
    requires
        k <= 8,
        (d as nat) < pow2(k as nat),
    ensures
        final(acc)@.len() == old(acc)@.len() + k,
        final(acc)@.subrange(0, old(acc)@.len() as int) == old(acc)@,
        bits_value(final(acc)@) == bits_value(old(acc)@) + pow2(old(acc)@.len()) * d,
{
    let mut x: u8 = d;
    let mut j: usize = 0;
    while j < k
        invariant
            j <= k,
            k <= 8,
            acc@.len() == old(acc)@.len() + j,
            acc@.subrange(0, old(acc)@.len() as int) == old(acc)@,
            (x as nat) < pow2((k - j) as nat),
            bits_value(acc@) + pow2(acc@.len()) * x == bits_value(old(acc)@) + pow2(
                old(acc)@.len(),
            ) * d,
        decreases k - j,
    {
        let bit = x % 2 == 1;
        let ghost before = acc@;
        proof {
            lemma_bits_concat(before, seq![bit]);
            assert(seq![bit].drop_first() =~= Seq::<bool>::empty());
            assert(seq![bit][0] == bit);
            reveal_with_fuel(bits_value, 2);
            assert(bits_value(seq![bit]) == (if bit { 1nat } else { 0nat }));
        }
        acc.push(bit);
        proof {
            assert(acc@ =~= before + seq![bit]);
            assert(acc@.subrange(0, old(acc)@.len() as int) =~= before.subrange(
                0,
                old(acc)@.len() as int,
            ));
            let p = pow2(before.len());
            let xi = x as int;
            assert(p * xi == p * (xi % 2) + (2 * p) * (xi / 2)) by (nonlinear_arith)
                requires
                    xi >= 0,
            ;
            assert(pow2((k - j) as nat) == 2 * pow2((k - j - 1) as nat));
        }
        x = x / 2;
        j = j + 1;
    }
    proof {
        assert(pow2(0) == 1);
    }
}

/// Removes high zero bits; the value stays.
pub fn trim_high_zeros(b: &mut Vec<bool>)
    ensures
        bits_canonical(final(b)@),
        bits_value(final(b)@) == bits_value(old(b)@),
{
    loop
        invariant
            bits_value(b@) == bits_value(old(b)@),
        ensures
            bits_canonical(b@),
            bits_value(b@) == bits_value(old(b)@),
        decreases b@.len(),
    {
        let n = b.len();
        if n == 0 || b[n - 1] {
            break ;
        }
        let ghost before = b@;
        b.pop();
        proof {
            assert(before =~= b@ + seq![false]);
            lemma_bits_concat(b@, seq![false]);
            assert(seq![false].drop_first() =~= Seq::<bool>::empty());
            assert(seq![false][0] == false);
            reveal_with_fuel(bits_value, 2);
            assert(bits_value(seq![false]) == 0);
        }
    }
}

pub proof fn lemma_pow2_wide()
    ensures
        pow2(63) == 0x8000_0000_0000_0000,
        pow2(64) == 0x1_0000_0000_0000_0000,
        pow2(127) == 0x8000_0000_0000_0000_0000_0000_0000_0000,
        pow2(128) == 0x1_0000_0000_0000_0000_0000_0000_0000_0000,
{
    lemma_pow2_small();
    lemma_pow2_add(8, 8);
    assert(pow2(16) == 0x1_0000);
    lemma_pow2_add(16, 16);
    assert(pow2(32) == 0x1_0000_0000);
    lemma_pow2_add(32, 32);
    assert(pow2(64) == 0x1_0000_0000_0000_0000);
    lemma_pow2_add(64, 64);
    assert(pow2(64) == 2 * pow2(63));
    assert(pow2(128) == 2 * pow2(127));
}

/// A canonical sequence of `n > 0` bits stands for at least `2^(n-1)`.
pub proof fn lemma_bits_canonical_lower(b: Seq<bool>)
    requires
        b.len() > 0,
        b.last(),
    ensures
        bits_value(b) >= pow2((b.len() - 1) as nat),
{
    let h = b.drop_last();
    assert(b =~= h + seq![true]);
    lemma_bits_concat(h, seq![true]);
    reveal_with_fuel(bits_value, 2);
    assert(seq![true].drop_first() =~= Seq::<bool>::empty());
    assert(seq![true][0]);
    assert(bits_value(seq![true]) == 1);
    assert(h.len() == b.len() - 1);
    assert(bits_value(h + seq![true]) == bits_value(h) + pow2(h.len()) * 1);
    assert(bits_value(b) == bits_value(h) + pow2(h.len()));
}

/// The number that at most 128 bits stand for.
pub fn bits_to_u128(b: &Vec<bool>) -> (r: u128)
    requires
        b.len() <= 128,
    ensures
        r as nat == bits_value(b@),
{
    let mut r: u128 = 0;
    let mut j: usize = b.len();
    proof {
        assert(b@.subrange(j as int, b.len() as int) =~= Seq::<bool>::empty());
        lemma_pow2_wide();
    }
    while j > 0
        invariant
            j <= b.len(),
            b.len() <= 128,
            r as nat == bits_value(b@.subrange(j as int, b.len() as int)),
        decreases j,
    {
        let ghost tail = b@.subrange(j as int, b.len() as int);
        proof {
            lemma_bits_bound(tail);
            lemma_pow2_monotone(tail.len(), 127);
            lemma_pow2_wide();
        }
        j = j - 1;
        let bit: u128 = if b[j] {
            1
        } else {
            0
        };
        proof {
            assert(b@.subrange(j as int, b.len() as int).drop_first() =~= tail);
        }
        r = 2 * r + bit;
    }
    proof {
        assert(b@.subrange(0, b.len() as int) =~= b@);
    }
    r
}

/// The canonical bits of `v`.
pub fn u128_to_bits(v: u128) -> (r: Vec<bool>)
    ensures
        bits_canonical(r@),
        bits_value(r@) == v,
{
    let mut acc: Vec<bool> = Vec::new();
    let mut x: u128 = v;
    proof {
        assert(pow2(0) == 1);
    }
    while x > 0
        invariant
            x == 0 ==> bits_canonical(acc@),
            x > 0 ==> acc@.len() == 0 || bits_canonical(acc@) || !acc@.last(),
            bits_value(acc@) + pow2(acc@.len()) * x == v,
        decreases x,
    {
        let bit = x % 2 == 1;
        let ghost before = acc@;
        proof {
            lemma_bits_concat(before, seq![bit]);
            assert(seq![bit].drop_first() =~= Seq::<bool>::empty());
            assert(seq![bit][0] == bit);
            reveal_with_fuel(bits_value, 2);
            let p = pow2(before.len());
            let xi = x as int;
            assert(p * xi == p * (xi % 2) + (2 * p) * (xi / 2)) by (nonlinear_arith)
                requires
                    xi >= 0,
            ;
        }
        acc.push(bit);
        proof {
            assert(acc@ =~= before + seq![bit]);
        }
        x = x / 2;
    }
    proof {
        let p = pow2(acc@.len());
        assert(p * 0 == 0) by (nonlinear_arith);
    }
    acc
}

} // verus!
