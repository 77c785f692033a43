use vstd::arithmetic::power2::{lemma_pow2_pos, lemma_pow2_unfold, pow2};
use vstd::prelude::*;

verus! {

/// Bit `i` of `s`; bits past the end are `false`.
pub open spec fn bit_at(s: Seq<bool>, i: int) -> bool {
    0 <= i < s.len() && s[i]
}

/// The number written by bits `0..n` of `s`, least significant first.
pub open spec fn low_value(s: Seq<bool>, n: nat) -> nat
    decreases n,
{
    if n == 0 {
        0
    } else {
        low_value(s, (n - 1) as nat) + if bit_at(s, n - 1) {
            pow2((n - 1) as nat)
        } else {
            0
        }
    }
}

/// The number written by the little-endian bits `s`.
pub open spec fn bits_value(s: Seq<bool>) -> nat {
    low_value(s, s.len())
}

/// The little-endian bits of a number given by its 64-bit limbs, least significant first.
pub open spec fn limbs_bits(l: Seq<u64>) -> Seq<bool> {
    Seq::new(64 * l.len(), |i: int| (l[i / 64] >> ((i % 64) as u64)) & 1 == 1)
}

/// The limbs of the modulus of the base field (the scalar field of BLS12-377).
pub open spec fn base_modulus_limbs() -> Seq<u64> {
    seq![725501752471715841u64, 6461107452199829505u64, 6968279316240510977u64, 1345280370688173398u64]
}

/// The limbs of the modulus of the scalar field (the scalar field of Edwards-BLS12).
pub open spec fn scalar_modulus_limbs() -> Seq<u64> {
    seq![13356249993388743167u64, 5950279507993463550u64, 10965441865914903552u64, 336320092672043349u64]
}

pub open spec fn base_modulus() -> nat {
    bits_value(limbs_bits(base_modulus_limbs()))
}

pub open spec fn scalar_modulus() -> nat {
    bits_value(limbs_bits(scalar_modulus_limbs()))
}

/// Whether little-endian bits denote a base field element: their value is below the modulus.
pub open spec fn field_ok(bits: Seq<bool>) -> bool {
    bits_value(bits) < base_modulus()
}

/// Whether little-endian bits denote a scalar: their value is below the modulus.
pub open spec fn scalar_ok(bits: Seq<bool>) -> bool {
    bits_value(bits) < scalar_modulus()
}

proof fn lemma_low_value_past_end(s: Seq<bool>, n: nat)
    requires
        n >= s.len(),
    ensures
        low_value(s, n) == bits_value(s),
    decreases n,
{
    if n > s.len() {
        lemma_low_value_past_end(s, (n - 1) as nat);
    }
}

proof fn lemma_low_value_bound(s: Seq<bool>, n: nat)
    ensures
        low_value(s, n) < pow2(n),
    decreases n,
{
    if n == 0 {
        lemma_pow2_pos(0);
    } else {
        lemma_low_value_bound(s, (n - 1) as nat);
        lemma_pow2_unfold(n);
    }
}

proof fn lemma_low_value_agree(a: Seq<bool>, b: Seq<bool>, k: nat, n: nat)
    requires
        k <= n,
        forall|i: int| k <= i < n ==> bit_at(a, i) == bit_at(b, i),
    ensures
        low_value(a, n) - low_value(a, k) == low_value(b, n) - low_value(b, k),
    decreases n,
{
    if n > k {
        lemma_low_value_agree(a, b, k, (n - 1) as nat);
    }
}

/// The value of `a` is below that of `b` when they agree above bit `k`, and bit `k` is
/// set in `b` only.
proof fn lemma_first_difference(a: Seq<bool>, b: Seq<bool>, k: nat, n: nat)
    requires
        k < n,
        forall|i: int| k < i < n ==> bit_at(a, i) == bit_at(b, i),
        !bit_at(a, k as int),
        bit_at(b, k as int),
    ensures
        low_value(a, n) < low_value(b, n),
{
    lemma_low_value_agree(a, b, k + 1, n);
    lemma_low_value_bound(a, k);
    assert(low_value(a, k + 1) == low_value(a, k));
    assert(low_value(b, k + 1) == low_value(b, k) + pow2(k));
}

proof fn lemma_low_value_grows(s: Seq<bool>, k: nat, n: nat)
    requires
        k <= n,
    ensures
        low_value(s, k) <= low_value(s, n),
    decreases n,
{
    if n > k {
        lemma_low_value_grows(s, k, (n - 1) as nat);
    }
}

/// Zero, written with no bits, is a base field element.
pub proof fn lemma_zero_is_field()
    ensures
        field_ok(Seq::empty()),
{
    let l = base_modulus_limbs();
    let m = limbs_bits(l);
    assert(l.len() == 4 && l[0] == 725501752471715841u64);
    assert(m.len() == 256);
    assert(0int / 64 == 0 && ((0int % 64) as u64) == 0u64);
    assert(m[0] == ((l[0] >> 0u64) & 1 == 1));
    assert((725501752471715841u64 >> 0u64) & 1 == 1) by (bit_vector);
    assert(low_value(m, 1) == 1) by {
        assert(bit_at(m, 0));
        vstd::arithmetic::power2::lemma2_to64();
        assert(low_value(m, 0) == 0);
        assert(low_value(m, 1) == low_value(m, 0) + pow2(0));
    }
    lemma_low_value_grows(m, 1, m.len());
    assert(low_value(Seq::<bool>::empty(), 0) == 0);
}

/// Whether the little-endian bits `a` denote a smaller number than the bits `b`.
pub fn is_below(a: &Vec<bool>, b: &Vec<bool>) -> (r: bool)
    ensures
        r == (bits_value(a@) < bits_value(b@)),
{
    let n: usize = if a.len() >= b.len() { a.len() } else { b.len() };
    proof {
        lemma_low_value_past_end(a@, n as nat);
        lemma_low_value_past_end(b@, n as nat);
    }
    let mut i: usize = n;
    while i > 0
        invariant
            i <= n,
            n >= a@.len(),
            n >= b@.len(),
            low_value(a@, n as nat) == bits_value(a@),
            low_value(b@, n as nat) == bits_value(b@),
            forall|k: int| i <= k < n ==> bit_at(a@, k) == bit_at(b@, k),
        decreases i,
    {
        let x = i - 1 < a.len() && a[i - 1];
        let y = i - 1 < b.len() && b[i - 1];
        if x != y {
            proof {
                if y {
                    lemma_first_difference(a@, b@, (i - 1) as nat, n as nat);
                } else {
                    lemma_first_difference(b@, a@, (i - 1) as nat, n as nat);
                }
            }
            return y;
        }
        i = i - 1;
    }
    proof {
        lemma_low_value_agree(a@, b@, 0, n as nat);
    }
    false
}

/// The little-endian bits of the number with limbs `l`.
fn limbs_to_bits(l: &Vec<u64>) -> (r: Vec<bool>)
    requires
        l@.len() <= 4,
    ensures
        r@ == limbs_bits(l@),
{
    let mut r: Vec<bool> = Vec::new();
    let mut j: usize = 0;
    while j < 64 * l.len()
        invariant
            l@.len() <= 4,
            j <= 64 * l@.len(),
            r@ =~= limbs_bits(l@).subrange(0, j as int),
        decreases 64 * l@.len() - j,
    {
        r.push((l[j / 64] >> ((j % 64) as u64)) & 1 == 1);
        j = j + 1;
    }
    r
}

/// The little-endian bits of the base field's modulus.
pub fn base_modulus_bits() -> (r: Vec<bool>)
    ensures
        r@ == limbs_bits(base_modulus_limbs()),
        bits_value(r@) == base_modulus(),
{
    let l = vec![725501752471715841u64, 6461107452199829505u64, 6968279316240510977u64, 1345280370688173398u64];
    assert(l@ =~= base_modulus_limbs());
    limbs_to_bits(&l)
}

/// The little-endian bits of the scalar field's modulus.
pub fn scalar_modulus_bits() -> (r: Vec<bool>)
    ensures
        r@ == limbs_bits(scalar_modulus_limbs()),
        bits_value(r@) == scalar_modulus(),
{
    let l = vec![13356249993388743167u64, 5950279507993463550u64, 10965441865914903552u64, 336320092672043349u64];
    assert(l@ =~= scalar_modulus_limbs());
    limbs_to_bits(&l)
}

/// Whether little-endian bits denote a base field element.
pub fn is_field(bits: &Vec<bool>) -> (r: bool)
    ensures
        r == field_ok(bits@),
{
    is_below(bits, &base_modulus_bits())
}

/// Whether little-endian bits denote a scalar.
pub fn is_scalar(bits: &Vec<bool>) -> (r: bool)
    ensures
        r == scalar_ok(bits@),
{
    is_below(bits, &scalar_modulus_bits())
}

} // verus!
