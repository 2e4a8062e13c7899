//! Arithmetic in the prime field GF(257), in which secret bytes are shared.
use vstd::prelude::*;
use vstd::arithmetic::div_mod::*;
use vstd::arithmetic::mul::*;
use vstd::relations::injective_on;
use vstd::set_lib::*;

verus! {

/// The field modulus: the smallest prime above every byte value.
pub const FIELD_PRIME: u16 = 257;

/// The modulus as a mathematical integer.
pub open spec fn p() -> int {
    257
}

/// `a` and `b` are equal in GF(257).
pub open spec fn cong(a: int, b: int) -> bool {
    a % p() == b % p()
}

/// `b` is the canonical representative of the inverse of `a`.
pub open spec fn is_inverse(a: int, b: int) -> bool {
    0 <= b < p() && (a * b) % p() == 1
}

/// The multiplicative inverse of `a` in GF(257), as its canonical representative.
pub open spec fn inv(a: int) -> int {
    choose|b: int| #[trigger] is_inverse(a, b)
}

/// Multiplication respects equality in the field.
pub proof fn lemma_mul_cong(a: int, b: int, c: int, d: int)
    requires
        cong(a, b),
        cong(c, d),
    ensures
        cong(a * c, b * d),
{
    lemma_mul_mod_noop(a, c, p());
    lemma_mul_mod_noop(b, d, p());
}

/// Addition respects equality in the field.
pub proof fn lemma_add_cong(a: int, b: int, c: int, d: int)
    requires
        cong(a, b),
        cong(c, d),
    ensures
        cong(a + c, b + d),
{
    lemma_add_mod_noop(a, c, p());
    lemma_add_mod_noop(b, d, p());
}

/// Subtraction respects equality in the field.
pub proof fn lemma_sub_cong(a: int, b: int, c: int, d: int)
    requires
        cong(a, b),
        cong(c, d),
    ensures
        cong(a - c, b - d),
{
    lemma_sub_mod_noop(a, c, p());
    lemma_sub_mod_noop(b, d, p());
}

/// A value is congruent to its remainder.
pub proof fn lemma_cong_mod(a: int)
    ensures
        cong(a, a % p()),
        0 <= a % p() < p(),
{
    lemma_mod_twice(a, p());
    lemma_mod_bound(a, p());
}

/// GF(257) has no zero divisors.
pub proof fn lemma_no_zero_divisors(u: int, v: int)
    requires
        (u * v) % p() == 0,
    ensures
        u % p() == 0 || v % p() == 0,
{
    lemma_mul_mod_noop(u, v, p());
    lemma_mod_bound(u, p());
    lemma_mod_bound(v, p());
    let a: u32 = (u % p()) as u32;
    let b: u32 = (v % p()) as u32;
    assert((a * b) % 257 == 0);
    assert(a < 257 && b < 257 && (a * b) % 257 == 0 ==> a == 0 || b == 0) by (bit_vector);
}

/// Every non-zero element has an inverse (by counting: multiplication by it is injective).
pub proof fn lemma_inverse_exists(a: int)
    requires
        a % p() != 0,
    ensures
        exists|b: int| #[trigger] is_inverse(a, b),
{
    let dom = set_int_range(0, p());
    let f = |b: int| (a * b) % p();
    lemma_int_range(0, p());
    assert forall|b1: int, b2: int|
        dom.contains(b1) && dom.contains(b2) && #[trigger] f(b1) == #[trigger] f(b2) implies b1 == b2 by {
        lemma_mod_bound(a * b1, p());
        lemma_sub_mod_noop(a * b1, a * b2, p());
        lemma_mul_is_distributive_sub(a, b1, b2);
        assert((a * (b1 - b2)) % p() == 0) by {
            assert((a * b1 - a * b2) % p() == ((a * b1) % p() - (a * b2) % p()) % p());
        }
        lemma_no_zero_divisors(a, b1 - b2);
        if b1 != b2 {
            if b1 > b2 {
                lemma_small_mod((b1 - b2) as nat, p() as nat);
            } else {
                lemma_mod_neg_neg(b1 - b2, p());
                lemma_small_mod((b2 - b1) as nat, p() as nat);
            }
        }
    }
    assert(injective_on(f, dom));
    let img = dom.map(f);
    lemma_map_size(dom, img, f);
    assert(img.subset_of(dom)) by {
        assert forall|y: int| img.contains(y) implies dom.contains(y) by {
            let b = choose|b: int| dom.contains(b) && y == f(b);
            lemma_mod_bound(a * b, p());
        }
    }
    lemma_subset_equality(img, dom);
    assert(dom.contains(1));
    assert(img.contains(1));
    let w = choose|b: int| dom.contains(b) && 1 == f(b);
    assert(is_inverse(a, w));
}

/// The inverse is unique among canonical representatives.
pub proof fn lemma_inverse_unique(a: int, b: int, c: int)
    requires
        0 <= b < p(),
        0 <= c < p(),
        (a * b) % p() == 1,
        (a * c) % p() == 1,
    ensures
        b == c,
{
    lemma_sub_mod_noop(a * b, a * c, p());
    lemma_mul_is_distributive_sub(a, b, c);
    assert((a * (b - c)) % p() == 0);
    lemma_no_zero_divisors(a, b - c);
    if a % p() == 0 {
        lemma_mul_mod_noop(a, b, p());
        assert((a % p()) * (b % p()) == 0);
        assert(false);
    }
    if b > c {
        lemma_small_mod((b - c) as nat, p() as nat);
    } else if c > b {
        lemma_mod_neg_neg(b - c, p());
        lemma_small_mod((c - b) as nat, p() as nat);
    }
}

/// What `inv` gives for a non-zero element.
pub proof fn lemma_inv(a: int)
    requires
        a % p() != 0,
    ensures
        0 <= inv(a) < p(),
        (a * inv(a)) % p() == 1,
{
    lemma_inverse_exists(a);
}

/// The inverse of `a` is also the inverse of anything congruent to `a`.
pub proof fn lemma_inv_cong(a: int, b: int)
    requires
        cong(a, b),
        a % p() != 0,
    ensures
        inv(a) == inv(b),
{
    lemma_inv(a);
    lemma_inv(b);
    lemma_mul_cong(a, b, inv(a), inv(a));
    lemma_inverse_unique(b, inv(a), inv(b));
}

/// Computes the inverse of a non-zero element of GF(257).
pub fn field_inverse(a: u16) -> (r: u16)
    requires
        0 < a < 257,
    ensures
        r as int == inv(a as int),
        0 < r < 257,
        (a * r) % 257 == 1,
{
    proof {
        lemma_small_mod(a as nat, 257);
        lemma_inv(a as int);
    }
    let ghost w = inv(a as int);
    let mut b: u32 = 0;
    while b < 257
        invariant
            b <= 257,
            0 < a < 257,
            w == inv(a as int),
            0 <= w < 257,
            (a * w) % 257 == 1,
            forall|c: int| 0 <= c < b ==> !#[trigger] is_inverse(a as int, c),
        decreases 257 - b,
    {
        assert(a as u32 * b <= 256 * 256) by (nonlinear_arith)
            requires
                a < 257,
                b < 257,
        ;
        if (a as u32 * b) % 257 == 1 {
            proof {
                lemma_inverse_unique(a as int, b as int, w);
                if b == 0 {
                    assert(a * 0 == 0);
                }
            }
            return b as u16;
        }
        b = b + 1;
    }
    assert(is_inverse(a as int, w));
    0
}

/// Reduces a value into GF(257).
pub fn field_reduce(v: u32) -> (r: u16)
    ensures
        r as int == v as int % p(),
        r < 257,
{
    (v % 257) as u16
}

} // verus!
