//! Polynomials over the integers, read modulo the field prime: evaluation,
//! the operations that build Lagrange basis polynomials, and the facts that
//! make interpolation recover a polynomial's constant term.
use vstd::prelude::*;
use vstd::arithmetic::div_mod::*;
use vstd::arithmetic::mul::*;
use crate::field::{cong, inv, lemma_add_cong, lemma_cong_mod, lemma_inv, lemma_mul_cong, lemma_no_zero_divisors, lemma_sub_cong, p};

verus! {

/// Value of the polynomial with coefficients `c` (lowest degree first) at `x`.
pub open spec fn peval(c: Seq<int>, x: int) -> int
    decreases c.len(),
{
    if c.len() == 0 {
        0
    } else {
        c[0] + x * peval(c.drop_first(), x)
    }
}

/// The quotient of `c(X)` divided by `(X - a)`.
pub open spec fn synth_div(c: Seq<int>, a: int) -> Seq<int>
    decreases c.len(),
{
    if c.len() <= 1 {
        Seq::empty()
    } else {
        seq![peval(c.drop_first(), a)] + synth_div(c.drop_first(), a)
    }
}

/// Adds `v` to the constant coefficient.
pub open spec fn add_const(s: Seq<int>, v: int) -> Seq<int> {
    if s.len() == 0 {
        seq![v]
    } else {
        s.update(0, s[0] + v)
    }
}

/// Coefficients of `c(X) * (X - a)`.
pub open spec fn mul_linear(c: Seq<int>, a: int) -> Seq<int>
    decreases c.len(),
{
    if c.len() == 0 {
        Seq::empty()
    } else {
        seq![-a * c[0]] + add_const(mul_linear(c.drop_first(), a), c[0])
    }
}

/// Coefficients of `s * c(X)`.
pub open spec fn scale(c: Seq<int>, s: int) -> Seq<int>
    decreases c.len(),
{
    if c.len() == 0 {
        Seq::empty()
    } else {
        seq![s * c[0]] + scale(c.drop_first(), s)
    }
}

/// Coefficients of `c(X) + d(X)`.
pub open spec fn padd(c: Seq<int>, d: Seq<int>) -> Seq<int>
    decreases c.len() + d.len(),
{
    if c.len() == 0 {
        d
    } else if d.len() == 0 {
        c
    } else {
        seq![c[0] + d[0]] + padd(c.drop_first(), d.drop_first())
    }
}

/// No two of the points are equal in the field.
pub open spec fn distinct_mod(xs: Seq<int>) -> bool {
    forall|i: int, j: int|
        0 <= i < xs.len() && 0 <= j < xs.len() && i != j ==> !cong(#[trigger] xs[i], #[trigger] xs[j])
}

/// `prod_{m < lim, m != j} (x - xs[m])`, exactly.
pub open spec fn num_prod(xs: Seq<int>, j: int, lim: nat, x: int) -> int
    decreases lim,
{
    if lim == 0 {
        1
    } else {
        let prev = num_prod(xs, j, (lim - 1) as nat, x);
        if lim - 1 == j {
            prev
        } else {
            prev * (x - xs[lim - 1])
        }
    }
}

/// Coefficients of `prod_{m < lim, m != j} (X - xs[m])`.
pub open spec fn basis_num(xs: Seq<int>, j: int, lim: nat) -> Seq<int>
    decreases lim,
{
    if lim == 0 {
        seq![1]
    } else {
        let prev = basis_num(xs, j, (lim - 1) as nat);
        if lim - 1 == j {
            prev
        } else {
            mul_linear(prev, xs[lim - 1])
        }
    }
}

/// `prod_{m < lim, m != j} inv(xs[j] - xs[m])`, reduced at each step.
pub open spec fn inv_prod(xs: Seq<int>, j: int, lim: nat) -> int
    decreases lim,
{
    if lim == 0 {
        1
    } else {
        let prev = inv_prod(xs, j, (lim - 1) as nat);
        if lim - 1 == j {
            prev
        } else {
            (prev * inv(xs[j] - xs[lim - 1])) % p()
        }
    }
}

/// The Lagrange coefficient of point `j` for evaluation at zero,
/// `prod_{m < lim, m != j} (-xs[m]) / (xs[j] - xs[m])`, in the reduced form that
/// recovery computes.
pub open spec fn lagrange_at_zero(xs: Seq<int>, j: int, lim: nat) -> int
    decreases lim,
{
    if lim == 0 {
        1
    } else {
        let prev = lagrange_at_zero(xs, j, (lim - 1) as nat);
        if lim - 1 == j {
            prev
        } else {
            (((prev * ((p() - xs[lim - 1]) % p())) % p()) * inv(xs[j] - xs[lim - 1])) % p()
        }
    }
}

/// `sum_{j < cnt} ys[j] * lagrange_at_zero(xs, j, xs.len())`.
pub open spec fn lagrange_sum(xs: Seq<int>, ys: Seq<int>, cnt: nat) -> int
    decreases cnt,
{
    if cnt == 0 {
        0
    } else {
        lagrange_sum(xs, ys, (cnt - 1) as nat) + ys[cnt - 1] * lagrange_at_zero(
            xs,
            cnt - 1,
            xs.len(),
        )
    }
}

/// The interpolated value at zero of the points `(xs[j], ys[j])`, in `[0, 257)`.
pub open spec fn interpolate_at_zero(xs: Seq<int>, ys: Seq<int>) -> int {
    lagrange_sum(xs, ys, xs.len()) % p()
}

/// Coefficients of the interpolating polynomial built from the first `cnt` points.
pub open spec fn interp(xs: Seq<int>, ys: Seq<int>, cnt: nat) -> Seq<int>
    decreases cnt,
{
    if cnt == 0 {
        Seq::empty()
    } else {
        padd(
            interp(xs, ys, (cnt - 1) as nat),
            scale(
                basis_num(xs, cnt - 1, xs.len()),
                ys[cnt - 1] * inv_prod(xs, cnt - 1, xs.len()),
            ),
        )
    }
}

/// `sum_{j < cnt} ys[j] * inv_prod(j) * num_prod(j, x)`: the value of `interp` at `x`.
pub open spec fn term_sum(xs: Seq<int>, ys: Seq<int>, cnt: nat, x: int) -> int
    decreases cnt,
{
    if cnt == 0 {
        0
    } else {
        term_sum(xs, ys, (cnt - 1) as nat, x) + ys[cnt - 1] * inv_prod(xs, cnt - 1, xs.len())
            * num_prod(xs, cnt - 1, xs.len(), x)
    }
}

pub proof fn lemma_peval_zero(c: Seq<int>)
    requires
        c.len() > 0,
    ensures
        peval(c, 0) == c[0],
{
    assert(0 * peval(c.drop_first(), 0) == 0);
}

proof fn lemma_cong_diff(x: int, y: int)
    ensures
        cong(x, y) <==> (x - y) % p() == 0,
{
    lemma_sub_mod_noop(x, y, p());
    lemma_mod_bound(x, p());
    lemma_mod_bound(y, p());
    let d = x % p() - y % p();
    if d > 0 {
        lemma_small_mod(d as nat, p() as nat);
    } else if d < 0 {
        lemma_mod_neg_neg(d, p());
        lemma_small_mod((-d) as nat, p() as nat);
    }
}

proof fn lemma_synth_div(c: Seq<int>, a: int, x: int)
    requires
        c.len() >= 1,
    ensures
        synth_div(c, a).len() == c.len() - 1,
        peval(c, x) == (x - a) * peval(synth_div(c, a), x) + peval(c, a),
    decreases c.len(),
{
    let c1 = c.drop_first();
    if c.len() == 1 {
        assert(peval(c1, x) == 0);
        assert(peval(c1, a) == 0);
        assert(x * 0 == 0 && a * 0 == 0 && (x - a) * 0 == 0);
    } else {
        lemma_synth_div(c1, a, x);
        let q1 = synth_div(c1, a);
        let q = synth_div(c, a);
        assert(q.drop_first() =~= q1);
        let ca = peval(c1, a);
        let qx = peval(q1, x);
        let cx = peval(c1, x);
        assert(peval(q, x) == ca + x * qx);
        assert(x * cx == (x - a) * (ca + x * qx) + a * ca) by (nonlinear_arith)
            requires
                cx == (x - a) * qx + ca,
        ;
    }
}

/// A polynomial with at most as many coefficients as there are distinct points
/// at which it vanishes vanishes everywhere.
pub proof fn lemma_vanish(d: Seq<int>, xs: Seq<int>, z: int)
    requires
        d.len() <= xs.len(),
        distinct_mod(xs),
        forall|i: int| 0 <= i < xs.len() ==> #[trigger] peval(d, xs[i]) % p() == 0,
    ensures
        peval(d, z) % p() == 0,
    decreases d.len(),
{
    if d.len() == 0 {
    } else {
        let a = xs[0];
        let q = synth_div(d, a);
        let rest = xs.drop_first();
        assert(peval(d, xs[0]) % p() == 0);
        assert forall|i: int| 0 <= i < rest.len() implies #[trigger] peval(q, rest[i]) % p() == 0 by {
            lemma_synth_div(d, a, rest[i]);
            assert(rest[i] == xs[i + 1]);
            assert(peval(d, xs[i + 1]) % p() == 0);
            let t = (rest[i] - a) * peval(q, rest[i]);
            assert(peval(d, rest[i]) - peval(d, a) == t);
            lemma_cong_diff(peval(d, rest[i]), peval(d, a));
            lemma_no_zero_divisors(rest[i] - a, peval(q, rest[i]));
            assert(!cong(xs[i + 1], xs[0]));
            lemma_cong_diff(rest[i], a);
        }
        assert forall|i: int, j: int|
            0 <= i < rest.len() && 0 <= j < rest.len() && i != j implies !cong(
            #[trigger] rest[i],
            #[trigger] rest[j],
        ) by {
            assert(rest[i] == xs[i + 1] && rest[j] == xs[j + 1]);
        }
        lemma_synth_div(d, a, z);
        lemma_vanish(q, rest, z);
        lemma_mul_mod_noop_right(z - a, peval(q, z), p());
        assert((z - a) * 0 == 0);
        lemma_add_mod_noop((z - a) * peval(q, z), peval(d, a), p());
    }
}

proof fn lemma_add_const(s: Seq<int>, v: int, x: int)
    ensures
        peval(add_const(s, v), x) == peval(s, x) + v,
        add_const(s, v).len() == if s.len() == 0 { 1 } else { s.len() },
{
    let r = add_const(s, v);
    if s.len() == 0 {
        assert(peval(r.drop_first(), x) == 0);
        assert(x * 0 == 0);
    } else {
        assert(r.drop_first() =~= s.drop_first());
    }
}

proof fn lemma_mul_linear(c: Seq<int>, a: int, x: int)
    ensures
        peval(mul_linear(c, a), x) == peval(c, x) * (x - a),
        mul_linear(c, a).len() == if c.len() == 0 { 0 } else { c.len() + 1 },
    decreases c.len(),
{
    if c.len() == 0 {
        assert(0 * (x - a) == 0);
    } else {
        let c1 = c.drop_first();
        lemma_mul_linear(c1, a, x);
        let m1 = mul_linear(c1, a);
        lemma_add_const(m1, c[0], x);
        let r = mul_linear(c, a);
        assert(r.drop_first() =~= add_const(m1, c[0]));
        let p1 = peval(c1, x);
        let c0 = c[0];
        assert(-a * c0 + x * (p1 * (x - a) + c0) == (c0 + x * p1) * (x - a)) by (nonlinear_arith);
    }
}

proof fn lemma_scale(c: Seq<int>, s: int, x: int)
    ensures
        peval(scale(c, s), x) == s * peval(c, x),
        scale(c, s).len() == c.len(),
    decreases c.len(),
{
    if c.len() == 0 {
        assert(s * 0 == 0);
    } else {
        lemma_scale(c.drop_first(), s, x);
        let r = scale(c, s);
        assert(r.drop_first() =~= scale(c.drop_first(), s));
        let p1 = peval(c.drop_first(), x);
        assert(s * c[0] + x * (s * p1) == s * (c[0] + x * p1)) by (nonlinear_arith);
    }
}

proof fn lemma_padd(c: Seq<int>, d: Seq<int>, x: int)
    ensures
        peval(padd(c, d), x) == peval(c, x) + peval(d, x),
        padd(c, d).len() == if c.len() >= d.len() { c.len() } else { d.len() },
    decreases c.len() + d.len(),
{
    if c.len() == 0 {
    } else if d.len() == 0 {
    } else {
        lemma_padd(c.drop_first(), d.drop_first(), x);
        let r = padd(c, d);
        assert(r.drop_first() =~= padd(c.drop_first(), d.drop_first()));
        let p1 = peval(c.drop_first(), x);
        let p2 = peval(d.drop_first(), x);
        assert(x * (p1 + p2) == x * p1 + x * p2) by (nonlinear_arith);
    }
}

proof fn lemma_basis_num(xs: Seq<int>, j: int, lim: nat, x: int)
    requires
        0 <= j,
        lim <= xs.len(),
    ensures
        peval(basis_num(xs, j, lim), x) == num_prod(xs, j, lim, x),
        basis_num(xs, j, lim).len() == if j < lim { lim } else { lim + 1 },
    decreases lim,
{
    if lim == 0 {
        let b = basis_num(xs, j, lim);
        assert(peval(b.drop_first(), x) == 0);
        assert(x * 0 == 0);
    } else {
        lemma_basis_num(xs, j, (lim - 1) as nat, x);
        if lim - 1 != j {
            lemma_mul_linear(basis_num(xs, j, (lim - 1) as nat), xs[lim - 1], x);
        }
    }
}

proof fn lemma_num_prod_other(xs: Seq<int>, j: int, lim: nat, i: int)
    requires
        0 <= i < lim,
        i != j,
        lim <= xs.len(),
    ensures
        num_prod(xs, j, lim, xs[i]) == 0,
    decreases lim,
{
    if lim - 1 == i {
        assert(num_prod(xs, j, (lim - 1) as nat, xs[i]) * 0 == 0);
    } else {
        lemma_num_prod_other(xs, j, (lim - 1) as nat, i);
        if lim - 1 != j {
            assert(0 * (xs[i] - xs[lim - 1]) == 0);
        }
    }
}

proof fn lemma_inv_prod_own(xs: Seq<int>, j: int, lim: nat)
    requires
        0 <= j < xs.len(),
        lim <= xs.len(),
        distinct_mod(xs),
    ensures
        (inv_prod(xs, j, lim) * num_prod(xs, j, lim, xs[j])) % p() == 1,
    decreases lim,
{
    if lim == 0 {
    } else {
        lemma_inv_prod_own(xs, j, (lim - 1) as nat);
        if lim - 1 != j {
            let ip = inv_prod(xs, j, (lim - 1) as nat);
            let np = num_prod(xs, j, (lim - 1) as nat, xs[j]);
            let dd = xs[j] - xs[lim - 1];
            assert(!cong(xs[j], xs[lim - 1]));
            lemma_cong_diff(xs[j], xs[lim - 1]);
            lemma_inv(dd);
            let iv = inv(dd);
            // (ip * iv % p) * (np * dd) == (ip * np) * (iv * dd)  (mod p)
            lemma_cong_mod(ip * iv);
            lemma_mul_cong((ip * iv) % p(), ip * iv, np * dd, np * dd);
            assert((ip * iv) * (np * dd) == (ip * np) * (dd * iv)) by (nonlinear_arith);
            lemma_cong_mod(ip * np);
            lemma_cong_mod(dd * iv);
            assert(cong(ip * np, 1));
            assert(cong(dd * iv, 1));
            lemma_mul_cong(ip * np, 1, dd * iv, 1);
        }
    }
}

proof fn lemma_lagrange_factor(xs: Seq<int>, j: int, lim: nat)
    requires
        0 <= j < xs.len(),
        lim <= xs.len(),
    ensures
        cong(lagrange_at_zero(xs, j, lim), inv_prod(xs, j, lim) * num_prod(xs, j, lim, 0)),
    decreases lim,
{
    if lim == 0 {
    } else {
        lemma_lagrange_factor(xs, j, (lim - 1) as nat);
        if lim - 1 != j {
            let lp = lagrange_at_zero(xs, j, (lim - 1) as nat);
            let ip = inv_prod(xs, j, (lim - 1) as nat);
            let np = num_prod(xs, j, (lim - 1) as nat, 0);
            let xm = xs[lim - 1];
            let iv = inv(xs[j] - xm);
            let negx = (p() - xm) % p();
            // lagrange = ((lp * negx) % p * iv) % p  ~  lp * (-xm) * iv
            lemma_cong_mod(p() - xm);
            lemma_mod_add_multiples_vanish(-xm, p());
            assert(cong(negx, 0 - xm));
            lemma_cong_mod(lp * negx);
            lemma_mul_cong(lp, lp, negx, 0 - xm);
            lemma_mul_cong((lp * negx) % p(), lp * (0 - xm), iv, iv);
            lemma_cong_mod(((lp * negx) % p()) * iv);
            // rhs = (ip * iv % p) * (np * (0 - xm)) ~ ip * np * (0 - xm) * iv
            lemma_cong_mod(ip * iv);
            lemma_mul_cong((ip * iv) % p(), ip * iv, np * (0 - xm), np * (0 - xm));
            assert((ip * iv) * (np * (0 - xm)) == (ip * np) * ((0 - xm) * iv)) by (nonlinear_arith);
            lemma_mul_cong(lp, ip * np, (0 - xm) * iv, (0 - xm) * iv);
            assert(lp * (0 - xm) * iv == lp * ((0 - xm) * iv)) by (nonlinear_arith);
        }
    }
}

proof fn lemma_interp(xs: Seq<int>, ys: Seq<int>, cnt: nat, x: int)
    requires
        cnt <= xs.len(),
        xs.len() >= 1,
    ensures
        peval(interp(xs, ys, cnt), x) == term_sum(xs, ys, cnt, x),
        interp(xs, ys, cnt).len() <= xs.len(),
    decreases cnt,
{
    if cnt == 0 {
    } else {
        lemma_interp(xs, ys, (cnt - 1) as nat, x);
        let b = basis_num(xs, cnt - 1, xs.len());
        let s = ys[cnt - 1] * inv_prod(xs, cnt - 1, xs.len());
        lemma_basis_num(xs, cnt - 1, xs.len(), x);
        lemma_scale(b, s, x);
        lemma_padd(interp(xs, ys, (cnt - 1) as nat), scale(b, s), x);
        let np = num_prod(xs, cnt - 1, xs.len(), x);
        assert(s * np == ys[cnt - 1] * inv_prod(xs, cnt - 1, xs.len()) * np) by (nonlinear_arith)
            requires
                s == ys[cnt - 1] * inv_prod(xs, cnt - 1, xs.len()),
        ;
    }
}

proof fn lemma_term_sum_at_point(xs: Seq<int>, ys: Seq<int>, cnt: nat, i: int)
    requires
        cnt <= xs.len(),
        0 <= i < xs.len(),
        distinct_mod(xs),
    ensures
        cong(term_sum(xs, ys, cnt, xs[i]), if i < cnt { ys[i] } else { 0 }),
    decreases cnt,
{
    if cnt == 0 {
    } else {
        lemma_term_sum_at_point(xs, ys, (cnt - 1) as nat, i);
        let j = cnt - 1;
        let prev = term_sum(xs, ys, (cnt - 1) as nat, xs[i]);
        let w = inv_prod(xs, j, xs.len());
        let np = num_prod(xs, j, xs.len(), xs[i]);
        if j == i {
            lemma_inv_prod_own(xs, j, xs.len());
            assert(ys[j] * w * np == ys[j] * (w * np)) by (nonlinear_arith);
            lemma_cong_mod(w * np);
            lemma_mul_cong(ys[j], ys[j], w * np, 1);
            lemma_add_cong(prev, 0, ys[j] * w * np, ys[j]);
        } else {
            lemma_num_prod_other(xs, j, xs.len(), i);
            assert(ys[j] * w * 0 == 0);
        }
    }
}

proof fn lemma_lagrange_sum(xs: Seq<int>, ys: Seq<int>, cnt: nat)
    requires
        cnt <= xs.len(),
    ensures
        cong(lagrange_sum(xs, ys, cnt), term_sum(xs, ys, cnt, 0)),
    decreases cnt,
{
    if cnt == 0 {
    } else {
        lemma_lagrange_sum(xs, ys, (cnt - 1) as nat);
        let j = cnt - 1;
        lemma_lagrange_factor(xs, j, xs.len());
        let l = lagrange_at_zero(xs, j, xs.len());
        let w = inv_prod(xs, j, xs.len());
        let np = num_prod(xs, j, xs.len(), 0);
        lemma_mul_cong(ys[j], ys[j], l, w * np);
        assert(ys[j] * (w * np) == ys[j] * w * np) by (nonlinear_arith);
        lemma_add_cong(
            lagrange_sum(xs, ys, (cnt - 1) as nat),
            term_sum(xs, ys, (cnt - 1) as nat, 0),
            ys[j] * l,
            ys[j] * w * np,
        );
    }
}

/// Interpolation at zero through at least as many distinct points as the
/// polynomial has coefficients gives back its constant term.
pub proof fn lemma_interpolation(c: Seq<int>, xs: Seq<int>, ys: Seq<int>)
    requires
        1 <= c.len() <= xs.len(),
        ys.len() == xs.len(),
        distinct_mod(xs),
        forall|i: int| 0 <= i < xs.len() ==> cong(#[trigger] ys[i], peval(c, xs[i])),
    ensures
        cong(lagrange_sum(xs, ys, xs.len()), c[0]),
{
    let n = xs.len();
    let q = interp(xs, ys, n);
    let d = padd(c, scale(q, -1));
    assert forall|i: int| 0 <= i < xs.len() implies #[trigger] peval(d, xs[i]) % p() == 0 by {
        lemma_interp(xs, ys, n, xs[i]);
        lemma_term_sum_at_point(xs, ys, n, i);
        lemma_scale(q, -1, xs[i]);
        lemma_padd(c, scale(q, -1), xs[i]);
        lemma_sub_cong(peval(c, xs[i]), ys[i], peval(q, xs[i]), ys[i]);
    }
    lemma_interp(xs, ys, n, 0);
    lemma_scale(q, -1, 0);
    lemma_padd(c, scale(q, -1), 0);
    lemma_vanish(d, xs, 0);
    lemma_cong_diff(peval(c, 0), peval(q, 0));
    lemma_lagrange_sum(xs, ys, n);
    lemma_peval_zero(c);
}

} // verus!
