//! Shamir secret sharing for key recovery: every byte of the secret is the
//! constant term of its own random polynomial over GF(257); a share holds the
//! values of all those polynomials at one non-zero point.
use vstd::prelude::*;
use vstd::arithmetic::div_mod::*;
use crate::field::{cong, field_inverse, inv, lemma_inv_cong, p};
use crate::poly::{
    distinct_mod, interpolate_at_zero, lagrange_at_zero, lagrange_sum, lemma_interpolation, peval,
};
use rand::Rng;

verus! {

/// One share: the evaluation point and, per secret byte, the polynomial's value there.
#[derive(Debug, Clone)]
pub struct Share {
    pub x: u8,
    pub y: Vec<u16>,
}

/// Splits secrets into shares and recovers them.
pub struct SecretSharer {}

/// Why a set of shares does not give back a secret.
#[derive(Debug, Clone, Copy, PartialEq, Eq, Structural)]
pub enum ShamirError {
    /// No share was given.
    NoShares,
    /// Two shares have the same evaluation point.
    DuplicateShare,
    /// The shares hold values for different numbers of bytes.
    MismatchedLengths,
    /// A share holds a value outside GF(257).
    InvalidShareValue,
    /// The shares interpolate to a value that is not a byte.
    InconsistentShares,
}

/// The polynomial that hides byte `b` of `secret`: the byte, then its `k - 1`
/// random coefficients from `coeffs`.
pub open spec fn share_poly(secret: Seq<u8>, k: nat, coeffs: Seq<u16>, b: int) -> Seq<int> {
    seq![secret[b] as int] + Seq::new((k - 1) as nat, |t: int| coeffs[b * (k - 1) + t] as int)
}

/// Random coefficients fit for splitting `secret` with threshold `k`.
pub open spec fn valid_coefficients(secret: Seq<u8>, k: nat, coeffs: Seq<u16>) -> bool {
    &&& k >= 1
    &&& coeffs.len() == secret.len() * (k - 1)
    &&& forall|i: int| 0 <= i < coeffs.len() ==> #[trigger] coeffs[i] < 257
}

/// `s` is the share at its point of the sharing of `secret` with threshold `k` and
/// random coefficients `coeffs`.
pub open spec fn is_share_of(secret: Seq<u8>, k: nat, coeffs: Seq<u16>, s: Share) -> bool {
    &&& s.y@.len() == secret.len()
    &&& forall|b: int|
        0 <= b < secret.len() ==> #[trigger] s.y@[b] as int == peval(
            share_poly(secret, k, coeffs, b),
            s.x as int,
        ) % p()
}

/// The points of a list of shares.
pub open spec fn share_xs(shares: Seq<Share>) -> Seq<int> {
    Seq::new(shares.len(), |j: int| shares[j].x as int)
}

/// The values that a list of shares holds for byte `b`.
pub open spec fn share_ys(shares: Seq<Share>, b: int) -> Seq<int> {
    Seq::new(shares.len(), |j: int| shares[j].y@[b] as int)
}

pub open spec fn points_distinct(shares: Seq<Share>) -> bool {
    forall|i: int, j: int|
        0 <= i < shares.len() && 0 <= j < shares.len() && i != j ==> #[trigger] shares[i].x
            != #[trigger] shares[j].x
}

pub open spec fn lengths_agree(shares: Seq<Share>) -> bool {
    forall|j: int| 0 <= j < shares.len() ==> #[trigger] shares[j].y@.len() == shares[0].y@.len()
}

pub open spec fn values_in_field(shares: Seq<Share>) -> bool {
    forall|j: int, b: int|
        0 <= j < shares.len() && 0 <= b < shares[j].y@.len() ==> #[trigger] shares[j].y@[b] < 257
}

/// The recovered value of byte `b`, in `[0, 257)`.
pub open spec fn recovered_value(shares: Seq<Share>, b: int) -> int {
    interpolate_at_zero(share_xs(shares), share_ys(shares, b))
}

/// What recovery gives for a list of shares.
pub open spec fn spec_recover(shares: Seq<Share>) -> Result<Seq<u8>, ShamirError> {
    if shares.len() == 0 {
        Err(ShamirError::NoShares)
    } else if !points_distinct(shares) {
        Err(ShamirError::DuplicateShare)
    } else if !lengths_agree(shares) {
        Err(ShamirError::MismatchedLengths)
    } else if !values_in_field(shares) {
        Err(ShamirError::InvalidShareValue)
    } else if exists|b: int| 0 <= b < shares[0].y@.len() && #[trigger] recovered_value(shares, b) >= 256 {
        Err(ShamirError::InconsistentShares)
    } else {
        Ok(Seq::new(shares[0].y@.len(), |b: int| recovered_value(shares, b) as u8))
    }
}

/// Draws one element of GF(257) uniformly.
///
/// Calls `rand::Rng::gen_range` on the thread-local generator; the contract
/// claims only what its documentation promises, that the value lies in the range.
#[verifier::external_body]
fn random_field_element() -> (r: u16)
    ensures
        r < 257,
{
    rand::thread_rng().gen_range(0..257u16)
}

/// Evaluates `share_poly(secret, k, coeffs, b)` at `x` by Horner's rule.
fn eval_share_poly(secret: &[u8], k: usize, coeffs: &[u16], b: usize, x: u8) -> (r: u16)
    requires
        valid_coefficients(secret@, k as nat, coeffs@),
        b < secret@.len(),
    ensures
        r as int == peval(share_poly(secret@, k as nat, coeffs@, b as int), x as int) % p(),
        r < 257,
{
    let ghost c = share_poly(secret@, k as nat, coeffs@, b as int);
    let d = k - 1;
    let clen = coeffs.len();
    proof {
        vstd::arithmetic::mul::lemma_mul_inequality(b as int + 1, secret@.len() as int, d as int);
        vstd::arithmetic::mul::lemma_mul_is_distributive_add_other_way(d as int, b as int, 1);
        assert((b as int + 1) * d as int == b as int * d as int + d as int);
        assert(b as int * d as int + d as int <= clen);
    }
    let base = b * d;
    let mut acc: u32 = 0;
    let mut t: usize = d;
    assert(c.subrange(k as int, k as int) =~= Seq::<int>::empty());
    while t > 0
        invariant
            t <= d,
            d == k - 1,
            k >= 1,
            base + d <= coeffs@.len(),
            clen == coeffs@.len(),
            base == b * d,
            c == share_poly(secret@, k as nat, coeffs@, b as int),
            c.len() == k,
            valid_coefficients(secret@, k as nat, coeffs@),
            acc as int == peval(c.subrange(t + 1, k as int), x as int) % p(),
            acc < 257,
        decreases t,
    {
        let ct = coeffs[base + t - 1];
        assert(c[t as int] == ct as int);
        let ghost sub = c.subrange(t as int, k as int);
        assert(sub.drop_first() =~= c.subrange(t + 1, k as int));
        assert(acc * x <= 256 * 255) by (nonlinear_arith)
            requires
                acc < 257,
                x < 256,
        ;
        proof {
            let rest = peval(c.subrange(t + 1, k as int), x as int);
            lemma_mul_mod_noop_right(x as int, rest, p());
            lemma_add_mod_noop_right(ct as int, x * rest, p());
            assert(peval(sub, x as int) == ct as int + x * rest);
            assert((acc * x + ct) as int % p() == (ct as int + x * (rest % p())) % p());
        }
        acc = (acc * x as u32 + ct as u32) % 257;
        t = t - 1;
    }
    let s = secret[b];
    let ghost sub = c.subrange(0, k as int);
    assert(sub.drop_first() =~= c.subrange(1, k as int));
    assert(sub =~= c);
    assert(acc * x <= 256 * 255) by (nonlinear_arith)
        requires
            acc < 257,
            x < 256,
    ;
    proof {
        let rest = peval(c.subrange(1, k as int), x as int);
        lemma_mul_mod_noop_right(x as int, rest, p());
        lemma_add_mod_noop_right(s as int, x * rest, p());
        assert(c[0] == s as int);
        assert(peval(sub, x as int) == s as int + x * rest);
        assert((acc * x + s) as int % p() == (s as int + x * (rest % p())) % p());
    }
    ((acc * x as u32 + s as u32) % 257) as u16
}

impl SecretSharer {
    /// Splits `secret` into `n` shares at the points `1..=n`, any `k` of which
    /// recover it, using the given random coefficients.
    pub fn split_with_coefficients(secret: &[u8], n: u8, k: u8, coeffs: &[u16]) -> (r: Vec<Share>)
        requires
            valid_coefficients(secret@, k as nat, coeffs@),
        ensures
            r@.len() == n,
            forall|i: int| 0 <= i < n ==> (#[trigger] r@[i]).x == i + 1,
            forall|i: int|
                0 <= i < n ==> is_share_of(secret@, k as nat, coeffs@, #[trigger] r@[i]),
    {
        let mut shares: Vec<Share> = Vec::new();
        let mut i: u8 = 0;
        while i < n
            invariant
                i <= n,
                valid_coefficients(secret@, k as nat, coeffs@),
                shares@.len() == i,
                forall|j: int| 0 <= j < i ==> (#[trigger] shares@[j]).x == j + 1,
                forall|j: int|
                    0 <= j < i ==> is_share_of(secret@, k as nat, coeffs@, #[trigger] shares@[j]),
            decreases n - i,
        {
            let x = i + 1;
            let mut y: Vec<u16> = Vec::new();
            let mut b: usize = 0;
            while b < secret.len()
                invariant
                    b <= secret@.len(),
                    valid_coefficients(secret@, k as nat, coeffs@),
                    y@.len() == b,
                    forall|c: int|
                        0 <= c < b ==> #[trigger] y@[c] as int == peval(
                            share_poly(secret@, k as nat, coeffs@, c),
                            x as int,
                        ) % p(),
                decreases secret@.len() - b,
            {
                let v = eval_share_poly(secret, k as usize, coeffs, b, x);
                y.push(v);
                b = b + 1;
            }
            let s = Share { x, y };
            assert(is_share_of(secret@, k as nat, coeffs@, s));
            shares.push(s);
            i = i + 1;
        }
        shares
    }

    /// Splits `secret` into `n` shares at the points `1..=n`, any `k` of which
    /// recover it; the polynomials' other coefficients are drawn at random.
    pub fn split_secret(&self, secret: &[u8], n: u8, k: u8) -> (r: Vec<Share>)
        requires
            k >= 1,
            secret@.len() * (k - 1) <= usize::MAX,
        ensures
            r@.len() == n,
            forall|i: int| 0 <= i < n ==> (#[trigger] r@[i]).x == i + 1,
            exists|coeffs: Seq<u16>|
                #[trigger] valid_coefficients(secret@, k as nat, coeffs) && forall|i: int|
                    0 <= i < n ==> is_share_of(secret@, k as nat, coeffs, #[trigger] r@[i]),
    {
        let count = secret.len() * (k as usize - 1);
        let mut coeffs: Vec<u16> = Vec::new();
        while coeffs.len() < count
            invariant
                coeffs@.len() <= count,
                forall|i: int| 0 <= i < coeffs@.len() ==> #[trigger] coeffs@[i] < 257,
            decreases count - coeffs@.len(),
        {
            coeffs.push(random_field_element());
        }
        let r = Self::split_with_coefficients(secret, n, k, &coeffs);
        assert(valid_coefficients(secret@, k as nat, coeffs@));
        r
    }

    /// Recovers the secret from shares by Lagrange interpolation at zero.
    pub fn recover_secret(shares: &[Share]) -> (r: Result<Vec<u8>, ShamirError>)
        ensures
            match r {
                Ok(v) => spec_recover(shares@) == Ok::<Seq<u8>, ShamirError>(v@),
                Err(e) => spec_recover(shares@) == Err::<Seq<u8>, ShamirError>(e),
            },
    {
        let cnt = shares.len();
        if cnt == 0 {
            return Err(ShamirError::NoShares);
        }
        // distinct points
        let mut i: usize = 0;
        while i < cnt
            invariant
                cnt == shares@.len(),
                i <= cnt,
                forall|a: int, c: int|
                    0 <= a < i && 0 <= c < cnt && a != c ==> #[trigger] shares@[a].x
                        != #[trigger] shares@[c].x,
            decreases cnt - i,
        {
            let mut j: usize = 0;
            while j < cnt
                invariant
                    cnt == shares@.len(),
                    i < cnt,
                    j <= cnt,
                    forall|a: int, c: int|
                        0 <= a < i && 0 <= c < cnt && a != c ==> #[trigger] shares@[a].x
                            != #[trigger] shares@[c].x,
                    forall|c: int| 0 <= c < j && c != i ==> shares@[i as int].x != #[trigger] shares@[c].x,
                decreases cnt - j,
            {
                if j != i && shares[i].x == shares[j].x {
                    return Err(ShamirError::DuplicateShare);
                }
                j = j + 1;
            }
            i = i + 1;
        }
        assert(points_distinct(shares@));
        // equal lengths
        let len = shares[0].y.len();
        let mut j: usize = 0;
        while j < cnt
            invariant
                cnt == shares@.len(),
                cnt > 0,
                len == shares@[0].y@.len(),
                points_distinct(shares@),
                j <= cnt,
                forall|c: int| 0 <= c < j ==> #[trigger] shares@[c].y@.len() == len,
            decreases cnt - j,
        {
            if shares[j].y.len() != len {
                assert(!lengths_agree(shares@));
                return Err(ShamirError::MismatchedLengths);
            }
            j = j + 1;
        }
        assert(lengths_agree(shares@));
        // values in the field
        let mut j: usize = 0;
        while j < cnt
            invariant
                cnt == shares@.len(),
                cnt > 0,
                lengths_agree(shares@),
                points_distinct(shares@),
                len == shares@[0].y@.len(),
                j <= cnt,
                forall|c: int, b: int|
                    0 <= c < j && 0 <= b < shares@[c].y@.len() ==> #[trigger] shares@[c].y@[b] < 257,
            decreases cnt - j,
        {
            let mut b: usize = 0;
            while b < len
                invariant
                    cnt == shares@.len(),
                    j < cnt,
                    lengths_agree(shares@),
                    points_distinct(shares@),
                    len == shares@[0].y@.len(),
                    b <= len,
                    forall|c: int, d: int|
                        0 <= c < j && 0 <= d < shares@[c].y@.len() ==> #[trigger] shares@[c].y@[d]
                            < 257,
                    forall|d: int| 0 <= d < b ==> #[trigger] shares@[j as int].y@[d] < 257,
                decreases len - b,
            {
                assert(shares@[j as int].y@.len() == len);
                if shares[j].y[b] >= 257 {
                    assert(!values_in_field(shares@));
                    return Err(ShamirError::InvalidShareValue);
                }
                b = b + 1;
            }
            j = j + 1;
        }
        assert(values_in_field(shares@));
        let ghost xs = share_xs(shares@);
        // Lagrange coefficients at zero
        let mut coeffs: Vec<u32> = Vec::new();
        let mut j: usize = 0;
        while j < cnt
            invariant
                cnt == shares@.len(),
                cnt > 0,
                xs == share_xs(shares@),
                points_distinct(shares@),
                lengths_agree(shares@),
                values_in_field(shares@),
                len == shares@[0].y@.len(),
                j <= cnt,
                coeffs@.len() == j,
                forall|c: int|
                    0 <= c < j ==> #[trigger] coeffs@[c] as int == lagrange_at_zero(xs, c, cnt as nat),
                forall|c: int| 0 <= c < j ==> #[trigger] coeffs@[c] < 257,
            decreases cnt - j,
        {
            let l = lagrange_coefficient(shares, j);
            coeffs.push(l);
            j = j + 1;
        }
        // per byte
        let mut out: Vec<u8> = Vec::new();
        let mut b: usize = 0;
        while b < len
            invariant
                cnt == shares@.len(),
                cnt > 0,
                len == shares@[0].y@.len(),
                lengths_agree(shares@),
                points_distinct(shares@),
                values_in_field(shares@),
                xs == share_xs(shares@),
                coeffs@.len() == cnt,
                forall|c: int|
                    0 <= c < cnt ==> #[trigger] coeffs@[c] as int == lagrange_at_zero(xs, c, cnt as nat),
                forall|c: int| 0 <= c < cnt ==> #[trigger] coeffs@[c] < 257,
                b <= len,
                out@.len() == b,
                forall|d: int| 0 <= d < b ==> recovered_value(shares@, d) < 256,
                forall|d: int| 0 <= d < b ==> #[trigger] out@[d] == recovered_value(shares@, d) as u8,
            decreases len - b,
        {
            let ghost ys = share_ys(shares@, b as int);
            let mut acc: u32 = 0;
            let mut j: usize = 0;
            while j < cnt
                invariant
                    cnt == shares@.len(),
                    b < len,
                    len == shares@[0].y@.len(),
                    lengths_agree(shares@),
                    values_in_field(shares@),
                    xs == share_xs(shares@),
                    ys == share_ys(shares@, b as int),
                    coeffs@.len() == cnt,
                    forall|c: int|
                        0 <= c < cnt ==> #[trigger] coeffs@[c] as int == lagrange_at_zero(
                            xs,
                            c,
                            cnt as nat,
                        ),
                    forall|c: int| 0 <= c < cnt ==> #[trigger] coeffs@[c] < 257,
                    j <= cnt,
                    acc < 257,
                    acc as int == lagrange_sum(xs, ys, j as nat) % p(),
                decreases cnt - j,
            {
                assert(shares@[j as int].y@.len() == len);
                let yv = shares[j].y[b];
                assert(yv < 257);
                let l = coeffs[j];
                assert(yv as u32 * l <= 256 * 256) by (nonlinear_arith)
                    requires
                        yv < 257,
                        l < 257,
                ;
                proof {
                    assert(ys[j as int] == yv as int);
                    lemma_add_mod_noop(
                        lagrange_sum(xs, ys, j as nat),
                        ys[j as int] * lagrange_at_zero(xs, j as int, xs.len()),
                        p(),
                    );
                    let ls = lagrange_sum(xs, ys, j as nat);
                    let t = (yv as u32 * l) as int;
                    assert(t == ys[j as int] * lagrange_at_zero(xs, j as int, xs.len()));
                    lemma_small_mod(acc as nat, 257);
                    lemma_add_mod_noop(ls, t, p());
                    lemma_add_mod_noop(acc as int, t, p());
                }
                acc = (acc + yv as u32 * l) % 257;
                j = j + 1;
            }
            assert(acc as int == recovered_value(shares@, b as int));
            if acc >= 256 {
                return Err(ShamirError::InconsistentShares);
            }
            out.push(acc as u8);
            b = b + 1;
        }
        assert(out@ =~= Seq::new(len as nat, |d: int| recovered_value(shares@, d) as u8));
        Ok(out)
    }
}

/// The Lagrange coefficient at zero of share `j`.
fn lagrange_coefficient(shares: &[Share], j: usize) -> (r: u32)
    requires
        j < shares@.len(),
        points_distinct(shares@),
    ensures
        r as int == lagrange_at_zero(share_xs(shares@), j as int, shares@.len()),
        r < 257,
{
    let ghost xs = share_xs(shares@);
    let cnt = shares.len();
    let xj = shares[j].x as u32;
    let mut acc: u32 = 1;
    let mut m: usize = 0;
    while m < cnt
        invariant
            cnt == shares@.len(),
            j < cnt,
            xs == share_xs(shares@),
            points_distinct(shares@),
            xj == shares@[j as int].x,
            m <= cnt,
            acc < 257,
            acc as int == lagrange_at_zero(xs, j as int, m as nat),
        decreases cnt - m,
    {
        if m != j {
            let xm = shares[m].x as u32;
            assert(xs[m as int] == xm as int);
            assert(xs[j as int] == xj as int);
            assert(xm != xj);
            let negx = (257 - xm) % 257;
            assert(acc * negx <= 256 * 256) by (nonlinear_arith)
                requires
                    acc < 257,
                    negx < 257,
            ;
            let t = (acc * negx) % 257;
            let d = (xj + 257 - xm) % 257;
            proof {
                if xj > xm {
                    lemma_mod_sub_multiples_vanish((xj + 257 - xm) as int, 257);
                    lemma_small_mod((xj - xm) as nat, 257);
                } else {
                    lemma_small_mod((xj + 257 - xm) as nat, 257);
                }
                assert(0 < d < 257);
                lemma_mod_add_multiples_vanish(xj as int - xm as int, 257);
                assert(cong(d as int, xj as int - xm as int));
                lemma_small_mod(d as nat, 257);
                lemma_inv_cong(d as int, xj as int - xm as int);
            }
            let iv = field_inverse(d as u16);
            assert(t * iv <= 256 * 256) by (nonlinear_arith)
                requires
                    t < 257,
                    iv < 257,
            ;
            acc = (t * iv as u32) % 257;
        }
        m = m + 1;
    }
    acc
}

/// Any `k` or more shares of one sharing, at distinct points, give back the secret.
pub proof fn lemma_recover_split(secret: Seq<u8>, k: nat, coeffs: Seq<u16>, chosen: Seq<Share>)
    requires
        valid_coefficients(secret, k, coeffs),
        chosen.len() >= k,
        points_distinct(chosen),
        forall|c: int| 0 <= c < chosen.len() ==> is_share_of(secret, k, coeffs, #[trigger] chosen[c]),
    ensures
        spec_recover(chosen) == Ok::<Seq<u8>, ShamirError>(secret),
{
    let xs = share_xs(chosen);
    assert(chosen[0].y@.len() == secret.len());
    assert(lengths_agree(chosen));
    assert forall|j: int, b: int|
        0 <= j < chosen.len() && 0 <= b < chosen[j].y@.len() implies #[trigger] chosen[j].y@[b] < 257 by {
        assert(is_share_of(secret, k, coeffs, chosen[j]));
        lemma_mod_bound(peval(share_poly(secret, k, coeffs, b), chosen[j].x as int), p());
    }
    assert(distinct_mod(xs)) by {
        assert forall|i: int, j: int|
            0 <= i < xs.len() && 0 <= j < xs.len() && i != j implies !cong(#[trigger] xs[i], #[trigger] xs[j]) by {
            lemma_small_mod(chosen[i].x as nat, 257);
            lemma_small_mod(chosen[j].x as nat, 257);
        }
    }
    assert forall|b: int| 0 <= b < secret.len() implies #[trigger] recovered_value(chosen, b) == secret[b] as int by {
        let c = share_poly(secret, k, coeffs, b);
        let ys = share_ys(chosen, b);
        assert forall|i: int| 0 <= i < xs.len() implies cong(#[trigger] ys[i], peval(c, xs[i])) by {
            assert(is_share_of(secret, k, coeffs, chosen[i]));
            lemma_mod_twice(peval(c, xs[i]), p());
        }
        lemma_interpolation(c, xs, ys);
        lemma_small_mod(secret[b] as nat, 257);
        lemma_mod_bound(lagrange_sum(xs, ys, xs.len()), p());
    }
    assert(Seq::new(chosen[0].y@.len(), |b: int| recovered_value(chosen, b) as u8) =~= secret);
}

} // verus!
