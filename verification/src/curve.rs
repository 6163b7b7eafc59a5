//! The curve `y^2 = x^3 + 5` and the affine addition law for points with
//! distinct x-coordinates, over residues of the field.

use crate::congruence::{
    congruent, lemma_congruent_add, lemma_congruent_mul, lemma_congruent_reduced,
    lemma_congruent_residues, lemma_congruent_sub, lemma_fmul,
};
use crate::field::{fmul, fneg, modulus, Fe};
use vstd::arithmetic::div_mod::lemma_small_mod;
use vstd::prelude::*;

verus! {

/// The point `(x, y)` satisfies `y^2 = x^3 + 5` in the field.
pub open spec fn on_curve(x: int, y: int) -> bool {
    congruent(y * y, x * x * x + 5)
}

/// The slope of the line through `P` and `Q`, given an inverse `inv` of
/// `q_x - p_x`.
pub open spec fn slope(p_x: int, p_y: int, q_x: int, q_y: int, inv: int) -> int {
    fmul(q_y - p_y, inv)
}

/// The x-coordinate of `P + Q` for points with distinct x-coordinates,
/// given an inverse `inv` of `q_x - p_x`: `d^2 - p_x - q_x`.
pub open spec fn sum_x(p_x: int, p_y: int, q_x: int, q_y: int, inv: int) -> int {
    let d = slope(p_x, p_y, q_x, q_y, inv);
    (d * d - p_x - q_x) % modulus()
}

/// The y-coordinate of `P + Q` for points with distinct x-coordinates,
/// given an inverse `inv` of `q_x - p_x`: `-p_y - d * (r_x - p_x)`.
pub open spec fn sum_y(p_x: int, p_y: int, q_x: int, q_y: int, inv: int) -> int {
    let d = slope(p_x, p_y, q_x, q_y, inv);
    (-p_y - d * (sum_x(p_x, p_y, q_x, q_y, inv) - p_x)) % modulus()
}

/// The first addition identity, before the selector weights it:
/// `(r_x + q_x + p_x) * (p_x - q_x)^2 - (p_y - q_y)^2`.
pub open spec fn x_identity(p_x: int, p_y: int, q_x: int, q_y: int, r_x: int) -> int {
    (r_x + q_x + p_x) * ((p_x - q_x) * (p_x - q_x)) - (p_y - q_y) * (p_y - q_y)
}

/// The second addition identity, before the selector weights it:
/// `(r_y + q_y) * (p_x - q_x) - (p_y - q_y) * (q_x - r_x)`.
pub open spec fn y_identity(p_x: int, p_y: int, q_x: int, q_y: int, r_x: int, r_y: int) -> int {
    (r_y + q_y) * (p_x - q_x) - (p_y - q_y) * (q_x - r_x)
}

/// If the two addition identities hold of residues `P`, `Q`, `R` and
/// `q_x - p_x` has the inverse `inv`, then `R` is the sum of `P` and `Q`.
pub proof fn lemma_identities_force_sum(p_x: int, p_y: int, q_x: int, q_y: int, r_x: int, r_y: int, inv: int)
    requires
        0 <= r_x < modulus(),
        0 <= r_y < modulus(),
        congruent(inv * (q_x - p_x), 1),
        congruent(x_identity(p_x, p_y, q_x, q_y, r_x), 0),
        congruent(y_identity(p_x, p_y, q_x, q_y, r_x, r_y), 0),
    ensures
        r_x == sum_x(p_x, p_y, q_x, q_y, inv),
        r_y == sum_y(p_x, p_y, q_x, q_y, inv),
{
    let a = r_x + q_x + p_x;
    let dx = p_x - q_x;
    let dy = p_y - q_y;
    let u = inv * dx;
    let d0 = (q_y - p_y) * inv;
    let d = slope(p_x, p_y, q_x, q_y, inv);
    lemma_congruent_reduced(d0);
    assert(congruent(d, d0));

    // u = inv * (p_x - q_x) is congruent to -1, so u * u to 1.
    assert(inv * (q_x - p_x) == -u) by (nonlinear_arith)
        requires
            u == inv * dx,
            dx == p_x - q_x,
    ;
    lemma_congruent_sub(0, 0, -u, 1);
    assert(congruent(u, -1));
    lemma_congruent_mul(u, -1, u, -1);
    assert((-1) * (-1) == 1) by (nonlinear_arith);
    assert(congruent(u * u, 1));

    // a * dx^2 is congruent to dy^2; multiplied by inv^2 this gives a ~ d0^2.
    lemma_congruent_add(x_identity(p_x, p_y, q_x, q_y, r_x), 0, dy * dy, dy * dy);
    assert(congruent(a * (dx * dx), dy * dy));
    lemma_congruent_mul(a * (dx * dx), dy * dy, inv * inv, inv * inv);
    assert(a * (dx * dx) * (inv * inv) == a * (u * u)) by (nonlinear_arith)
        requires
            u == inv * dx,
    ;
    assert(dy * dy * (inv * inv) == d0 * d0) by (nonlinear_arith)
        requires
            d0 == (q_y - p_y) * inv,
            dy == p_y - q_y,
    ;
    lemma_congruent_mul(a, a, u * u, 1);
    assert(a * 1 == a) by (nonlinear_arith);
    assert(congruent(a, d0 * d0));
    lemma_congruent_mul(d, d0, d, d0);
    assert(congruent(a, d * d));
    lemma_congruent_sub(a, d * d, q_x + p_x, q_x + p_x);
    lemma_small_mod(r_x as nat, modulus() as nat);
    assert(r_x == sum_x(p_x, p_y, q_x, q_y, inv));

    // (r_y + q_y) * dx is congruent to dy * (q_x - r_x); multiplied by inv
    // this gives r_y + q_y ~ d0 * (q_x - r_x).
    let b = r_y + q_y;
    let e = q_x - r_x;
    lemma_congruent_add(y_identity(p_x, p_y, q_x, q_y, r_x, r_y), 0, dy * e, dy * e);
    assert(congruent(b * dx, dy * e));
    lemma_congruent_mul(b * dx, dy * e, inv, inv);
    assert(b * dx * inv == b * u) by (nonlinear_arith)
        requires
            u == inv * dx,
    ;
    assert(dy * e * inv == -(d0 * e)) by (nonlinear_arith)
        requires
            d0 == (q_y - p_y) * inv,
            dy == p_y - q_y,
    ;
    lemma_congruent_mul(b, b, u, -1);
    assert(b * (-1) == -b) by (nonlinear_arith);
    assert(congruent(-b, -(d0 * e)));
    lemma_congruent_sub(0, 0, -b, -(d0 * e));
    assert(congruent(b, d0 * e));
    lemma_congruent_mul(d, d0, e, e);
    assert(congruent(b, d * e));

    // d * (q_x - p_x) is congruent to q_y - p_y.
    lemma_congruent_mul(d, d0, q_x - p_x, q_x - p_x);
    assert(d0 * (q_x - p_x) == (q_y - p_y) * (-u)) by (nonlinear_arith)
        requires
            d0 == (q_y - p_y) * inv,
            u == inv * dx,
            dx == p_x - q_x,
    ;
    lemma_congruent_mul(q_y - p_y, q_y - p_y, -u, 1);
    assert((q_y - p_y) * 1 == q_y - p_y) by (nonlinear_arith);
    assert(congruent(d * (q_x - p_x), q_y - p_y));

    // r_y ~ d * e - q_y = d * (q_x - p_x) - d * (r_x - p_x) - q_y.
    lemma_congruent_sub(b, d * e, q_y, q_y);
    assert(congruent(r_y, d * e - q_y));
    assert(d * e == d * (q_x - p_x) - d * (r_x - p_x)) by (nonlinear_arith)
        requires
            e == q_x - r_x,
    ;
    lemma_congruent_sub(d * (q_x - p_x), q_y - p_y, d * (r_x - p_x) + q_y, d * (r_x - p_x) + q_y);
    assert(congruent(r_y, -p_y - d * (r_x - p_x)));
    lemma_small_mod(r_y as nat, modulus() as nat);
}

/// If `R` is the sum of `P` and `Q`, computed with an inverse `inv` of
/// `q_x - p_x`, then both addition identities hold.
pub proof fn lemma_sum_meets_identities(p_x: int, p_y: int, q_x: int, q_y: int, inv: int)
    requires
        congruent(inv * (q_x - p_x), 1),
    ensures
        ({
            let r_x = sum_x(p_x, p_y, q_x, q_y, inv);
            let r_y = sum_y(p_x, p_y, q_x, q_y, inv);
            &&& congruent(x_identity(p_x, p_y, q_x, q_y, r_x), 0)
            &&& congruent(y_identity(p_x, p_y, q_x, q_y, r_x, r_y), 0)
        }),
{
    let r_x = sum_x(p_x, p_y, q_x, q_y, inv);
    let r_y = sum_y(p_x, p_y, q_x, q_y, inv);
    let a = r_x + q_x + p_x;
    let dx = p_x - q_x;
    let dy = p_y - q_y;
    let u = inv * dx;
    let d0 = (q_y - p_y) * inv;
    let d = slope(p_x, p_y, q_x, q_y, inv);
    lemma_congruent_reduced(d0);
    lemma_congruent_reduced(d * d - p_x - q_x);
    lemma_congruent_reduced(-p_y - d * (r_x - p_x));

    assert(inv * (q_x - p_x) == -u) by (nonlinear_arith)
        requires
            u == inv * dx,
            dx == p_x - q_x,
    ;
    lemma_congruent_sub(0, 0, -u, 1);
    assert(congruent(u, -1));

    // d * dx is congruent to dy.
    lemma_congruent_mul(d, d0, dx, dx);
    assert(d0 * dx == (q_y - p_y) * u) by (nonlinear_arith)
        requires
            d0 == (q_y - p_y) * inv,
            u == inv * dx,
    ;
    lemma_congruent_mul(q_y - p_y, q_y - p_y, u, -1);
    assert((q_y - p_y) * (-1) == dy) by (nonlinear_arith)
        requires
            dy == p_y - q_y,
    ;
    assert(congruent(d * dx, dy));

    // a ~ d^2, so a * dx^2 ~ (d * dx)^2 ~ dy^2.
    lemma_congruent_add(r_x, d * d - p_x - q_x, q_x + p_x, q_x + p_x);
    assert(congruent(a, d * d));
    lemma_congruent_mul(a, d * d, dx * dx, dx * dx);
    assert(d * d * (dx * dx) == (d * dx) * (d * dx)) by (nonlinear_arith);
    lemma_congruent_mul(d * dx, dy, d * dx, dy);
    assert(congruent(a * (dx * dx), dy * dy));
    lemma_congruent_sub(a * (dx * dx), dy * dy, dy * dy, dy * dy);

    // (r_y + q_y) * dx ~ (-dy - d * (r_x - p_x)) * dx ~ dy * (q_x - r_x).
    let b = r_y + q_y;
    let e = q_x - r_x;
    lemma_congruent_add(r_y, -p_y - d * (r_x - p_x), q_y, q_y);
    assert(congruent(b, -dy - d * (r_x - p_x)));
    lemma_congruent_mul(b, -dy - d * (r_x - p_x), dx, dx);
    assert((-dy - d * (r_x - p_x)) * dx == -(dy * dx) - (d * dx) * (r_x - p_x)) by (nonlinear_arith);
    lemma_congruent_mul(d * dx, dy, r_x - p_x, r_x - p_x);
    lemma_congruent_sub(-(dy * dx), -(dy * dx), (d * dx) * (r_x - p_x), dy * (r_x - p_x));
    assert(-(dy * dx) - dy * (r_x - p_x) == dy * e) by (nonlinear_arith)
        requires
            dx == p_x - q_x,
            e == q_x - r_x,
    ;
    assert(congruent(b * dx, dy * e));
    lemma_congruent_sub(b * dx, dy * e, dy * e, dy * e);
}

/// The slope times the difference of the x-coordinates is the difference
/// of the y-coordinates.
pub proof fn lemma_slope(p_x: int, p_y: int, q_x: int, q_y: int, inv: int)
    requires
        congruent(inv * (q_x - p_x), 1),
    ensures
        congruent(slope(p_x, p_y, q_x, q_y, inv) * (q_x - p_x), q_y - p_y),
{
    let d0 = (q_y - p_y) * inv;
    let d = slope(p_x, p_y, q_x, q_y, inv);
    lemma_congruent_reduced(d0);
    lemma_congruent_mul(d, d0, q_x - p_x, q_x - p_x);
    assert(d0 * (q_x - p_x) == (q_y - p_y) * (inv * (q_x - p_x))) by (nonlinear_arith)
        requires
            d0 == (q_y - p_y) * inv,
    ;
    lemma_congruent_mul(q_y - p_y, q_y - p_y, inv * (q_x - p_x), 1);
    assert((q_y - p_y) * 1 == q_y - p_y) by (nonlinear_arith);
}

/// The cubic `x^3 + 5 - (p_y + d * (x - p_x))^2`, which vanishes where the
/// line through `P` with slope `d` meets the curve.
pub open spec fn chord_cubic(p_x: int, p_y: int, d: int, x: int) -> int {
    x * x * x + 5 - (p_y + d * (x - p_x)) * (p_y + d * (x - p_x))
}

/// The coefficient of `x` in what the chord cubic leaves over the product
/// `(x - p_x) * (x - q_x) * (x - c)`.
pub open spec fn chord_linear(p_x: int, p_y: int, q_x: int, d: int, c: int) -> int {
    2 * (d * d * p_x) - 2 * (p_y * d) - (p_x * q_x + (p_x + q_x) * c)
}

/// The constant in what the chord cubic leaves over the product
/// `(x - p_x) * (x - q_x) * (x - c)`.
pub open spec fn chord_constant(p_x: int, p_y: int, q_x: int, d: int, c: int) -> int {
    5 - p_y * p_y + 2 * (p_y * d * p_x) - d * d * (p_x * p_x) + p_x * q_x * c
}

/// With `c = d^2 - p_x - q_x`, the chord cubic is the product
/// `(x - p_x) * (x - q_x) * (x - c)` plus a polynomial of degree one.
pub proof fn lemma_chord_division(p_x: int, p_y: int, q_x: int, d: int, x: int)
    ensures
        ({
            let c = d * d - p_x - q_x;
            chord_cubic(p_x, p_y, d, x) == (x - p_x) * (x - q_x) * (x - c) + chord_linear(
                p_x,
                p_y,
                q_x,
                d,
                c,
            ) * x + chord_constant(p_x, p_y, q_x, d, c)
        }),
{
    let c = d * d - p_x - q_x;
    let dd = d * d;
    let xx = x * x;
    let t = x - p_x;
    let m = d * t;
    let line = p_y + m;
    let k = p_y * d;

    // The square of the line's value, by powers of x.
    assert(line * line == p_y * p_y + 2 * (p_y * m) + m * m) by (nonlinear_arith)
        requires
            line == p_y + m,
    ;
    assert(p_y * m == k * t) by (nonlinear_arith)
        requires
            m == d * t,
            k == p_y * d,
    ;
    assert(k * t == k * x - k * p_x) by (nonlinear_arith)
        requires
            t == x - p_x,
    ;
    assert(m * m == dd * (t * t)) by (nonlinear_arith)
        requires
            m == d * t,
            dd == d * d,
    ;
    assert(t * t == xx - 2 * (p_x * x) + p_x * p_x) by (nonlinear_arith)
        requires
            t == x - p_x,
            xx == x * x,
    ;
    let px2 = p_x * p_x;
    let pxx = p_x * x;
    assert(dd * (xx - 2 * pxx + px2) == dd * xx - 2 * (dd * pxx) + dd * px2) by (nonlinear_arith);
    assert(dd * pxx == (dd * p_x) * x) by (nonlinear_arith)
        requires
            pxx == p_x * x,
    ;

    // The product of the three linear factors, by powers of x.
    let e1 = p_x + q_x;
    let e2 = p_x * q_x;
    let u = (x - p_x) * (x - q_x);
    assert(u == xx - e1 * x + e2) by (nonlinear_arith)
        requires
            u == (x - p_x) * (x - q_x),
            xx == x * x,
            e1 == p_x + q_x,
            e2 == p_x * q_x,
    ;
    assert(u * (x - c) == u * x - u * c) by (nonlinear_arith);
    assert((xx - e1 * x + e2) * x == xx * x - e1 * xx + e2 * x) by (nonlinear_arith)
        requires
            xx == x * x,
    ;
    assert((xx - e1 * x + e2) * c == c * xx - (e1 * c) * x + e2 * c) by (nonlinear_arith);
    assert((e1 + c) * xx == e1 * xx + c * xx) by (nonlinear_arith);
    assert(e1 + c == dd);

    // What is left over.
    let s2 = e2 + e1 * c;
    let a = chord_linear(p_x, p_y, q_x, d, c);
    assert(a == 2 * (dd * p_x) - 2 * k - s2);
    assert(a * x == 2 * ((dd * p_x) * x) - 2 * (k * x) - (e2 * x + (e1 * c) * x)) by (nonlinear_arith)
        requires
            a == 2 * (dd * p_x) - 2 * k - s2,
            s2 == e2 + e1 * c,
    ;
    assert(p_y * d * p_x == k * p_x);
    assert(d * d * (p_x * p_x) == dd * px2);
    assert(p_x * q_x * c == e2 * c);
}

/// The sum of two curve points with distinct x-coordinates lies on the
/// curve.
pub proof fn lemma_sum_on_curve(p_x: int, p_y: int, q_x: int, q_y: int, inv: int)
    requires
        on_curve(p_x, p_y),
        on_curve(q_x, q_y),
        congruent(inv * (q_x - p_x), 1),
    ensures
        on_curve(sum_x(p_x, p_y, q_x, q_y, inv), sum_y(p_x, p_y, q_x, q_y, inv)),
{
    let d = slope(p_x, p_y, q_x, q_y, inv);
    let c = d * d - p_x - q_x;
    let r_x = sum_x(p_x, p_y, q_x, q_y, inv);
    let r_y = sum_y(p_x, p_y, q_x, q_y, inv);
    let a = chord_linear(p_x, p_y, q_x, d, c);
    let b = chord_constant(p_x, p_y, q_x, d, c);
    lemma_slope(p_x, p_y, q_x, q_y, inv);

    // The cubic vanishes at p_x, where the line passes through P.
    lemma_chord_division(p_x, p_y, q_x, d, p_x);
    assert((p_x - p_x) * (p_x - q_x) * (p_x - c) == 0) by (nonlinear_arith);
    assert(p_y + d * (p_x - p_x) == p_y) by (nonlinear_arith);
    lemma_congruent_sub(p_x * p_x * p_x + 5, p_y * p_y, p_y * p_y, p_y * p_y);
    assert(congruent(a * p_x + b, 0));

    // The cubic vanishes at q_x, where the line passes through Q.
    lemma_chord_division(p_x, p_y, q_x, d, q_x);
    assert((q_x - p_x) * (q_x - q_x) * (q_x - c) == 0) by (nonlinear_arith);
    let at_q = p_y + d * (q_x - p_x);
    lemma_congruent_add(p_y, p_y, d * (q_x - p_x), q_y - p_y);
    lemma_congruent_mul(at_q, q_y, at_q, q_y);
    lemma_congruent_sub(q_x * q_x * q_x + 5, q_y * q_y, at_q * at_q, q_y * q_y);
    assert(congruent(a * q_x + b, 0));

    // What is left over vanishes at two places with an invertible
    // difference, so both its coefficients do.
    lemma_congruent_sub(a * q_x + b, 0, a * p_x + b, 0);
    assert((a * q_x + b) - (a * p_x + b) == a * (q_x - p_x)) by (nonlinear_arith);
    lemma_congruent_mul(a * (q_x - p_x), 0, inv, inv);
    assert(a * (q_x - p_x) * inv == a * (inv * (q_x - p_x))) by (nonlinear_arith);
    lemma_congruent_mul(a, a, inv * (q_x - p_x), 1);
    assert(a * 1 == a && 0 * inv == 0) by (nonlinear_arith);
    assert(congruent(a, 0));
    lemma_congruent_mul(a, 0, p_x, p_x);
    assert(0 * p_x == 0) by (nonlinear_arith);
    lemma_congruent_sub(a * p_x + b, 0, a * p_x, 0);
    assert(congruent(b, 0));
    lemma_congruent_mul(a, 0, c, c);
    assert(0 * c == 0) by (nonlinear_arith);
    lemma_congruent_add(a * c, 0, b, 0);

    // So the cubic vanishes at c as well.
    lemma_chord_division(p_x, p_y, q_x, d, c);
    assert((c - p_x) * (c - q_x) * (c - c) == 0) by (nonlinear_arith);
    let at_c = p_y + d * (c - p_x);
    assert(congruent(c * c * c + 5 - at_c * at_c, 0));
    lemma_congruent_add(c * c * c + 5 - at_c * at_c, 0, at_c * at_c, at_c * at_c);
    assert(congruent(c * c * c + 5, at_c * at_c));

    // r_x is c reduced, and r_y the line's value there, negated.
    lemma_congruent_reduced(c);
    lemma_congruent_reduced(-p_y - d * (r_x - p_x));
    lemma_congruent_sub(r_x, c, p_x, p_x);
    lemma_congruent_mul(d, d, r_x - p_x, c - p_x);
    lemma_congruent_sub(-p_y, -p_y, d * (r_x - p_x), d * (c - p_x));
    assert(congruent(r_y, -at_c));
    lemma_congruent_mul(r_y, -at_c, r_y, -at_c);
    assert((-at_c) * (-at_c) == at_c * at_c) by (nonlinear_arith);
    lemma_congruent_mul(r_x, c, r_x, c);
    lemma_congruent_mul(r_x * r_x, c * c, r_x, c);
    lemma_congruent_add(r_x * r_x * r_x, c * c * c, 5, 5);
}

/// The sum of `P` and `Q` under the affine addition law: with
/// `d = (q_y - p_y) / (q_x - p_x)`, the point
/// `(d^2 - p_x - q_x, -p_y - d * (r_x - p_x))`. There is none where the
/// x-coordinates are equal: the law covers neither `P = Q` nor `P = -Q`.
/// Nothing is asked of `P` and `Q` but residues; where both lie on the
/// curve, so does the sum.
pub fn incomplete_sum(p_x: Fe, p_y: Fe, q_x: Fe, q_y: Fe) -> (r: Option<(Fe, Fe)>)
    requires
        p_x.wf(),
        p_y.wf(),
        q_x.wf(),
        q_y.wf(),
    ensures
        match r {
            None => p_x.value() == q_x.value(),
            Some((r_x, r_y)) => {
                &&& p_x.value() != q_x.value()
                &&& r_x.wf()
                &&& r_y.wf()
                &&& exists|inv: int|
                    {
                        &&& congruent(inv * (q_x.value() - p_x.value()), 1)
                        &&& r_x.value() == #[trigger] sum_x(
                            p_x.value(),
                            p_y.value(),
                            q_x.value(),
                            q_y.value(),
                            inv,
                        )
                        &&& r_y.value() == sum_y(p_x.value(), p_y.value(), q_x.value(), q_y.value(), inv)
                    }
                &&& on_curve(p_x.value(), p_y.value()) && on_curve(q_x.value(), q_y.value()) ==> on_curve(
                    r_x.value(),
                    r_y.value(),
                )
            },
        },
{
    let ghost px = p_x.value();
    let ghost py = p_y.value();
    let ghost qx = q_x.value();
    let ghost qy = q_y.value();
    let dx = q_x.sub(&p_x);
    proof {
        lemma_congruent_reduced(qx - px);
        lemma_small_mod(0, modulus() as nat);
        if dx.value() == 0 {
            lemma_congruent_add(qx - px, 0, px, px);
            lemma_congruent_residues(qx, px);
        }
    }
    match dx.invert() {
        None => None,
        Some(inverse) => {
            let d = q_y.sub(&p_y).mul(&inverse);
            let r_x = d.square().sub(&p_x).sub(&q_x);
            let r_y = p_y.neg().sub(&d.mul(&r_x.sub(&p_x)));
            proof {
                let inv = inverse.value();
                let dv = d.value();
                // inv * (q_x - p_x) is congruent to one.
                lemma_fmul(inv, inv, dx.value(), qx - px);
                lemma_small_mod(1, modulus() as nat);
                assert(congruent(inv * (qx - px), 1));
                // d is the slope.
                lemma_congruent_reduced(qy - py);
                lemma_fmul((qy - py) % modulus(), qy - py, inv, inv);
                lemma_congruent_reduced((qy - py) * inv);
                lemma_congruent_residues(dv, slope(px, py, qx, qy, inv));
                // r_x = d^2 - p_x - q_x.
                lemma_fmul(dv, dv, dv, dv);
                lemma_congruent_sub(fmul(dv, dv), dv * dv, px, px);
                lemma_congruent_reduced(fmul(dv, dv) - px);
                lemma_congruent_sub((fmul(dv, dv) - px) % modulus(), dv * dv - px, qx, qx);
                lemma_congruent_reduced((fmul(dv, dv) - px) % modulus() - qx);
                lemma_congruent_reduced(dv * dv - px - qx);
                lemma_congruent_residues(r_x.value(), sum_x(px, py, qx, qy, inv));
                // r_y = -p_y - d * (r_x - p_x).
                let rv = r_x.value();
                lemma_congruent_reduced(rv - px);
                lemma_fmul(dv, dv, (rv - px) % modulus(), rv - px);
                lemma_congruent_reduced(-py);
                lemma_congruent_sub(fneg(py), -py, fmul(dv, (rv - px) % modulus()), dv * (rv - px));
                lemma_congruent_reduced(fneg(py) - fmul(dv, (rv - px) % modulus()));
                lemma_congruent_reduced(-py - dv * (rv - px));
                lemma_congruent_residues(r_y.value(), sum_y(px, py, qx, qy, inv));
                if on_curve(px, py) && on_curve(qx, qy) {
                    lemma_sum_on_curve(px, py, qx, qy, inv);
                }
            }
            Some((r_x, r_y))
        },
    }
}

} // verus!
