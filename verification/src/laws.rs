//! What the gates' polynomials say of the cells they read.

use crate::congruence::{
    congruent, lemma_congruent_add, lemma_congruent_mul, lemma_congruent_reduced,
    lemma_congruent_sub, lemma_fadd, lemma_fmul, lemma_fsub, lemma_weighted,
};
use crate::curve::{
    lemma_identities_force_sum, lemma_sum_meets_identities, lemma_sum_on_curve, on_curve, sum_x,
    sum_y, x_identity, y_identity,
};
use crate::ec_points_add_gadget::{
    addition_gate_polys, addition_x_polynomial, addition_y_polynomial, configured_gates, flag_cell,
    lemma_witness_fits, lemma_witness_places, membership_polynomial, witness_cells,
    ECPointsAddConfig,
};
use crate::expr::{product_of, Expr, CUR, NEXT, PREV};
use crate::field::{fadd, fmul, fneg, modulus, Fe};
use crate::is_valid_ec_point_gadget::curve_polynomial;
use crate::region::{
    distinct_places, lemma_read_distinct, lemma_write_all_verdict, reading, write_all, AdviceColumn,
    Cell, Column, Error,
};
use crate::system::all_vanish;
use vstd::arithmetic::div_mod::lemma_small_mod;
use vstd::prelude::*;

verus! {

/// The unweighted membership polynomial takes the residue of
/// `y^2 - x^3 - 5`.
pub proof fn lemma_curve_polynomial_value(
    x: AdviceColumn,
    y: AdviceColumn,
    rotation: i32,
    cells: spec_fn(Column, int) -> int,
    row: int,
)
    ensures
        ({
            let xv = cells(Column::Advice(x.index), row + rotation);
            let yv = cells(Column::Advice(y.index), row + rotation);
            curve_polynomial(x, y, rotation).eval(cells, row) == (yv * yv - xv * xv * xv - 5) % modulus()
        }),
{
    reveal_with_fuel(Expr::eval, 8);
    let xv = cells(Column::Advice(x.index), row + rotation);
    let yv = cells(Column::Advice(y.index), row + rotation);
    let yy = fmul(yv, yv);
    let xx = fmul(xv, xv);
    let xxx = fmul(xx, xv);
    let inner = fadd(yy, fneg(xxx));
    assert(curve_polynomial(x, y, rotation).eval(cells, row) == fadd(inner, fneg(5)));
    lemma_congruent_reduced(yv * yv);
    lemma_congruent_reduced(xv * xv);
    lemma_congruent_mul(xx, xv * xv, xv, xv);
    lemma_congruent_reduced(xx * xv);
    assert(congruent(xxx, xv * xv * xv));
    lemma_congruent_reduced(-xxx);
    lemma_congruent_sub(0, 0, xxx, xv * xv * xv);
    assert(congruent(fneg(xxx), -(xv * xv * xv)));
    lemma_congruent_add(yy, yv * yv, fneg(xxx), -(xv * xv * xv));
    lemma_congruent_reduced(yy + fneg(xxx));
    assert(congruent(inner, yv * yv - xv * xv * xv));
    lemma_congruent_reduced(-5);
    lemma_congruent_add(inner, yv * yv - xv * xv * xv, fneg(5), -5);
    lemma_congruent_reduced(inner + fneg(5));
    lemma_congruent_reduced(yv * yv - xv * xv * xv - 5);
}

/// Where the activation reads one, the membership gate's polynomial
/// vanishes exactly when the cells it reads hold a point of the curve: a
/// point on the curve is accepted, and any other is rejected by this
/// polynomial.
pub proof fn law_membership_sound(
    activation: Expr,
    x: AdviceColumn,
    y: AdviceColumn,
    rotation: i32,
    cells: spec_fn(Column, int) -> int,
    row: int,
)
    requires
        activation.eval(cells, row) == 1,
    ensures
        product_of(activation, curve_polynomial(x, y, rotation)).eval(cells, row) == 0 <==> on_curve(
            cells(Column::Advice(x.index), row + rotation),
            cells(Column::Advice(y.index), row + rotation),
        ),
{
    let xv = cells(Column::Advice(x.index), row + rotation);
    let yv = cells(Column::Advice(y.index), row + rotation);
    let c = curve_polynomial(x, y, rotation).eval(cells, row);
    lemma_curve_polynomial_value(x, y, rotation, cells, row);
    lemma_congruent_reduced(yv * yv - xv * xv * xv - 5);
    lemma_weighted(1, c);
    assert(product_of(activation, curve_polynomial(x, y, rotation)).eval(cells, row) == fmul(1, c)) by {
        reveal_with_fuel(Expr::eval, 2);
    }
    lemma_small_mod(0, modulus() as nat);
    if c == 0 {
        lemma_congruent_add(yv * yv - xv * xv * xv - 5, 0, xv * xv * xv + 5, xv * xv * xv + 5);
    }
    if on_curve(xv, yv) {
        lemma_congruent_sub(yv * yv, xv * xv * xv + 5, xv * xv * xv + 5, xv * xv * xv + 5);
    }
}

/// Where the activation reads zero, the membership gate's polynomial
/// vanishes whatever the cells hold, on the curve or off it.
pub proof fn law_membership_gated(
    activation: Expr,
    x: AdviceColumn,
    y: AdviceColumn,
    rotation: i32,
    cells: spec_fn(Column, int) -> int,
    row: int,
)
    requires
        activation.eval(cells, row) == 0,
    ensures
        product_of(activation, curve_polynomial(x, y, rotation)).eval(cells, row) == 0,
{
    let xv = cells(Column::Advice(x.index), row + rotation);
    let yv = cells(Column::Advice(y.index), row + rotation);
    let c = curve_polynomial(x, y, rotation).eval(cells, row);
    lemma_curve_polynomial_value(x, y, rotation, cells, row);
    lemma_congruent_reduced(yv * yv - xv * xv * xv - 5);
    lemma_weighted(0, c);
    assert(product_of(activation, curve_polynomial(x, y, rotation)).eval(cells, row) == fmul(0, c)) by {
        reveal_with_fuel(Expr::eval, 2);
    }
}

/// In the addition gate, a row whose "valid point" flag reads one passes
/// its membership polynomial exactly when it holds a point of the curve.
pub proof fn law_flagged_row_on_curve(
    config: ECPointsAddConfig,
    rotation: i32,
    cells: spec_fn(Column, int) -> int,
    row: int,
)
    requires
        cells(Column::Fixed(config.q_valid_check_enable.index), row + rotation) == 1,
    ensures
        membership_polynomial(config, rotation).eval(cells, row) == 0 <==> on_curve(
            cells(Column::Advice(config.x.index), row + rotation),
            cells(Column::Advice(config.y.index), row + rotation),
        ),
{
    law_membership_sound(
        flag_cell(config.q_valid_check_enable, rotation),
        config.x,
        config.y,
        rotation,
        cells,
        row,
    );
}

/// In the addition gate, a row whose "valid point" flag reads zero passes
/// its membership polynomial whatever it holds.
pub proof fn law_unflagged_row_passes(
    config: ECPointsAddConfig,
    rotation: i32,
    cells: spec_fn(Column, int) -> int,
    row: int,
)
    requires
        cells(Column::Fixed(config.q_valid_check_enable.index), row + rotation) == 0,
    ensures
        membership_polynomial(config, rotation).eval(cells, row) == 0,
{
    law_membership_gated(
        flag_cell(config.q_valid_check_enable, rotation),
        config.x,
        config.y,
        rotation,
        cells,
        row,
    );
}

/// The cells that the addition gate reads around anchor row `row`: the
/// coordinates of `P`, `Q` and `R`.
pub open spec fn window(config: ECPointsAddConfig, cells: spec_fn(Column, int) -> int, row: int) -> (
    int,
    int,
    int,
    int,
    int,
    int,
) {
    (
        cells(Column::Advice(config.x.index), row + PREV),
        cells(Column::Advice(config.y.index), row + PREV),
        cells(Column::Advice(config.x.index), row + CUR),
        cells(Column::Advice(config.y.index), row + CUR),
        cells(Column::Advice(config.x.index), row + NEXT),
        cells(Column::Advice(config.y.index), row + NEXT),
    )
}

/// The two addition polynomials take the selector's value times the
/// residues of the two addition identities.
pub proof fn lemma_addition_polynomial_values(
    config: ECPointsAddConfig,
    cells: spec_fn(Column, int) -> int,
    row: int,
)
    ensures
        ({
            let (p_x, p_y, q_x, q_y, r_x, r_y) = window(config, cells, row);
            let sel = cells(Column::Selector(config.q_add_enable.index), row);
            &&& addition_x_polynomial(config).eval(cells, row) == fmul(
                sel,
                x_identity(p_x, p_y, q_x, q_y, r_x) % modulus(),
            )
            &&& addition_y_polynomial(config).eval(cells, row) == fmul(
                sel,
                y_identity(p_x, p_y, q_x, q_y, r_x, r_y) % modulus(),
            )
        }),
{
    reveal_with_fuel(Expr::eval, 8);
    let (p_x, p_y, q_x, q_y, r_x, r_y) = window(config, cells, row);
    let sel = cells(Column::Selector(config.q_add_enable.index), row);
    let dx = fadd(p_x, fneg(q_x));
    let dy = fadd(p_y, fneg(q_y));
    lemma_fsub(p_x, p_x, q_x, q_x);
    lemma_fsub(p_y, p_y, q_y, q_y);

    let a = fadd(fadd(r_x, q_x), p_x);
    lemma_fadd(r_x, r_x, q_x, q_x);
    lemma_fadd(fadd(r_x, q_x), r_x + q_x, p_x, p_x);
    lemma_fmul(dx, p_x - q_x, dx, p_x - q_x);
    lemma_fmul(a, r_x + q_x + p_x, fmul(dx, dx), (p_x - q_x) * (p_x - q_x));
    lemma_fmul(dy, p_y - q_y, dy, p_y - q_y);
    let xl = fmul(a, fmul(dx, dx));
    let xr = fmul(dy, dy);
    lemma_fsub(
        xl,
        (r_x + q_x + p_x) * ((p_x - q_x) * (p_x - q_x)),
        xr,
        (p_y - q_y) * (p_y - q_y),
    );
    lemma_small_mod(fadd(xl, fneg(xr)) as nat, modulus() as nat);
    assert(addition_x_polynomial(config).eval(cells, row) == fmul(sel, fadd(xl, fneg(xr))));

    let b = fadd(r_y, q_y);
    let e = fadd(q_x, fneg(r_x));
    lemma_fadd(r_y, r_y, q_y, q_y);
    lemma_fsub(q_x, q_x, r_x, r_x);
    lemma_fmul(b, r_y + q_y, dx, p_x - q_x);
    lemma_fmul(dy, p_y - q_y, e, q_x - r_x);
    let yl = fmul(b, dx);
    let yr = fmul(dy, e);
    lemma_fsub(yl, (r_y + q_y) * (p_x - q_x), yr, (p_y - q_y) * (q_x - r_x));
    lemma_small_mod(fadd(yl, fneg(yr)) as nat, modulus() as nat);
    assert(addition_y_polynomial(config).eval(cells, row) == fmul(sel, fadd(yl, fneg(yr))));
}

/// Where the addition selector is zero, both addition polynomials vanish
/// whatever the window holds.
pub proof fn law_addition_gated(config: ECPointsAddConfig, cells: spec_fn(Column, int) -> int, row: int)
    requires
        cells(Column::Selector(config.q_add_enable.index), row) == 0,
    ensures
        addition_x_polynomial(config).eval(cells, row) == 0,
        addition_y_polynomial(config).eval(cells, row) == 0,
{
    let (p_x, p_y, q_x, q_y, r_x, r_y) = window(config, cells, row);
    lemma_addition_polynomial_values(config, cells, row);
    lemma_congruent_reduced(x_identity(p_x, p_y, q_x, q_y, r_x));
    lemma_congruent_reduced(y_identity(p_x, p_y, q_x, q_y, r_x, r_y));
    lemma_weighted(0, x_identity(p_x, p_y, q_x, q_y, r_x) % modulus());
    lemma_weighted(0, y_identity(p_x, p_y, q_x, q_y, r_x, r_y) % modulus());
}

/// In a window whose anchor has the addition selector at one and whose
/// points `P` and `Q` have distinct x-coordinates (`q_x - p_x` has the
/// inverse `inv`), both addition polynomials vanish only if `R` is
/// `P + Q`: any other `R` makes one of the two polynomials fail.
pub proof fn law_addition_sound(
    config: ECPointsAddConfig,
    cells: spec_fn(Column, int) -> int,
    row: int,
    inv: int,
)
    requires
        cells(Column::Selector(config.q_add_enable.index), row) == 1,
        0 <= window(config, cells, row).4 < modulus(),
        0 <= window(config, cells, row).5 < modulus(),
        congruent(inv * (window(config, cells, row).2 - window(config, cells, row).0), 1),
        addition_x_polynomial(config).eval(cells, row) == 0,
        addition_y_polynomial(config).eval(cells, row) == 0,
    ensures
        ({
            let (p_x, p_y, q_x, q_y, r_x, r_y) = window(config, cells, row);
            &&& r_x == sum_x(p_x, p_y, q_x, q_y, inv)
            &&& r_y == sum_y(p_x, p_y, q_x, q_y, inv)
        }),
{
    let (p_x, p_y, q_x, q_y, r_x, r_y) = window(config, cells, row);
    lemma_addition_polynomial_values(config, cells, row);
    lemma_congruent_reduced(x_identity(p_x, p_y, q_x, q_y, r_x));
    lemma_congruent_reduced(y_identity(p_x, p_y, q_x, q_y, r_x, r_y));
    lemma_weighted(1, x_identity(p_x, p_y, q_x, q_y, r_x) % modulus());
    lemma_weighted(1, y_identity(p_x, p_y, q_x, q_y, r_x, r_y) % modulus());
    lemma_small_mod(0, modulus() as nat);
    lemma_identities_force_sum(p_x, p_y, q_x, q_y, r_x, r_y, inv);
}

/// In a window whose points `P` and `Q` have distinct x-coordinates
/// (`q_x - p_x` has the inverse `inv`) and whose `R` is `P + Q`, both
/// addition polynomials vanish, whatever the selector reads.
pub proof fn law_addition_complete(
    config: ECPointsAddConfig,
    cells: spec_fn(Column, int) -> int,
    row: int,
    inv: int,
)
    requires
        0 <= cells(Column::Selector(config.q_add_enable.index), row) <= 1,
        congruent(inv * (window(config, cells, row).2 - window(config, cells, row).0), 1),
        ({
            let (p_x, p_y, q_x, q_y, r_x, r_y) = window(config, cells, row);
            &&& r_x == sum_x(p_x, p_y, q_x, q_y, inv)
            &&& r_y == sum_y(p_x, p_y, q_x, q_y, inv)
        }),
    ensures
        addition_x_polynomial(config).eval(cells, row) == 0,
        addition_y_polynomial(config).eval(cells, row) == 0,
{
    let (p_x, p_y, q_x, q_y, r_x, r_y) = window(config, cells, row);
    let sel = cells(Column::Selector(config.q_add_enable.index), row);
    lemma_addition_polynomial_values(config, cells, row);
    lemma_sum_meets_identities(p_x, p_y, q_x, q_y, inv);
    lemma_congruent_reduced(x_identity(p_x, p_y, q_x, q_y, r_x));
    lemma_congruent_reduced(y_identity(p_x, p_y, q_x, q_y, r_x, r_y));
    lemma_small_mod(0, modulus() as nat);
    lemma_weighted(sel, 0);
}

/// Where `P` and `Q` hold the same residues, both addition polynomials
/// vanish whatever `R` holds: on the doubling case the addition gate constrains
/// nothing beyond the membership of the three points.
pub proof fn law_addition_vacuous_on_equal_points(
    config: ECPointsAddConfig,
    cells: spec_fn(Column, int) -> int,
    row: int,
)
    requires
        0 <= cells(Column::Selector(config.q_add_enable.index), row) <= 1,
        window(config, cells, row).0 == window(config, cells, row).2,
        window(config, cells, row).1 == window(config, cells, row).3,
    ensures
        addition_x_polynomial(config).eval(cells, row) == 0,
        addition_y_polynomial(config).eval(cells, row) == 0,
{
    let (p_x, p_y, q_x, q_y, r_x, r_y) = window(config, cells, row);
    let sel = cells(Column::Selector(config.q_add_enable.index), row);
    lemma_addition_polynomial_values(config, cells, row);
    assert(x_identity(p_x, p_y, q_x, q_y, r_x) == 0) by (nonlinear_arith)
        requires
            p_x == q_x,
            p_y == q_y,
    ;
    assert(y_identity(p_x, p_y, q_x, q_y, r_x, r_y) == 0) by (nonlinear_arith)
        requires
            p_x == q_x,
            p_y == q_y,
    ;
    lemma_small_mod(0, modulus() as nat);
    lemma_weighted(sel, 0);
}

/// A witness written into an empty region of three or more rows, by a gate
/// whose x and y columns differ, is written whole: no write is refused.
pub proof fn law_fresh_assignment_succeeds(
    config: ECPointsAddConfig,
    span: int,
    p_x: Fe,
    p_y: Fe,
    q_x: Fe,
    q_y: Fe,
    r_x: Fe,
    r_y: Fe,
)
    requires
        span >= 3,
        config.x != config.y,
    ensures
        distinct_places(witness_cells(config, p_x, p_y, q_x, q_y, r_x, r_y)),
        write_all(span, Seq::<Cell>::empty(), witness_cells(config, p_x, p_y, q_x, q_y, r_x, r_y)) == (
            witness_cells(config, p_x, p_y, q_x, q_y, r_x, r_y),
            None::<Error>,
        ),
{
    let batch = witness_cells(config, p_x, p_y, q_x, q_y, r_x, r_y);
    assert(Seq::<Cell>::empty() + batch =~= batch);
    lemma_witness_fits(config, span, Seq::<Cell>::empty(), p_x, p_y, q_x, q_y, r_x, r_y);
    lemma_write_all_verdict(span, Seq::<Cell>::empty(), batch);
}

/// The coordinates that a witness holds at row `row`: those of `P`, `Q` and
/// `R` at rows 0, 1 and 2.
pub open spec fn witness_point(p_x: Fe, p_y: Fe, q_x: Fe, q_y: Fe, r_x: Fe, r_y: Fe, row: int) -> (int, int) {
    if row == 0 {
        (p_x.value(), p_y.value())
    } else if row == 1 {
        (q_x.value(), q_y.value())
    } else {
        (r_x.value(), r_y.value())
    }
}

/// What the gates read from a witness written by a chip whose x and y
/// columns differ: at each of the three rows the "valid point" flag reads
/// one and the x and y cells hold that row's point; the addition selector
/// reads one at the middle row; every other flag and selector cell reads
/// zero.
pub proof fn law_witness_layout(
    config: ECPointsAddConfig,
    p_x: Fe,
    p_y: Fe,
    q_x: Fe,
    q_y: Fe,
    r_x: Fe,
    r_y: Fe,
    row: int,
)
    requires
        config.x != config.y,
    ensures
        ({
            let cells = reading(witness_cells(config, p_x, p_y, q_x, q_y, r_x, r_y));
            let flag = cells(Column::Fixed(config.q_valid_check_enable.index), row);
            let selector = cells(Column::Selector(config.q_add_enable.index), row);
            let point = witness_point(p_x, p_y, q_x, q_y, r_x, r_y, row);
            &&& selector == (if row == 1 { 1int } else { 0int })
            &&& flag == (if 0 <= row < 3 { 1int } else { 0int })
            &&& 0 <= row < 3 ==> cells(Column::Advice(config.x.index), row) == point.0
            &&& 0 <= row < 3 ==> cells(Column::Advice(config.y.index), row) == point.1
        }),
{
    let written = witness_cells(config, p_x, p_y, q_x, q_y, r_x, r_y);
    law_fresh_assignment_succeeds(config, 3, p_x, p_y, q_x, q_y, r_x, r_y);
    lemma_read_distinct(written, 0);
    lemma_read_distinct(written, 1);
    lemma_read_distinct(written, 2);
    lemma_read_distinct(written, 3);
    lemma_read_distinct(written, 4);
    lemma_read_distinct(written, 5);
    lemma_read_distinct(written, 6);
    lemma_read_distinct(written, 7);
    lemma_read_distinct(written, 8);
    lemma_read_distinct(written, 9);
    Fe::lemma_unit_value();
    lemma_witness_places(
        config,
        p_x,
        p_y,
        q_x,
        q_y,
        r_x,
        r_y,
        Column::Fixed(config.q_valid_check_enable.index),
        row,
    );
    lemma_witness_places(config, p_x, p_y, q_x, q_y, r_x, r_y, Column::Selector(config.q_add_enable.index), row);
}

/// Whether the four configured gates hold at every row of a region of
/// three rows.
pub open spec fn accepted(config: ECPointsAddConfig, cells: spec_fn(Column, int) -> int) -> bool {
    forall|g: int, row: int|
        0 <= g < 4 && 0 <= row < 3 ==> #[trigger] all_vanish(configured_gates(config)[g], cells, row)
}

/// What each of the five polynomials says at one row of a written witness.
pub proof fn lemma_row_verdict(
    config: ECPointsAddConfig,
    p_x: Fe,
    p_y: Fe,
    q_x: Fe,
    q_y: Fe,
    r_x: Fe,
    r_y: Fe,
    row: int,
)
    requires
        config.x != config.y,
        0 <= row < 3,
    ensures
        ({
            let cells = reading(witness_cells(config, p_x, p_y, q_x, q_y, r_x, r_y));
            let before = witness_point(p_x, p_y, q_x, q_y, r_x, r_y, row - 1);
            let here = witness_point(p_x, p_y, q_x, q_y, r_x, r_y, row);
            let after = witness_point(p_x, p_y, q_x, q_y, r_x, r_y, row + 1);
            let first = x_identity(p_x.value(), p_y.value(), q_x.value(), q_y.value(), r_x.value());
            let second = y_identity(
                p_x.value(),
                p_y.value(),
                q_x.value(),
                q_y.value(),
                r_x.value(),
                r_y.value(),
            );
            &&& membership_polynomial(config, PREV).eval(cells, row) == 0 <==> row == 0 || on_curve(
                before.0,
                before.1,
            )
            &&& membership_polynomial(config, CUR).eval(cells, row) == 0 <==> on_curve(here.0, here.1)
            &&& membership_polynomial(config, NEXT).eval(cells, row) == 0 <==> row == 2 || on_curve(
                after.0,
                after.1,
            )
            &&& addition_x_polynomial(config).eval(cells, row) == 0 <==> row != 1 || congruent(first, 0)
            &&& addition_y_polynomial(config).eval(cells, row) == 0 <==> row != 1 || congruent(second, 0)
        }),
{
    let cells = reading(witness_cells(config, p_x, p_y, q_x, q_y, r_x, r_y));
    law_witness_layout(config, p_x, p_y, q_x, q_y, r_x, r_y, row - 1);
    law_witness_layout(config, p_x, p_y, q_x, q_y, r_x, r_y, row);
    law_witness_layout(config, p_x, p_y, q_x, q_y, r_x, r_y, row + 1);
    if row == 0 {
        law_unflagged_row_passes(config, PREV, cells, row);
    } else {
        law_flagged_row_on_curve(config, PREV, cells, row);
    }
    law_flagged_row_on_curve(config, CUR, cells, row);
    if row == 2 {
        law_unflagged_row_passes(config, NEXT, cells, row);
    } else {
        law_flagged_row_on_curve(config, NEXT, cells, row);
    }
    if row == 1 {
        let first = x_identity(p_x.value(), p_y.value(), q_x.value(), q_y.value(), r_x.value());
        let second = y_identity(p_x.value(), p_y.value(), q_x.value(), q_y.value(), r_x.value(), r_y.value());
        lemma_addition_polynomial_values(config, cells, row);
        lemma_congruent_reduced(first);
        lemma_congruent_reduced(second);
        lemma_weighted(1, first % modulus());
        lemma_weighted(1, second % modulus());
        lemma_small_mod(0, modulus() as nat);
    } else {
        law_addition_gated(config, cells, row);
    }
}

/// A witness written by a chip whose x and y columns differ passes all
/// four gates at all three rows exactly when `P`, `Q` and `R` lie on the
/// curve and the two addition identities hold of them.
pub proof fn law_witness_accepted(config: ECPointsAddConfig, p_x: Fe, p_y: Fe, q_x: Fe, q_y: Fe, r_x: Fe, r_y: Fe)
    requires
        config.x != config.y,
    ensures
        accepted(config, reading(witness_cells(config, p_x, p_y, q_x, q_y, r_x, r_y))) <==> {
            &&& on_curve(p_x.value(), p_y.value())
            &&& on_curve(q_x.value(), q_y.value())
            &&& on_curve(r_x.value(), r_y.value())
            &&& congruent(x_identity(p_x.value(), p_y.value(), q_x.value(), q_y.value(), r_x.value()), 0)
            &&& congruent(
                y_identity(p_x.value(), p_y.value(), q_x.value(), q_y.value(), r_x.value(), r_y.value()),
                0,
            )
        },
{
    let cells = reading(witness_cells(config, p_x, p_y, q_x, q_y, r_x, r_y));
    let gates = configured_gates(config);
    let polys = addition_gate_polys(config);
    lemma_row_verdict(config, p_x, p_y, q_x, q_y, r_x, r_y, 0);
    lemma_row_verdict(config, p_x, p_y, q_x, q_y, r_x, r_y, 1);
    lemma_row_verdict(config, p_x, p_y, q_x, q_y, r_x, r_y, 2);
    if accepted(config, cells) {
        assert(all_vanish(gates[3], cells, 1));
        assert(polys[0].eval(cells, 1) == 0);
        assert(polys[1].eval(cells, 1) == 0);
        assert(polys[2].eval(cells, 1) == 0);
        assert(polys[3].eval(cells, 1) == 0);
        assert(polys[4].eval(cells, 1) == 0);
    }
    if on_curve(p_x.value(), p_y.value()) && on_curve(q_x.value(), q_y.value()) && on_curve(
        r_x.value(),
        r_y.value(),
    ) && congruent(x_identity(p_x.value(), p_y.value(), q_x.value(), q_y.value(), r_x.value()), 0)
        && congruent(
        y_identity(p_x.value(), p_y.value(), q_x.value(), q_y.value(), r_x.value(), r_y.value()),
        0,
    ) {
        assert forall|g: int, row: int| 0 <= g < 4 && 0 <= row < 3 implies #[trigger] all_vanish(
            gates[g],
            cells,
            row,
        ) by {
            assert forall|k: int| 0 <= k < gates[g].len() implies (#[trigger] gates[g][k]).eval(cells, row)
                == 0 by {
                if g == 0 {
                    assert(gates[g][k] == membership_polynomial(config, PREV));
                } else if g == 1 {
                    assert(gates[g][k] == membership_polynomial(config, CUR));
                } else if g == 2 {
                    assert(gates[g][k] == membership_polynomial(config, NEXT));
                } else {
                    assert(gates[g][k] == polys[k]);
                }
            }
        }
    }
}

/// For `P` and `Q` with distinct x-coordinates (`q_x - p_x` has the
/// inverse `inv`), a witness written by a chip whose x and y columns
/// differ passes all four gates at all three rows exactly when `P` and `Q`
/// lie on the curve and `R` is `P + Q`.
pub proof fn law_accepted_iff_sum(
    config: ECPointsAddConfig,
    p_x: Fe,
    p_y: Fe,
    q_x: Fe,
    q_y: Fe,
    r_x: Fe,
    r_y: Fe,
    inv: int,
)
    requires
        config.x != config.y,
        r_x.wf(),
        r_y.wf(),
        congruent(inv * (q_x.value() - p_x.value()), 1),
    ensures
        accepted(config, reading(witness_cells(config, p_x, p_y, q_x, q_y, r_x, r_y))) <==> {
            &&& on_curve(p_x.value(), p_y.value())
            &&& on_curve(q_x.value(), q_y.value())
            &&& r_x.value() == sum_x(p_x.value(), p_y.value(), q_x.value(), q_y.value(), inv)
            &&& r_y.value() == sum_y(p_x.value(), p_y.value(), q_x.value(), q_y.value(), inv)
        },
{
    let (px, py, qx, qy) = (p_x.value(), p_y.value(), q_x.value(), q_y.value());
    law_witness_accepted(config, p_x, p_y, q_x, q_y, r_x, r_y);
    if accepted(config, reading(witness_cells(config, p_x, p_y, q_x, q_y, r_x, r_y))) {
        lemma_identities_force_sum(px, py, qx, qy, r_x.value(), r_y.value(), inv);
    }
    if on_curve(px, py) && on_curve(qx, qy) && r_x.value() == sum_x(px, py, qx, qy, inv) && r_y.value()
        == sum_y(px, py, qx, qy, inv) {
        lemma_sum_meets_identities(px, py, qx, qy, inv);
        lemma_sum_on_curve(px, py, qx, qy, inv);
    }
}

} // verus!
