//! The incomplete point-addition gate: over a window of three rows that hold
//! `P`, `Q` and `R`, each flagged row holds a curve point and `R = P + Q`
//! under the affine addition law for points with distinct x-coordinates.
//!
//! The window is anchored at its middle row: `P` lies one row before the
//! anchor, `Q` at the anchor and `R` one row after it. The law is not defined
//! for `P = Q` or `P = -Q`; with equal x-coordinates of `P` and `Q` the two
//! addition polynomials constrain `R` only as far as their cleared
//! denominators allow, and with `P = Q` not at all.

use crate::expr::{difference_of, product_of, square_of, sum_of, Expr, CUR, NEXT, PREV};
use crate::field::Fe;
use crate::is_valid_ec_point_gadget::{curve_polynomial, ValidECPointChip};
use crate::region::{
    assigned, canonical_values, distinct_places, fits, is_at, write_all, AdviceColumn, Cell, Column,
    Error, FixedColumn, Region, Selector,
};
use crate::system::ConstraintSystem;
use vstd::prelude::*;

verus! {

/// The columns and flags of the addition gate.
#[derive(Clone, Copy, Debug, PartialEq, Eq, Structural)]
pub struct ECPointsAddConfig {
    pub x: AdviceColumn,
    pub y: AdviceColumn,
    pub q_add_enable: Selector,
    pub q_valid_check_enable: FixedColumn,
}

/// The point-addition gate.
#[derive(Clone, Copy, Debug)]
pub struct ECPointsAddChip {
    pub config: ECPointsAddConfig,
}

/// The cell of column `x`, `rotation` rows from the anchor.
pub open spec fn advice_cell(column: AdviceColumn, rotation: i32) -> Expr {
    Expr::Advice { column: column.index, rotation }
}

/// The "valid point" flag `rotation` rows from the anchor.
pub open spec fn flag_cell(flag: FixedColumn, rotation: i32) -> Expr {
    Expr::Fixed { column: flag.index, rotation }
}

/// The membership polynomial of the row `rotation` rows from the anchor,
/// weighted by that row's flag: `flag * (y^2 - x^3 - 5)`.
pub open spec fn membership_polynomial(config: ECPointsAddConfig, rotation: i32) -> Expr {
    product_of(
        flag_cell(config.q_valid_check_enable, rotation),
        curve_polynomial(config.x, config.y, rotation),
    )
}

/// `q_add * ((r_x + q_x + p_x) * (p_x - q_x)^2 - (p_y - q_y)^2)`.
pub open spec fn addition_x_polynomial(config: ECPointsAddConfig) -> Expr {
    let p_x = advice_cell(config.x, PREV);
    let p_y = advice_cell(config.y, PREV);
    let q_x = advice_cell(config.x, CUR);
    let q_y = advice_cell(config.y, CUR);
    let r_x = advice_cell(config.x, NEXT);
    product_of(
        Expr::Selector(config.q_add_enable.index),
        difference_of(
            product_of(sum_of(sum_of(r_x, q_x), p_x), square_of(difference_of(p_x, q_x))),
            square_of(difference_of(p_y, q_y)),
        ),
    )
}

/// `q_add * ((r_y + q_y) * (p_x - q_x) - (p_y - q_y) * (q_x - r_x))`.
pub open spec fn addition_y_polynomial(config: ECPointsAddConfig) -> Expr {
    let p_x = advice_cell(config.x, PREV);
    let p_y = advice_cell(config.y, PREV);
    let q_x = advice_cell(config.x, CUR);
    let q_y = advice_cell(config.y, CUR);
    let r_x = advice_cell(config.x, NEXT);
    let r_y = advice_cell(config.y, NEXT);
    product_of(
        Expr::Selector(config.q_add_enable.index),
        difference_of(
            product_of(sum_of(r_y, q_y), difference_of(p_x, q_x)),
            product_of(difference_of(p_y, q_y), difference_of(q_x, r_x)),
        ),
    )
}

/// The five polynomials of the addition gate: the three weighted membership
/// polynomials of `P`, `Q` and `R`, then the two addition polynomials.
pub open spec fn addition_gate_polys(config: ECPointsAddConfig) -> Seq<Expr> {
    seq![
        membership_polynomial(config, PREV),
        membership_polynomial(config, CUR),
        membership_polynomial(config, NEXT),
        addition_x_polynomial(config),
        addition_y_polynomial(config),
    ]
}

/// The four gates that `configure` registers, in order: the membership gate
/// of each row of the window, then the addition gate.
pub open spec fn configured_gates(config: ECPointsAddConfig) -> Seq<Seq<Expr>> {
    seq![
        seq![membership_polynomial(config, PREV)],
        seq![membership_polynomial(config, CUR)],
        seq![membership_polynomial(config, NEXT)],
        addition_gate_polys(config),
    ]
}

/// The ten cells of one witness, in the order of writing: the addition
/// selector at the middle row, then for each of `P`, `Q`, `R` its x cell,
/// its y cell and its "valid point" flag, set to one.
pub open spec fn witness_cells(
    config: ECPointsAddConfig,
    p_x: Fe,
    p_y: Fe,
    q_x: Fe,
    q_y: Fe,
    r_x: Fe,
    r_y: Fe,
) -> Seq<Cell> {
    let x = Column::Advice(config.x.index);
    let y = Column::Advice(config.y.index);
    let flag = Column::Fixed(config.q_valid_check_enable.index);
    seq![
        Cell { column: Column::Selector(config.q_add_enable.index), row: 1, value: Fe::unit() },
        Cell { column: x, row: 0, value: p_x },
        Cell { column: y, row: 0, value: p_y },
        Cell { column: flag, row: 0, value: Fe::unit() },
        Cell { column: x, row: 1, value: q_x },
        Cell { column: y, row: 1, value: q_y },
        Cell { column: flag, row: 1, value: Fe::unit() },
        Cell { column: x, row: 2, value: r_x },
        Cell { column: y, row: 2, value: r_y },
        Cell { column: flag, row: 2, value: Fe::unit() },
    ]
}

/// The places that a witness takes: the addition selector at the middle
/// row, and the x, y and flag cells of the three rows.
pub open spec fn witness_place(config: ECPointsAddConfig, column: Column, row: int) -> bool {
    ||| column == Column::Selector(config.q_add_enable.index) && row == 1
    ||| 0 <= row < 3 && (column == Column::Advice(config.x.index) || column == Column::Advice(
        config.y.index,
    ) || column == Column::Fixed(config.q_valid_check_enable.index))
}

/// A witness takes exactly its ten places.
pub proof fn lemma_witness_places(
    config: ECPointsAddConfig,
    p_x: Fe,
    p_y: Fe,
    q_x: Fe,
    q_y: Fe,
    r_x: Fe,
    r_y: Fe,
    column: Column,
    row: int,
)
    ensures
        assigned(witness_cells(config, p_x, p_y, q_x, q_y, r_x, r_y), column, row) <==> witness_place(
            config,
            column,
            row,
        ),
{
    let w = witness_cells(config, p_x, p_y, q_x, q_y, r_x, r_y);
    if assigned(w, column, row) {
        let i = choose|i: int| 0 <= i < w.len() && is_at(#[trigger] w[i], column, row);
        assert(i == 0 || i == 1 || i == 2 || i == 3 || i == 4 || i == 5 || i == 6 || i == 7 || i == 8 || i
            == 9);
    }
    if witness_place(config, column, row) {
        assert(is_at(w[0], w[0].column, 1));
        assert(is_at(w[1], w[1].column, 0) && is_at(w[2], w[2].column, 0) && is_at(w[3], w[3].column, 0));
        assert(is_at(w[4], w[4].column, 1) && is_at(w[5], w[5].column, 1) && is_at(w[6], w[6].column, 1));
        assert(is_at(w[7], w[7].column, 2) && is_at(w[8], w[8].column, 2) && is_at(w[9], w[9].column, 2));
    }
}

/// A witness fits into a region exactly when the region has three rows or
/// more, the ten places are free and the x and y columns differ.
pub proof fn lemma_witness_fits(
    config: ECPointsAddConfig,
    span: int,
    cells: Seq<Cell>,
    p_x: Fe,
    p_y: Fe,
    q_x: Fe,
    q_y: Fe,
    r_x: Fe,
    r_y: Fe,
)
    ensures
        fits(span, cells, witness_cells(config, p_x, p_y, q_x, q_y, r_x, r_y)) <==> {
            &&& span >= 3
            &&& config.x != config.y
            &&& forall|column: Column, row: int| #[trigger]
                witness_place(config, column, row) ==> !assigned(cells, column, row)
        },
{
    let w = witness_cells(config, p_x, p_y, q_x, q_y, r_x, r_y);
    if fits(span, cells, w) {
        assert(w[7].row < span);
        assert(!is_at(w[1], w[2].column, w[2].row as int));
        assert forall|column: Column, row: int| #[trigger]
            witness_place(config, column, row) implies !assigned(cells, column, row) by {
            lemma_witness_places(config, p_x, p_y, q_x, q_y, r_x, r_y, column, row);
            let j = choose|j: int| 0 <= j < w.len() && is_at(#[trigger] w[j], column, row);
            assert(!assigned(cells, w[j].column, w[j].row as int));
        }
    }
    if span >= 3 && config.x != config.y && (forall|column: Column, row: int| #[trigger]
        witness_place(config, column, row) ==> !assigned(cells, column, row)) {
        assert forall|j: int| 0 <= j < w.len() implies !assigned(
            cells,
            (#[trigger] w[j]).column,
            w[j].row as int,
        ) by {
            assert(is_at(w[j], w[j].column, w[j].row as int));
            lemma_witness_places(config, p_x, p_y, q_x, q_y, r_x, r_y, w[j].column, w[j].row as int);
        }
        assert(distinct_places(w));
    }
}

impl ECPointsAddChip {
    /// Wraps a configuration.
    pub fn construct(config: ECPointsAddConfig) -> (r: ECPointsAddChip)
        ensures
            r.config == config,
    {
        ECPointsAddChip { config }
    }

    /// Allocates the addition selector and the "valid point" flag column,
    /// registers one membership gate for each row of the window, weighted by
    /// that row's flag, and then the addition gate with its five
    /// polynomials.
    pub fn configure(meta: &mut ConstraintSystem, x: AdviceColumn, y: AdviceColumn) -> (config:
        ECPointsAddConfig)
        requires
            old(meta).selector_count() < usize::MAX,
            old(meta).fixed_count() < usize::MAX,
        ensures
            config.x == x,
            config.y == y,
            config.q_add_enable.index == old(meta).selector_count(),
            config.q_valid_check_enable.index == old(meta).fixed_count(),
            final(meta).selector_count() == old(meta).selector_count() + 1,
            final(meta).fixed_count() == old(meta).fixed_count() + 1,
            final(meta).advice_count() == old(meta).advice_count(),
            final(meta).gate_polys() == old(meta).gate_polys() + configured_gates(config),
            final(meta).gate_names() == old(meta).gate_names().push("is valid EC point"@).push(
                "is valid EC point"@,
            ).push("is valid EC point"@).push("P(x, y) + Q(x, y) = R(x, y)"@),
    {
        let q_add_enable = meta.selector();
        let q_valid_check_enable = meta.fixed_column();
        let config = ECPointsAddConfig { x, y, q_add_enable, q_valid_check_enable };

        let valid_p = ValidECPointChip::configure(meta, flag(q_valid_check_enable, PREV), x, y, PREV);
        let valid_q = ValidECPointChip::configure(meta, flag(q_valid_check_enable, CUR), x, y, CUR);
        let valid_r = ValidECPointChip::configure(meta, flag(q_valid_check_enable, NEXT), x, y, NEXT);

        let mut polys: Vec<Expr> = Vec::new();
        polys.push(flag(q_valid_check_enable, PREV).times(valid_p.is_valid_expr));
        polys.push(flag(q_valid_check_enable, CUR).times(valid_q.is_valid_expr));
        polys.push(flag(q_valid_check_enable, NEXT).times(valid_r.is_valid_expr));
        polys.push(
            Expr::Selector(q_add_enable.index).times(
                advice(x, NEXT).plus(advice(x, CUR)).plus(advice(x, PREV)).times(
                    advice(x, PREV).minus(advice(x, CUR)).square(),
                ).minus(advice(y, PREV).minus(advice(y, CUR)).square()),
            ),
        );
        polys.push(
            Expr::Selector(q_add_enable.index).times(
                advice(y, NEXT).plus(advice(y, CUR)).times(advice(x, PREV).minus(advice(x, CUR))).minus(
                    advice(y, PREV).minus(advice(y, CUR)).times(advice(x, CUR).minus(advice(x, NEXT))),
                ),
            ),
        );
        proof {
            assert(polys@ =~= addition_gate_polys(config));
        }
        meta.create_gate("P(x, y) + Q(x, y) = R(x, y)", polys);
        proof {
            assert(meta.gate_polys() =~= old(meta).gate_polys() + configured_gates(config));
        }
        config
    }

    /// Writes one witness `(P, Q, R)` into the first three rows of the
    /// region: enables the addition selector at the middle row, writes the
    /// three points and sets each row's "valid point" flag to one. Nothing
    /// is checked of the points themselves. A refused write is reported and
    /// ends the assignment; the cells written before it stay. All ten cells
    /// are written exactly when the region has three rows or more, the ten
    /// places are free and the x and y columns differ.
    pub fn assign(
        &self,
        region: &mut Region,
        p_x: Fe,
        p_y: Fe,
        q_x: Fe,
        q_y: Fe,
        r_x: Fe,
        r_y: Fe,
    ) -> (res: Result<(), Error>)
        requires
            old(region).wf(),
            p_x.wf(),
            p_y.wf(),
            q_x.wf(),
            q_y.wf(),
            r_x.wf(),
            r_y.wf(),
        ensures
            final(region).wf(),
            final(region).span() == old(region).span(),
            final(region).cells() == write_all(
                old(region).span(),
                old(region).cells(),
                witness_cells(self.config, p_x, p_y, q_x, q_y, r_x, r_y),
            ).0,
            match write_all(
                old(region).span(),
                old(region).cells(),
                witness_cells(self.config, p_x, p_y, q_x, q_y, r_x, r_y),
            ).1 {
                None => res is Ok,
                Some(e) => res == Err::<(), Error>(e),
            },
            res is Ok <==> {
                &&& old(region).span() >= 3
                &&& self.config.x != self.config.y
                &&& forall|column: Column, row: int| #[trigger]
                    witness_place(self.config, column, row) ==> !assigned(old(region).cells(), column, row)
            },
            res is Ok ==> final(region).cells() == old(region).cells() + witness_cells(
                self.config,
                p_x,
                p_y,
                q_x,
                q_y,
                r_x,
                r_y,
            ),
    {
        let batch = self.witness(p_x, p_y, q_x, q_y, r_x, r_y);
        proof {
            lemma_witness_fits(self.config, old(region).span(), old(region).cells(), p_x, p_y, q_x, q_y, r_x, r_y);
        }
        region.assign_all(&batch)
    }

    /// The ten cells of one witness, in the order in which `assign` writes
    /// them.
    pub fn witness(&self, p_x: Fe, p_y: Fe, q_x: Fe, q_y: Fe, r_x: Fe, r_y: Fe) -> (batch: Vec<Cell>)
        requires
            p_x.wf(),
            p_y.wf(),
            q_x.wf(),
            q_y.wf(),
            r_x.wf(),
            r_y.wf(),
        ensures
            batch@ == witness_cells(self.config, p_x, p_y, q_x, q_y, r_x, r_y),
            canonical_values(batch@),
    {
        let x = Column::Advice(self.config.x.index);
        let y = Column::Advice(self.config.y.index);
        let flag = Column::Fixed(self.config.q_valid_check_enable.index);
        let one = Fe::one();
        let mut batch: Vec<Cell> = Vec::new();
        batch.push(Cell { column: Column::Selector(self.config.q_add_enable.index), row: 1, value: one });
        batch.push(Cell { column: x, row: 0, value: p_x });
        batch.push(Cell { column: y, row: 0, value: p_y });
        batch.push(Cell { column: flag, row: 0, value: one });
        batch.push(Cell { column: x, row: 1, value: q_x });
        batch.push(Cell { column: y, row: 1, value: q_y });
        batch.push(Cell { column: flag, row: 1, value: one });
        batch.push(Cell { column: x, row: 2, value: r_x });
        batch.push(Cell { column: y, row: 2, value: r_y });
        batch.push(Cell { column: flag, row: 2, value: one });
        proof {
            assert(batch@ =~= witness_cells(self.config, p_x, p_y, q_x, q_y, r_x, r_y));
        }
        batch
    }
}

/// The query of a witness column's cell.
fn advice(column: AdviceColumn, rotation: i32) -> (r: Expr)
    ensures
        r == advice_cell(column, rotation),
{
    Expr::Advice { column: column.index, rotation }
}

/// The query of the "valid point" flag.
fn flag(column: FixedColumn, rotation: i32) -> (r: Expr)
    ensures
        r == flag_cell(column, rotation),
{
    Expr::Fixed { column: column.index, rotation }
}

} // verus!
