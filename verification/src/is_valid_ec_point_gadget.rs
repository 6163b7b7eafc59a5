//! The curve-membership gate: a cell pair `(x, y)` lies on `y^2 = x^3 + 5`
//! wherever an activation polynomial does not vanish.

use crate::expr::{difference_of, product_of, square_of, Expr};
use crate::field::Fe;
use crate::region::{
    assigned, canonical_values, fits, is_at, write_all, AdviceColumn, Cell, Column, Error, Region,
};
use crate::system::ConstraintSystem;
use vstd::prelude::*;

verus! {

/// The polynomial `y^2 - x^3 - 5` over the cells of columns `x` and `y`,
/// `rotation` rows from the anchor.
pub open spec fn curve_polynomial(x: AdviceColumn, y: AdviceColumn, rotation: i32) -> Expr {
    let x_cell = Expr::Advice { column: x.index, rotation };
    let y_cell = Expr::Advice { column: y.index, rotation };
    difference_of(
        difference_of(square_of(y_cell), product_of(square_of(x_cell), x_cell)),
        Expr::Constant(5),
    )
}

/// The two cells that hold a point at row `offset` of a region.
pub open spec fn point_cells(x: AdviceColumn, y: AdviceColumn, x_value: Fe, y_value: Fe, offset: usize) -> Seq<
    Cell,
> {
    seq![
        Cell { column: Column::Advice(x.index), row: offset, value: x_value },
        Cell { column: Column::Advice(y.index), row: offset, value: y_value },
    ]
}

/// The columns of a membership gate and its polynomial without the
/// activation, for gates that weight it themselves.
#[derive(Debug, PartialEq, Eq)]
pub struct ValidECPointConfig {
    pub x: AdviceColumn,
    pub y: AdviceColumn,
    pub is_valid_expr: Expr,
}

/// The curve-membership gate.
#[derive(Debug)]
pub struct ValidECPointChip {
    pub config: ValidECPointConfig,
}

impl ValidECPointChip {
    /// Wraps a configuration.
    pub fn construct(config: ValidECPointConfig) -> (r: ValidECPointChip)
        ensures
            r.config == config,
    {
        ValidECPointChip { config }
    }

    /// Registers a gate `activation * (y^2 - x^3 - 5)` on the cells
    /// `rotation` rows from the anchor, and hands back the unweighted
    /// polynomial.
    pub fn configure(
        meta: &mut ConstraintSystem,
        activation: Expr,
        x: AdviceColumn,
        y: AdviceColumn,
        rotation: i32,
    ) -> (config: ValidECPointConfig)
        ensures
            config.x == x,
            config.y == y,
            config.is_valid_expr == curve_polynomial(x, y, rotation),
            final(meta).gate_polys() == old(meta).gate_polys().push(
                seq![product_of(activation, curve_polynomial(x, y, rotation))],
            ),
            final(meta).gate_names() == old(meta).gate_names().push("is valid EC point"@),
            final(meta).advice_count() == old(meta).advice_count(),
            final(meta).fixed_count() == old(meta).fixed_count(),
            final(meta).selector_count() == old(meta).selector_count(),
    {
        let weighted = activation.times(curve_expression(x, y, rotation));
        let mut polys: Vec<Expr> = Vec::new();
        polys.push(weighted);
        proof {
            assert(polys@ =~= seq![product_of(activation, curve_polynomial(x, y, rotation))]);
        }
        meta.create_gate("is valid EC point", polys);
        ValidECPointConfig { x, y, is_valid_expr: curve_expression(x, y, rotation) }
    }

    /// Writes `x_value` and `y_value` into the chip's columns at row
    /// `offset` of the region, the x cell first. Nothing is checked of the
    /// point itself. A refused write is reported and ends the assignment:
    /// both cells are written exactly when the row lies inside the region,
    /// both cells are free and the two columns differ.
    pub fn assign(&self, region: &mut Region, x_value: Fe, y_value: Fe, offset: usize) -> (res: Result<
        (),
        Error,
    >)
        requires
            old(region).wf(),
            x_value.wf(),
            y_value.wf(),
        ensures
            final(region).wf(),
            final(region).span() == old(region).span(),
            final(region).cells() == write_all(
                old(region).span(),
                old(region).cells(),
                point_cells(self.config.x, self.config.y, x_value, y_value, offset),
            ).0,
            match write_all(
                old(region).span(),
                old(region).cells(),
                point_cells(self.config.x, self.config.y, x_value, y_value, offset),
            ).1 {
                None => res is Ok,
                Some(e) => res == Err::<(), Error>(e),
            },
            res is Ok <==> {
                &&& offset < old(region).span()
                &&& self.config.x != self.config.y
                &&& !assigned(old(region).cells(), Column::Advice(self.config.x.index), offset as int)
                &&& !assigned(old(region).cells(), Column::Advice(self.config.y.index), offset as int)
            },
    {
        let mut batch: Vec<Cell> = Vec::new();
        batch.push(Cell { column: Column::Advice(self.config.x.index), row: offset, value: x_value });
        batch.push(Cell { column: Column::Advice(self.config.y.index), row: offset, value: y_value });
        proof {
            assert(batch@ =~= point_cells(self.config.x, self.config.y, x_value, y_value, offset));
            assert(canonical_values(batch@));
            let cells = old(region).cells();
            if fits(old(region).span(), cells, batch@) {
                assert(!assigned(cells, batch@[0].column, batch@[0].row as int));
                assert(!assigned(cells, batch@[1].column, batch@[1].row as int));
                assert(!is_at(batch@[0], batch@[1].column, batch@[1].row as int));
            }
        }
        region.assign_all(&batch)
    }
}

/// Builds `y^2 - x^3 - 5` over the cells `rotation` rows from the anchor.
pub fn curve_expression(x: AdviceColumn, y: AdviceColumn, rotation: i32) -> (r: Expr)
    ensures
        r == curve_polynomial(x, y, rotation),
{
    let y_squared = Expr::Advice { column: y.index, rotation }.square();
    let x_cubed = Expr::Advice { column: x.index, rotation }.square().times(
        Expr::Advice { column: x.index, rotation },
    );
    y_squared.minus(x_cubed).minus(Expr::Constant(5))
}

} // verus!
