//! Polynomial expressions over the cells of a window of rows.

use crate::field::{fadd, fmul, fneg, Fe};
use crate::region::{value_in, Column, Region};
use vstd::prelude::*;

verus! {

/// Rotation of the row before the anchor.
pub const PREV: i32 = -1;

/// Rotation of the anchor row itself.
pub const CUR: i32 = 0;

/// Rotation of the row after the anchor.
pub const NEXT: i32 = 1;

/// A polynomial over cells addressed relative to an anchor row.
#[derive(Debug, PartialEq, Eq)]
pub enum Expr {
    /// A constant of the field, given by a small integer.
    Constant(u64),
    /// The selector with this number, at the anchor row.
    Selector(usize),
    /// A fixed column's cell, `rotation` rows from the anchor.
    Fixed { column: usize, rotation: i32 },
    /// A witness column's cell, `rotation` rows from the anchor.
    Advice { column: usize, rotation: i32 },
    /// The additive inverse.
    Negated(Box<Expr>),
    /// The sum of two polynomials.
    Sum(Box<Expr>, Box<Expr>),
    /// The product of two polynomials.
    Product(Box<Expr>, Box<Expr>),
}

/// The polynomial `a + b`.
pub open spec fn sum_of(a: Expr, b: Expr) -> Expr {
    Expr::Sum(Box::new(a), Box::new(b))
}

/// The polynomial `a - b`, written as `a + (-b)`.
pub open spec fn difference_of(a: Expr, b: Expr) -> Expr {
    Expr::Sum(Box::new(a), Box::new(Expr::Negated(Box::new(b))))
}

/// The polynomial `a * b`.
pub open spec fn product_of(a: Expr, b: Expr) -> Expr {
    Expr::Product(Box::new(a), Box::new(b))
}

/// The polynomial `a * a`.
pub open spec fn square_of(a: Expr) -> Expr {
    Expr::Product(Box::new(a), Box::new(a))
}

impl Expr {
    /// The residue that the polynomial takes at anchor row `row` under an
    /// assignment of residues to cells.
    pub open spec fn eval(&self, cells: spec_fn(Column, int) -> int, row: int) -> int
        decreases self,
    {
        match self {
            Expr::Constant(c) => *c as int,
            Expr::Selector(s) => cells(Column::Selector(*s), row),
            Expr::Fixed { column, rotation } => cells(Column::Fixed(*column), row + *rotation),
            Expr::Advice { column, rotation } => cells(Column::Advice(*column), row + *rotation),
            Expr::Negated(e) => fneg(e.eval(cells, row)),
            Expr::Sum(l, r) => fadd(l.eval(cells, row), r.eval(cells, row)),
            Expr::Product(l, r) => fmul(l.eval(cells, row), r.eval(cells, row)),
        }
    }

    /// A copy of the polynomial.
    pub fn duplicate(&self) -> (r: Expr)
        ensures
            r == *self,
        decreases self,
    {
        match self {
            Expr::Constant(c) => Expr::Constant(*c),
            Expr::Selector(s) => Expr::Selector(*s),
            Expr::Fixed { column, rotation } => Expr::Fixed { column: *column, rotation: *rotation },
            Expr::Advice { column, rotation } => Expr::Advice { column: *column, rotation: *rotation },
            Expr::Negated(e) => Expr::Negated(Box::new(e.duplicate())),
            Expr::Sum(l, r) => Expr::Sum(Box::new(l.duplicate()), Box::new(r.duplicate())),
            Expr::Product(l, r) => Expr::Product(Box::new(l.duplicate()), Box::new(r.duplicate())),
        }
    }

    /// `self + other`.
    pub fn plus(self, other: Expr) -> (r: Expr)
        ensures
            r == sum_of(self, other),
    {
        Expr::Sum(Box::new(self), Box::new(other))
    }

    /// `self - other`.
    pub fn minus(self, other: Expr) -> (r: Expr)
        ensures
            r == difference_of(self, other),
    {
        Expr::Sum(Box::new(self), Box::new(Expr::Negated(Box::new(other))))
    }

    /// `self * other`.
    pub fn times(self, other: Expr) -> (r: Expr)
        ensures
            r == product_of(self, other),
    {
        Expr::Product(Box::new(self), Box::new(other))
    }

    /// `self * self`.
    pub fn square(self) -> (r: Expr)
        ensures
            r == square_of(self),
    {
        let copy = self.duplicate();
        Expr::Product(Box::new(self), Box::new(copy))
    }

    /// The element that the polynomial takes at anchor row `row` of a
    /// region. A cell that was not written, or that lies before the first or
    /// after the last addressable row, reads as zero.
    pub fn evaluate(&self, region: &Region, row: usize) -> (r: Fe)
        requires
            region.wf(),
        ensures
            r.wf(),
            r.value() == self.eval(region.assignment(), row as int),
        decreases self,
    {
        match self {
            Expr::Constant(c) => Fe::from_u64(*c),
            Expr::Selector(s) => read(region, Column::Selector(*s), row, 0),
            Expr::Fixed { column, rotation } => read(region, Column::Fixed(*column), row, *rotation),
            Expr::Advice { column, rotation } => read(region, Column::Advice(*column), row, *rotation),
            Expr::Negated(e) => e.evaluate(region, row).neg(),
            Expr::Sum(l, r) => l.evaluate(region, row).add(&r.evaluate(region, row)),
            Expr::Product(l, r) => l.evaluate(region, row).mul(&r.evaluate(region, row)),
        }
    }
}

/// Reads the cell `rotation` rows from `row`, zero where nothing was written.
fn read(region: &Region, column: Column, row: usize, rotation: i32) -> (r: Fe)
    requires
        region.wf(),
    ensures
        r.wf(),
        r.value() == value_in(region.cells(), column, row + rotation),
{
    let target: i128 = row as i128 + rotation as i128;
    if target < 0 || target >= region.rows() as i128 {
        proof {
            if crate::region::assigned(region.cells(), column, target as int) {
                let k = choose|k: int|
                    0 <= k < region.cells().len() && crate::region::is_at(
                        #[trigger] region.cells()[k],
                        column,
                        target as int,
                    );
                assert(region.cells()[k].row < region.span());
            }
        }
        Fe::zero()
    } else {
        match region.get(column, target as usize) {
            Some(v) => v,
            None => Fe::zero(),
        }
    }
}

} // verus!
