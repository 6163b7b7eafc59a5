//! The description of a circuit's columns and gates that configuration
//! builds up.

use crate::expr::Expr;
use crate::region::{AdviceColumn, Column, FixedColumn, Region, Selector};
use vstd::prelude::*;

verus! {

/// A named set of polynomials, each required to vanish at every row.
#[derive(Debug)]
pub struct Gate {
    pub name: &'static str,
    pub polys: Vec<Expr>,
}

/// The columns allocated and the gates registered so far.
#[derive(Debug)]
pub struct ConstraintSystem {
    num_advice: usize,
    num_fixed: usize,
    num_selectors: usize,
    gates: Vec<Gate>,
}

/// Whether every polynomial of the list vanishes at anchor row `row`.
pub open spec fn all_vanish(polys: Seq<Expr>, cells: spec_fn(Column, int) -> int, row: int) -> bool {
    forall|k: int| 0 <= k < polys.len() ==> (#[trigger] polys[k]).eval(cells, row) == 0
}

impl Gate {
    /// Whether every polynomial of this gate vanishes at anchor row `row` of
    /// the region.
    pub fn is_satisfied_at(&self, region: &Region, row: usize) -> (r: bool)
        requires
            region.wf(),
        ensures
            r == all_vanish(self.polys@, region.assignment(), row as int),
    {
        let mut k: usize = 0;
        while k < self.polys.len()
            invariant
                k <= self.polys.len(),
                region.wf(),
                forall|j: int|
                    0 <= j < k ==> (#[trigger] self.polys@[j]).eval(region.assignment(), row as int) == 0,
            decreases self.polys.len() - k,
        {
            if !self.polys[k].evaluate(region, row).is_zero() {
                return false;
            }
            k += 1;
        }
        true
    }
}

impl ConstraintSystem {
    /// The number of witness columns allocated.
    pub closed spec fn advice_count(&self) -> int {
        self.num_advice as int
    }

    /// The number of fixed columns allocated.
    pub closed spec fn fixed_count(&self) -> int {
        self.num_fixed as int
    }

    /// The number of selectors allocated.
    pub closed spec fn selector_count(&self) -> int {
        self.num_selectors as int
    }

    /// The name of each registered gate, in the order of registration.
    pub closed spec fn gate_names(&self) -> Seq<Seq<char>> {
        Seq::new(self.gates@.len(), |i: int| self.gates@[i].name@)
    }

    /// The polynomials of each registered gate, in the order of registration.
    pub closed spec fn gate_polys(&self) -> Seq<Seq<Expr>> {
        Seq::new(self.gates@.len(), |i: int| self.gates@[i].polys@)
    }

    /// Whether gate `g` holds at anchor row `row` under an assignment.
    pub open spec fn gate_holds(&self, g: int, cells: spec_fn(Column, int) -> int, row: int) -> bool {
        all_vanish(self.gate_polys()[g], cells, row)
    }

    /// A system with no columns and no gates.
    pub fn new() -> (r: ConstraintSystem)
        ensures
            r.advice_count() == 0,
            r.fixed_count() == 0,
            r.selector_count() == 0,
            r.gate_names() == Seq::<Seq<char>>::empty(),
            r.gate_polys() == Seq::<Seq<Expr>>::empty(),
    {
        let r = ConstraintSystem { num_advice: 0, num_fixed: 0, num_selectors: 0, gates: Vec::new() };
        proof {
            assert(r.gate_names() =~= Seq::<Seq<char>>::empty());
            assert(r.gate_polys() =~= Seq::<Seq<Expr>>::empty());
        }
        r
    }

    /// Allocates the next witness column.
    pub fn advice_column(&mut self) -> (c: AdviceColumn)
        requires
            old(self).advice_count() < usize::MAX,
        ensures
            c.index == old(self).advice_count(),
            final(self).advice_count() == old(self).advice_count() + 1,
            final(self).fixed_count() == old(self).fixed_count(),
            final(self).selector_count() == old(self).selector_count(),
            final(self).gate_names() == old(self).gate_names(),
            final(self).gate_polys() == old(self).gate_polys(),
    {
        let c = AdviceColumn { index: self.num_advice };
        self.num_advice = self.num_advice + 1;
        c
    }

    /// Allocates the next fixed column.
    pub fn fixed_column(&mut self) -> (c: FixedColumn)
        requires
            old(self).fixed_count() < usize::MAX,
        ensures
            c.index == old(self).fixed_count(),
            final(self).fixed_count() == old(self).fixed_count() + 1,
            final(self).advice_count() == old(self).advice_count(),
            final(self).selector_count() == old(self).selector_count(),
            final(self).gate_names() == old(self).gate_names(),
            final(self).gate_polys() == old(self).gate_polys(),
    {
        let c = FixedColumn { index: self.num_fixed };
        self.num_fixed = self.num_fixed + 1;
        c
    }

    /// Allocates the next selector.
    pub fn selector(&mut self) -> (s: Selector)
        requires
            old(self).selector_count() < usize::MAX,
        ensures
            s.index == old(self).selector_count(),
            final(self).selector_count() == old(self).selector_count() + 1,
            final(self).advice_count() == old(self).advice_count(),
            final(self).fixed_count() == old(self).fixed_count(),
            final(self).gate_names() == old(self).gate_names(),
            final(self).gate_polys() == old(self).gate_polys(),
    {
        let s = Selector { index: self.num_selectors };
        self.num_selectors = self.num_selectors + 1;
        s
    }

    /// Registers a gate after those already registered.
    pub fn create_gate(&mut self, name: &'static str, polys: Vec<Expr>)
        ensures
            final(self).gate_names() == old(self).gate_names().push(name@),
            final(self).gate_polys() == old(self).gate_polys().push(polys@),
            final(self).advice_count() == old(self).advice_count(),
            final(self).fixed_count() == old(self).fixed_count(),
            final(self).selector_count() == old(self).selector_count(),
    {
        self.gates.push(Gate { name, polys });
        proof {
            assert(self.gate_names() =~= old(self).gate_names().push(name@));
            assert(self.gate_polys() =~= old(self).gate_polys().push(polys@));
        }
    }

    /// The number of witness columns allocated.
    pub fn num_advice_columns(&self) -> (r: usize)
        ensures
            r == self.advice_count(),
    {
        self.num_advice
    }

    /// The number of fixed columns allocated.
    pub fn num_fixed_columns(&self) -> (r: usize)
        ensures
            r == self.fixed_count(),
    {
        self.num_fixed
    }

    /// The number of selectors allocated.
    pub fn num_selectors(&self) -> (r: usize)
        ensures
            r == self.selector_count(),
    {
        self.num_selectors
    }

    /// The number of gates registered.
    pub fn num_gates(&self) -> (r: usize)
        ensures
            r == self.gate_polys().len(),
    {
        self.gates.len()
    }

    /// The `i`-th gate in the order of registration.
    pub fn gate(&self, i: usize) -> (r: &Gate)
        requires
            i < self.gate_polys().len(),
        ensures
            r.name@ == self.gate_names()[i as int],
            r.polys@ == self.gate_polys()[i as int],
    {
        &self.gates[i]
    }

    /// Looks for a violated gate: the first gate, in the order of
    /// registration, and the first row of the region at which one of its
    /// polynomials does not vanish; `None` when every gate holds at every
    /// row of the region.
    pub fn first_violation(&self, region: &Region) -> (r: Option<(usize, usize)>)
        requires
            region.wf(),
        ensures
            match r {
                None => forall|g: int, row: int|
                    0 <= g < self.gate_polys().len() && 0 <= row < region.span()
                        ==> #[trigger] self.gate_holds(g, region.assignment(), row),
                Some((g, row)) => {
                    &&& g < self.gate_polys().len()
                    &&& row < region.span()
                    &&& !self.gate_holds(g as int, region.assignment(), row as int)
                    &&& forall|h: int, at: int|
                        (0 <= h < g && 0 <= at < region.span()) || (h == g && 0 <= at < row)
                            ==> #[trigger] self.gate_holds(h, region.assignment(), at)
                },
            },
    {
        let mut g: usize = 0;
        while g < self.gates.len()
            invariant
                g <= self.gates.len(),
                region.wf(),
                forall|h: int, at: int|
                    0 <= h < g && 0 <= at < region.span() ==> #[trigger] self.gate_holds(
                        h,
                        region.assignment(),
                        at,
                    ),
            decreases self.gates.len() - g,
        {
            let mut row: usize = 0;
            while row < region.rows()
                invariant
                    g < self.gates.len(),
                    row <= region.span(),
                    region.wf(),
                    forall|h: int, at: int|
                        0 <= h < g && 0 <= at < region.span() ==> #[trigger] self.gate_holds(
                            h,
                            region.assignment(),
                            at,
                        ),
                    forall|at: int|
                        0 <= at < row ==> #[trigger] self.gate_holds(g as int, region.assignment(), at),
                decreases region.span() - row,
            {
                if !self.gates[g].is_satisfied_at(region, row) {
                    return Some((g, row));
                }
                row += 1;
            }
            g += 1;
        }
        None
    }
}

} // verus!
