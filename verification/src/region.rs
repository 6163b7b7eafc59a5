//! Columns, cells and the region of rows that one witness is written into.

use crate::field::Fe;
use vstd::prelude::*;

verus! {

/// A vertical lane of cells: a witness column, a fixed column or a selector,
/// each numbered within its own kind.
#[derive(Clone, Copy, Debug, PartialEq, Eq, Structural)]
pub enum Column {
    Advice(usize),
    Fixed(usize),
    Selector(usize),
}

/// Handle of a witness column.
#[derive(Clone, Copy, Debug, PartialEq, Eq, Structural)]
pub struct AdviceColumn {
    pub index: usize,
}

/// Handle of a fixed column.
#[derive(Clone, Copy, Debug, PartialEq, Eq, Structural)]
pub struct FixedColumn {
    pub index: usize,
}

/// Handle of a boolean selector.
#[derive(Clone, Copy, Debug, PartialEq, Eq, Structural)]
pub struct Selector {
    pub index: usize,
}

/// One written cell: where it lies and what it holds.
#[derive(Clone, Copy, Debug, PartialEq, Eq)]
pub struct Cell {
    pub column: Column,
    pub row: usize,
    pub value: Fe,
}

/// Why a cell write was refused.
#[derive(Clone, Copy, Debug, PartialEq, Eq, Structural)]
pub enum Error {
    /// The row lies outside the region.
    OutOfBounds,
    /// The cell already holds a value.
    AlreadyAssigned,
}

/// Whether some cell of the list lies at the given place.
pub open spec fn assigned(cells: Seq<Cell>, column: Column, row: int) -> bool {
    exists|i: int| 0 <= i < cells.len() && is_at(#[trigger] cells[i], column, row)
}

/// Whether the cell lies at the given place.
pub open spec fn is_at(cell: Cell, column: Column, row: int) -> bool {
    cell.column == column && cell.row == row
}

/// The element written at the given place, if any.
pub open spec fn cell_at(cells: Seq<Cell>, column: Column, row: int) -> Option<Fe> {
    if assigned(cells, column, row) {
        let i = choose|i: int| 0 <= i < cells.len() && is_at(#[trigger] cells[i], column, row);
        Some(cells[i].value)
    } else {
        None
    }
}

/// The residue read at the given place: what was written there, and zero
/// where nothing was.
pub open spec fn value_in(cells: Seq<Cell>, column: Column, row: int) -> int {
    match cell_at(cells, column, row) {
        Some(v) => v.value(),
        None => 0,
    }
}

/// What a constraint reads from a list of written cells.
pub open spec fn reading(cells: Seq<Cell>) -> spec_fn(Column, int) -> int {
    |column: Column, row: int| value_in(cells, column, row)
}

/// No two cells of the list lie at the same place.
pub open spec fn distinct_places(cells: Seq<Cell>) -> bool {
    forall|i: int, j: int|
        0 <= i < cells.len() && 0 <= j < cells.len() && i != j ==> !is_at(
            #[trigger] cells[i],
            (#[trigger] cells[j]).column,
            cells[j].row as int,
        )
}

/// Every cell of the list holds a canonical element.
pub open spec fn canonical_values(cells: Seq<Cell>) -> bool {
    forall|i: int| 0 <= i < cells.len() ==> (#[trigger] cells[i]).value.wf()
}

/// The outcome of one write into a region of `span` rows that holds `cells`:
/// the new list, or the reason for refusal. A row outside the region is
/// reported before an occupied cell.
pub open spec fn write_one(span: int, cells: Seq<Cell>, cell: Cell) -> Result<Seq<Cell>, Error> {
    if cell.row >= span {
        Err(Error::OutOfBounds)
    } else if assigned(cells, cell.column, cell.row as int) {
        Err(Error::AlreadyAssigned)
    } else {
        Ok(cells.push(cell))
    }
}

/// The outcome of a batch of writes made in order: the list after the last
/// write that succeeded, and the first refusal if there was one. Writes
/// before the refusal stay.
pub open spec fn write_all(span: int, cells: Seq<Cell>, batch: Seq<Cell>) -> (Seq<Cell>, Option<Error>)
    decreases batch.len(),
{
    if batch.len() == 0 {
        (cells, None)
    } else {
        match write_one(span, cells, batch[0]) {
            Ok(next) => write_all(span, next, batch.skip(1)),
            Err(e) => (cells, Some(e)),
        }
    }
}

/// A contiguous block of rows that one witness is written into.
#[derive(Debug)]
pub struct Region {
    span: usize,
    cells: Vec<Cell>,
}

impl Region {
    /// The number of rows of the region.
    pub closed spec fn span(&self) -> int {
        self.span as int
    }

    /// The cells written so far, in the order of writing.
    pub closed spec fn cells(&self) -> Seq<Cell> {
        self.cells@
    }

    /// Every cell lies inside the region, holds a canonical element, and no
    /// place was written twice.
    pub open spec fn wf(&self) -> bool {
        &&& 0 <= self.span() <= usize::MAX
        &&& forall|i: int| 0 <= i < self.cells().len() ==> (#[trigger] self.cells()[i]).row < self.span()
        &&& canonical_values(self.cells())
        &&& distinct_places(self.cells())
    }

    /// What a constraint reads from the region: the residue at each place,
    /// zero where nothing was written.
    pub open spec fn assignment(&self) -> spec_fn(Column, int) -> int {
        reading(self.cells())
    }

    /// An empty region of `span` rows.
    pub fn new(span: usize) -> (r: Region)
        ensures
            r.wf(),
            r.span() == span,
            r.cells() == Seq::<Cell>::empty(),
    {
        Region { span, cells: Vec::new() }
    }

    /// The number of rows of the region.
    pub fn rows(&self) -> (r: usize)
        ensures
            r == self.span(),
    {
        self.span
    }

    /// The number of cells written so far.
    pub fn len(&self) -> (r: usize)
        ensures
            r == self.cells().len(),
    {
        self.cells.len()
    }

    /// The `i`-th cell in the order of writing.
    pub fn cell(&self, i: usize) -> (r: Cell)
        requires
            i < self.cells().len(),
        ensures
            r == self.cells()[i as int],
    {
        self.cells[i]
    }

    /// The element written at the given place, if any.
    pub fn get(&self, column: Column, row: usize) -> (r: Option<Fe>)
        requires
            self.wf(),
        ensures
            r == cell_at(self.cells(), column, row as int),
            r is Some ==> r->0.wf(),
    {
        let mut i: usize = 0;
        while i < self.cells.len()
            invariant
                i <= self.cells.len(),
                self.wf(),
                forall|j: int| 0 <= j < i ==> !is_at(#[trigger] self.cells@[j], column, row as int),
            decreases self.cells.len() - i,
        {
            let c = self.cells[i];
            if c.column == column && c.row == row {
                proof {
                    let k = choose|k: int|
                        0 <= k < self.cells@.len() && is_at(#[trigger] self.cells@[k], column, row as int);
                    assert(is_at(self.cells@[i as int], column, row as int));
                    assert(k == i);
                }
                return Some(c.value);
            }
            i += 1;
        }
        None
    }

    /// Writes one cell. A row outside the region or a place that already
    /// holds a value is refused, and the region is left as it was.
    pub fn assign(&mut self, cell: Cell) -> (res: Result<(), Error>)
        requires
            old(self).wf(),
            cell.value.wf(),
        ensures
            final(self).wf(),
            final(self).span() == old(self).span(),
            match write_one(old(self).span(), old(self).cells(), cell) {
                Ok(next) => res is Ok && final(self).cells() == next,
                Err(e) => res == Err::<(), Error>(e) && final(self).cells() == old(self).cells(),
            },
    {
        if cell.row >= self.span {
            return Err(Error::OutOfBounds);
        }
        if self.get(cell.column, cell.row).is_some() {
            return Err(Error::AlreadyAssigned);
        }
        self.cells.push(cell);
        proof {
            let before = old(self).cells@;
            let after = self.cells@;
            assert forall|i: int, j: int|
                0 <= i < after.len() && 0 <= j < after.len() && i != j implies !is_at(
                #[trigger] after[i],
                (#[trigger] after[j]).column,
                after[j].row as int,
            ) by {
                if i < before.len() && j < before.len() {
                    assert(after[i] == before[i] && after[j] == before[j]);
                } else if i < before.len() {
                    assert(after[i] == before[i]);
                } else {
                    assert(after[j] == before[j]);
                }
            }
        }
        Ok(())
    }

    /// Writes a batch of cells in order and stops at the first refusal; the
    /// writes made before it stay in the region. The batch is written whole
    /// exactly when it fits.
    pub fn assign_all(&mut self, batch: &Vec<Cell>) -> (res: Result<(), Error>)
        requires
            old(self).wf(),
            canonical_values(batch@),
        ensures
            final(self).wf(),
            final(self).span() == old(self).span(),
            final(self).cells() == write_all(old(self).span(), old(self).cells(), batch@).0,
            match write_all(old(self).span(), old(self).cells(), batch@).1 {
                None => res is Ok,
                Some(e) => res == Err::<(), Error>(e),
            },
            res is Ok <==> fits(old(self).span(), old(self).cells(), batch@),
            res is Ok ==> final(self).cells() == old(self).cells() + batch@,
    {
        let mut i: usize = 0;
        proof {
            assert(batch@.skip(0) =~= batch@);
            lemma_write_all_verdict(old(self).span(), old(self).cells(), batch@);
        }
        while i < batch.len()
            invariant
                i <= batch.len(),
                self.wf(),
                self.span() == old(self).span(),
                canonical_values(batch@),
                write_all(old(self).span(), old(self).cells(), batch@).1 is None <==> fits(
                    old(self).span(),
                    old(self).cells(),
                    batch@,
                ),
                fits(old(self).span(), old(self).cells(), batch@) ==> write_all(
                    old(self).span(),
                    old(self).cells(),
                    batch@,
                ).0 == old(self).cells() + batch@,
                write_all(old(self).span(), old(self).cells(), batch@) == write_all(
                    self.span(),
                    self.cells(),
                    batch@.skip(i as int),
                ),
            decreases batch.len() - i,
        {
            let ghost rest = batch@.skip(i as int);
            proof {
                assert(rest[0] == batch@[i as int]);
                assert(rest.skip(1) =~= batch@.skip(i + 1));
            }
            match self.assign(batch[i]) {
                Ok(()) => {},
                Err(e) => {
                    return Err(e);
                },
            }
            i += 1;
        }
        proof {
            assert(batch@.skip(i as int).len() == 0);
        }
        Ok(())
    }
}

/// Whether a batch can be written whole into a region of `span` rows that
/// holds `cells`: every cell of the batch lies inside the region, at a place
/// that is free and that no other cell of the batch takes.
pub open spec fn fits(span: int, cells: Seq<Cell>, batch: Seq<Cell>) -> bool {
    &&& forall|j: int| 0 <= j < batch.len() ==> (#[trigger] batch[j]).row < span
    &&& forall|j: int|
        0 <= j < batch.len() ==> !assigned(cells, (#[trigger] batch[j]).column, batch[j].row as int)
    &&& distinct_places(batch)
}

/// A batch is written without refusal exactly when it fits, and then the
/// region holds the old cells followed by the batch.
pub proof fn lemma_write_all_verdict(span: int, cells: Seq<Cell>, batch: Seq<Cell>)
    ensures
        write_all(span, cells, batch).1 is None <==> fits(span, cells, batch),
        fits(span, cells, batch) ==> write_all(span, cells, batch).0 == cells + batch,
    decreases batch.len(),
{
    if batch.len() == 0 {
        assert(cells + batch =~= cells);
    } else {
        let first = batch[0];
        let next = cells.push(first);
        let rest = batch.skip(1);
        lemma_write_all_verdict(span, next, rest);
        assert(next + rest =~= cells + batch);
        assert forall|j: int| 0 <= j < rest.len() implies rest[j] == batch[j + 1] by {}
        if write_all(span, cells, batch).1 is None {
            assert(write_one(span, cells, first) is Ok);
            assert(fits(span, next, rest));
            assert forall|j: int| 0 <= j < batch.len() implies (#[trigger] batch[j]).row < span && !assigned(
                cells,
                batch[j].column,
                batch[j].row as int,
            ) by {
                if j > 0 {
                    assert(rest[j - 1] == batch[j]);
                    if assigned(cells, batch[j].column, batch[j].row as int) {
                        let i = choose|i: int|
                            0 <= i < cells.len() && is_at(
                                #[trigger] cells[i],
                                batch[j].column,
                                batch[j].row as int,
                            );
                        assert(next[i] == cells[i]);
                        assert(assigned(next, rest[j - 1].column, rest[j - 1].row as int));
                    }
                }
            }
            assert forall|i: int, j: int|
                0 <= i < batch.len() && 0 <= j < batch.len() && i != j implies !is_at(
                #[trigger] batch[i],
                (#[trigger] batch[j]).column,
                batch[j].row as int,
            ) by {
                if i > 0 && j > 0 {
                    assert(rest[i - 1] == batch[i] && rest[j - 1] == batch[j]);
                } else {
                    let other = if i == 0 { j } else { i };
                    assert(rest[other - 1] == batch[other]);
                    assert(next[cells.len() as int] == first);
                    if is_at(batch[i], batch[j].column, batch[j].row as int) {
                        assert(is_at(next[cells.len() as int], rest[other - 1].column, rest[other - 1].row as int));
                        assert(assigned(next, rest[other - 1].column, rest[other - 1].row as int));
                    }
                }
            }
        }
        if fits(span, cells, batch) {
            assert(first.row < span);
            assert(!assigned(cells, first.column, first.row as int));
            assert forall|j: int| 0 <= j < rest.len() implies !assigned(
                next,
                (#[trigger] rest[j]).column,
                rest[j].row as int,
            ) by {
                if assigned(next, rest[j].column, rest[j].row as int) {
                    let i = choose|i: int|
                        0 <= i < next.len() && is_at(#[trigger] next[i], rest[j].column, rest[j].row as int);
                    if i < cells.len() {
                        assert(next[i] == cells[i]);
                        assert(is_at(cells[i], batch[j + 1].column, batch[j + 1].row as int));
                    } else {
                        assert(next[i] == batch[0]);
                        assert(is_at(batch[0], batch[j + 1].column, batch[j + 1].row as int));
                    }
                }
            }
            assert(distinct_places(rest));
            assert(fits(span, next, rest));
        }
    }
}

/// Among cells at distinct places, each place reads the cell that lies
/// there.
pub proof fn lemma_read_distinct(cells: Seq<Cell>, i: int)
    requires
        distinct_places(cells),
        0 <= i < cells.len(),
    ensures
        cell_at(cells, cells[i].column, cells[i].row as int) == Some(cells[i].value),
        value_in(cells, cells[i].column, cells[i].row as int) == cells[i].value.value(),
{
    let column = cells[i].column;
    let row = cells[i].row as int;
    assert(is_at(cells[i], column, row));
    let k = choose|k: int| 0 <= k < cells.len() && is_at(#[trigger] cells[k], column, row);
    assert(k == i);
}

} // verus!
