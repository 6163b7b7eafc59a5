use ec_points_add::field::Fe;
use ec_points_add::region::{Cell, Column, Error, Region};

fn cell(column: Column, row: usize, v: u64) -> Cell {
    Cell { column, row, value: Fe::from_u64(v) }
}

#[test]
fn new_region_is_empty() {
    let region = Region::new(3);
    assert_eq!(region.rows(), 3);
    assert_eq!(region.len(), 0);
    assert_eq!(region.get(Column::Advice(0), 0), None);
}

#[test]
fn assign_then_get() {
    let mut region = Region::new(3);
    assert_eq!(region.assign(cell(Column::Advice(0), 2, 7)), Ok(()));
    assert_eq!(region.len(), 1);
    assert_eq!(region.cell(0), cell(Column::Advice(0), 2, 7));
    assert_eq!(region.get(Column::Advice(0), 2), Some(Fe::from_u64(7)));
    assert_eq!(region.get(Column::Advice(0), 1), None);
    assert_eq!(region.get(Column::Advice(1), 2), None);
    assert_eq!(region.get(Column::Fixed(0), 2), None);
}

#[test]
fn assign_refuses_row_outside_region() {
    let mut region = Region::new(3);
    assert_eq!(region.assign(cell(Column::Advice(0), 3, 1)), Err(Error::OutOfBounds));
    assert_eq!(region.len(), 0);
    let mut empty = Region::new(0);
    assert_eq!(empty.assign(cell(Column::Advice(0), 0, 1)), Err(Error::OutOfBounds));
}

#[test]
fn assign_refuses_second_write_to_a_cell() {
    let mut region = Region::new(3);
    assert_eq!(region.assign(cell(Column::Advice(0), 1, 1)), Ok(()));
    assert_eq!(region.assign(cell(Column::Advice(0), 1, 2)), Err(Error::AlreadyAssigned));
    assert_eq!(region.len(), 1);
    assert_eq!(region.get(Column::Advice(0), 1), Some(Fe::from_u64(1)));
    // The same number in another kind of column is another cell.
    assert_eq!(region.assign(cell(Column::Fixed(0), 1, 2)), Ok(()));
    assert_eq!(region.assign(cell(Column::Selector(0), 1, 1)), Ok(()));
}

#[test]
fn assign_all_stops_at_first_refusal() {
    let mut region = Region::new(2);
    let batch = vec![
        cell(Column::Advice(0), 0, 1),
        cell(Column::Advice(0), 1, 2),
        cell(Column::Advice(0), 2, 3),
        cell(Column::Advice(1), 0, 4),
    ];
    assert_eq!(region.assign_all(&batch), Err(Error::OutOfBounds));
    assert_eq!(region.len(), 2);
    assert_eq!(region.get(Column::Advice(1), 0), None);

    let mut region = Region::new(2);
    let batch = vec![cell(Column::Advice(0), 0, 1), cell(Column::Advice(0), 0, 2)];
    assert_eq!(region.assign_all(&batch), Err(Error::AlreadyAssigned));
    assert_eq!(region.len(), 1);

    let mut region = Region::new(2);
    assert_eq!(region.assign_all(&Vec::new()), Ok(()));
    assert_eq!(region.len(), 0);
}
