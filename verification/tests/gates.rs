use ec_points_add::ec_points_add_gadget::{ECPointsAddChip, ECPointsAddConfig};
use ec_points_add::expr::{Expr, CUR, NEXT, PREV};
use ec_points_add::field::Fe;
use ec_points_add::is_valid_ec_point_gadget::{curve_expression, ValidECPointChip};
use ec_points_add::region::{AdviceColumn, Cell, Column, Error, FixedColumn, Region, Selector};
use ec_points_add::system::ConstraintSystem;
use halo2_proofs::arithmetic::CurveAffine;
use halo2_proofs::pasta::group::ff::PrimeField;
use halo2_proofs::pasta::group::Group;
use halo2_proofs::pasta::{pallas, EpAffine};

fn fe(v: u64) -> Fe {
    Fe::from_u64(v)
}

fn affine(point: pallas::Point) -> (Fe, Fe) {
    let coordinates = EpAffine::from(point).coordinates().unwrap();
    (
        Fe::from_bytes(coordinates.x().to_repr()).unwrap(),
        Fe::from_bytes(coordinates.y().to_repr()).unwrap(),
    )
}

fn configured() -> (ConstraintSystem, ECPointsAddChip) {
    let mut meta = ConstraintSystem::new();
    let x = meta.advice_column();
    let y = meta.advice_column();
    let config = ECPointsAddChip::configure(&mut meta, x, y);
    (meta, ECPointsAddChip::construct(config))
}

fn assigned(chip: &ECPointsAddChip, p: (Fe, Fe), q: (Fe, Fe), r: (Fe, Fe)) -> Region {
    let mut region = Region::new(3);
    assert_eq!(chip.assign(&mut region, p.0, p.1, q.0, q.1, r.0, r.1), Ok(()));
    region
}

fn advice(column: usize, rotation: i32) -> Box<Expr> {
    Box::new(Expr::Advice { column, rotation })
}

fn minus(a: Box<Expr>, b: Box<Expr>) -> Box<Expr> {
    Box::new(Expr::Sum(a, Box::new(Expr::Negated(b))))
}

fn expected_curve(x: usize, y: usize, rotation: i32) -> Expr {
    let y_squared = Box::new(Expr::Product(advice(y, rotation), advice(y, rotation)));
    let x_squared = Box::new(Expr::Product(advice(x, rotation), advice(x, rotation)));
    let x_cubed = Box::new(Expr::Product(x_squared, advice(x, rotation)));
    *minus(minus(y_squared, x_cubed), Box::new(Expr::Constant(5)))
}

fn expected_membership(flag: usize, x: usize, y: usize, rotation: i32) -> Expr {
    Expr::Product(
        Box::new(Expr::Fixed { column: flag, rotation }),
        Box::new(expected_curve(x, y, rotation)),
    )
}

#[test]
fn construct_keeps_the_configuration() {
    let config = ECPointsAddConfig {
        x: AdviceColumn { index: 4 },
        y: AdviceColumn { index: 7 },
        q_add_enable: Selector { index: 2 },
        q_valid_check_enable: FixedColumn { index: 9 },
    };
    assert_eq!(ECPointsAddChip::construct(config).config, config);
}

#[test]
fn configure_allocates_one_selector_and_one_fixed_column() {
    let mut meta = ConstraintSystem::new();
    let _other_fixed = meta.fixed_column();
    let _other_selector = meta.selector();
    let _other_selector = meta.selector();
    let x = meta.advice_column();
    let y = meta.advice_column();
    let config = ECPointsAddChip::configure(&mut meta, x, y);
    assert_eq!(config.x, AdviceColumn { index: 0 });
    assert_eq!(config.y, AdviceColumn { index: 1 });
    assert_eq!(config.q_add_enable, Selector { index: 2 });
    assert_eq!(config.q_valid_check_enable, FixedColumn { index: 1 });
    assert_eq!(meta.num_advice_columns(), 2);
    assert_eq!(meta.num_fixed_columns(), 2);
    assert_eq!(meta.num_selectors(), 3);
}

#[test]
fn configure_registers_three_membership_gates_and_the_addition_gate() {
    let (meta, _) = configured();
    assert_eq!(meta.num_gates(), 4);
    let rotations = [PREV, CUR, NEXT];
    for g in 0..3 {
        assert_eq!(meta.gate(g).name, "is valid EC point");
        assert_eq!(meta.gate(g).polys, vec![expected_membership(0, 0, 1, rotations[g])]);
    }
    let gate = meta.gate(3);
    assert_eq!(gate.name, "P(x, y) + Q(x, y) = R(x, y)");
    assert_eq!(gate.polys.len(), 5);
    for k in 0..3 {
        assert_eq!(gate.polys[k], expected_membership(0, 0, 1, rotations[k]));
    }
    let selector = || Box::new(Expr::Selector(0));
    let p_x = || advice(0, -1);
    let p_y = || advice(1, -1);
    let q_x = || advice(0, 0);
    let q_y = || advice(1, 0);
    let r_x = || advice(0, 1);
    let r_y = || advice(1, 1);
    let dx = || minus(p_x(), q_x());
    let dy = || minus(p_y(), q_y());
    let sum = Box::new(Expr::Sum(Box::new(Expr::Sum(r_x(), q_x())), p_x()));
    let first = Expr::Product(
        selector(),
        minus(
            Box::new(Expr::Product(sum, Box::new(Expr::Product(dx(), dx())))),
            Box::new(Expr::Product(dy(), dy())),
        ),
    );
    assert_eq!(gate.polys[3], first);
    let second = Expr::Product(
        selector(),
        minus(
            Box::new(Expr::Product(Box::new(Expr::Sum(r_y(), q_y())), dx())),
            Box::new(Expr::Product(dy(), minus(q_x(), r_x()))),
        ),
    );
    assert_eq!(gate.polys[4], second);
}

#[test]
fn membership_configure_returns_the_unweighted_polynomial() {
    let mut meta = ConstraintSystem::new();
    let x = meta.advice_column();
    let y = meta.advice_column();
    let config = ValidECPointChip::configure(&mut meta, Expr::Constant(1), x, y, 2);
    assert_eq!(config.x, x);
    assert_eq!(config.y, y);
    assert_eq!(config.is_valid_expr, expected_curve(0, 1, 2));
    assert_eq!(curve_expression(x, y, 2), expected_curve(0, 1, 2));
    assert_eq!(meta.num_gates(), 1);
    assert_eq!(
        meta.gate(0).polys,
        vec![Expr::Product(Box::new(Expr::Constant(1)), Box::new(expected_curve(0, 1, 2)))]
    );
    assert_eq!(meta.num_advice_columns(), 2);
    assert_eq!(meta.num_fixed_columns(), 0);
    assert_eq!(meta.num_selectors(), 0);
}

#[test]
fn membership_assign_writes_the_two_cells() {
    let mut meta = ConstraintSystem::new();
    let x = meta.advice_column();
    let y = meta.advice_column();
    let chip = ValidECPointChip::construct(ValidECPointChip::configure(&mut meta, Expr::Constant(1), x, y, 0));
    let mut region = Region::new(2);
    assert_eq!(chip.assign(&mut region, fe(5), fe(11), 1), Ok(()));
    assert_eq!(region.len(), 2);
    assert_eq!(region.cell(0), Cell { column: Column::Advice(0), row: 1, value: fe(5) });
    assert_eq!(region.cell(1), Cell { column: Column::Advice(1), row: 1, value: fe(11) });
    assert_eq!(chip.assign(&mut region, fe(5), fe(11), 1), Err(Error::AlreadyAssigned));
    assert_eq!(chip.assign(&mut region, fe(5), fe(11), 2), Err(Error::OutOfBounds));
    assert_eq!(region.len(), 2);
}

#[test]
fn membership_with_activation_forced_true_accepts_exactly_the_curve() {
    let mut meta = ConstraintSystem::new();
    let x = meta.advice_column();
    let y = meta.advice_column();
    let chip = ValidECPointChip::construct(ValidECPointChip::configure(&mut meta, Expr::Constant(1), x, y, 0));
    let g = affine(pallas::Point::generator());
    let mut on = Region::new(1);
    assert_eq!(chip.assign(&mut on, g.0, g.1, 0), Ok(()));
    assert!(meta.gate(0).is_satisfied_at(&on, 0));
    assert_eq!(meta.first_violation(&on), None);
    // 11^2 = 121, 5^3 + 5 = 130
    let mut off = Region::new(1);
    assert_eq!(chip.assign(&mut off, fe(5), fe(11), 0), Ok(()));
    assert!(!meta.gate(0).is_satisfied_at(&off, 0));
    assert_eq!(meta.gate(0).polys[0].evaluate(&off, 0), fe(9).neg());
    assert_eq!(chip.config.is_valid_expr.evaluate(&off, 0), fe(9).neg());
    assert_eq!(meta.first_violation(&off), Some((0, 0)));
}

#[test]
fn assign_writes_ten_cells_in_order() {
    let (_, chip) = configured();
    let region = assigned(&chip, (fe(1), fe(2)), (fe(3), fe(4)), (fe(5), fe(6)));
    let expected = vec![
        Cell { column: Column::Selector(0), row: 1, value: Fe::one() },
        Cell { column: Column::Advice(0), row: 0, value: fe(1) },
        Cell { column: Column::Advice(1), row: 0, value: fe(2) },
        Cell { column: Column::Fixed(0), row: 0, value: Fe::one() },
        Cell { column: Column::Advice(0), row: 1, value: fe(3) },
        Cell { column: Column::Advice(1), row: 1, value: fe(4) },
        Cell { column: Column::Fixed(0), row: 1, value: Fe::one() },
        Cell { column: Column::Advice(0), row: 2, value: fe(5) },
        Cell { column: Column::Advice(1), row: 2, value: fe(6) },
        Cell { column: Column::Fixed(0), row: 2, value: Fe::one() },
    ];
    assert_eq!(region.len(), 10);
    for (i, cell) in expected.iter().enumerate() {
        assert_eq!(region.cell(i), *cell);
    }
    assert_eq!(chip.witness(fe(1), fe(2), fe(3), fe(4), fe(5), fe(6)), expected);
}

#[test]
fn assign_reports_a_refused_write() {
    let (_, chip) = configured();
    let mut short = Region::new(2);
    assert_eq!(chip.assign(&mut short, fe(1), fe(2), fe(3), fe(4), fe(5), fe(6)), Err(Error::OutOfBounds));
    assert_eq!(short.len(), 7);
    let mut none = Region::new(1);
    assert_eq!(chip.assign(&mut none, fe(1), fe(2), fe(3), fe(4), fe(5), fe(6)), Err(Error::OutOfBounds));
    assert_eq!(none.len(), 0);
    let mut taken = Region::new(3);
    assert_eq!(taken.assign(Cell { column: Column::Advice(1), row: 0, value: fe(0) }), Ok(()));
    assert_eq!(chip.assign(&mut taken, fe(1), fe(2), fe(3), fe(4), fe(5), fe(6)), Err(Error::AlreadyAssigned));
    assert_eq!(taken.len(), 3);
    // A gate whose x and y columns coincide cannot place a point.
    let mut meta = ConstraintSystem::new();
    let x = meta.advice_column();
    let same = ECPointsAddChip::construct(ECPointsAddChip::configure(&mut meta, x, x));
    let mut region = Region::new(3);
    assert_eq!(same.assign(&mut region, fe(1), fe(2), fe(3), fe(4), fe(5), fe(6)), Err(Error::AlreadyAssigned));
    assert_eq!(region.len(), 2);
}

#[test]
fn sum_of_distinct_points_is_accepted() {
    let (meta, chip) = configured();
    let g = pallas::Point::generator();
    let region = assigned(&chip, affine(g), affine(g.double()), affine(g.double() + g));
    assert_eq!(meta.first_violation(&region), None);
    for row in 0..3 {
        for gate in 0..4 {
            assert!(meta.gate(gate).is_satisfied_at(&region, row));
        }
    }
}

#[test]
fn wrong_sum_of_distinct_points_is_rejected_by_an_addition_polynomial() {
    let (meta, chip) = configured();
    let g = pallas::Point::generator();
    // R = 2G lies on the curve but is not G + 2G.
    let region = assigned(&chip, affine(g), affine(g.double()), affine(g.double()));
    assert_eq!(meta.first_violation(&region), Some((3, 1)));
    let polys = &meta.gate(3).polys;
    for k in 0..3 {
        assert!(polys[k].evaluate(&region, 1).is_zero());
    }
    assert!(!polys[3].evaluate(&region, 1).is_zero() || !polys[4].evaluate(&region, 1).is_zero());
    // The right x-coordinate with the negated y-coordinate fails the second identity only.
    let sum = affine(g.double() + g);
    let region = assigned(&chip, affine(g), affine(g.double()), (sum.0, sum.1.neg()));
    assert_eq!(meta.first_violation(&region), Some((3, 1)));
    assert!(meta.gate(3).polys[3].evaluate(&region, 1).is_zero());
    assert!(!meta.gate(3).polys[4].evaluate(&region, 1).is_zero());
}

#[test]
fn addition_polynomials_take_the_identities_values() {
    let (meta, chip) = configured();
    // P = (1, 2), Q = (3, 5), R = (4, 6):
    // (4 + 3 + 1) * (1 - 3)^2 - (2 - 5)^2 = 23
    // (6 + 5) * (1 - 3) - (2 - 5) * (3 - 4) = -25
    let region = assigned(&chip, (fe(1), fe(2)), (fe(3), fe(5)), (fe(4), fe(6)));
    let polys = &meta.gate(3).polys;
    assert_eq!(polys[3].evaluate(&region, 1), fe(23));
    assert_eq!(polys[4].evaluate(&region, 1), fe(25).neg());
    // Away from the anchor the selector reads zero.
    assert_eq!(polys[3].evaluate(&region, 0), fe(0));
    assert_eq!(polys[4].evaluate(&region, 2), fe(0));
    // Row 1 read with the anchor at row 1: 5^2 - 3^3 - 5 = -7
    assert_eq!(polys[1].evaluate(&region, 1), fe(7).neg());
    // Row 0 read with the anchor at row 1: 2^2 - 1^3 - 5 = -2
    assert_eq!(polys[0].evaluate(&region, 1), fe(2).neg());
    // Row 2 read with the anchor at row 1: 6^2 - 4^3 - 5 = -33
    assert_eq!(polys[2].evaluate(&region, 1), fe(33).neg());
    // Before the first row nothing is written: the flag reads zero.
    assert_eq!(polys[0].evaluate(&region, 0), fe(0));
    assert_eq!(polys[2].evaluate(&region, 2), fe(0));
}

#[test]
fn doubling_triple_of_the_generator_is_accepted() {
    let (meta, chip) = configured();
    let g = pallas::Point::generator();
    let region = assigned(&chip, affine(g), affine(g), affine(g.double()));
    assert_eq!(meta.first_violation(&region), None);
}

#[test]
fn equal_points_leave_the_result_unconstrained_on_the_curve() {
    let (meta, chip) = configured();
    let g = pallas::Point::generator();
    // P = Q = G with R = 3G, which is not 2G: the addition polynomials vanish all the same.
    let region = assigned(&chip, affine(g), affine(g), affine(g.double() + g));
    assert_eq!(meta.first_violation(&region), None);
}

#[test]
fn small_integer_triple_off_the_curve_is_rejected_by_membership() {
    let (meta, chip) = configured();
    // (5, 11) and (15, 5) do not satisfy y^2 = x^3 + 5.
    let region = assigned(&chip, (fe(5), fe(11)), (fe(5), fe(11)), (fe(15), fe(5)));
    // Membership of the row before the anchor fails first, with the anchor at row 1.
    assert_eq!(meta.first_violation(&region), Some((0, 1)));
    let polys = &meta.gate(3).polys;
    assert_eq!(polys[0].evaluate(&region, 1), fe(9).neg());
    assert_eq!(polys[1].evaluate(&region, 1), fe(9).neg());
    // 5^2 - 15^3 - 5 = -3355
    assert_eq!(polys[2].evaluate(&region, 1), fe(3355).neg());
    assert!(polys[3].evaluate(&region, 1).is_zero());
    assert!(polys[4].evaluate(&region, 1).is_zero());
}

#[test]
fn flagged_point_off_the_curve_is_rejected_by_its_membership_polynomial() {
    let (meta, chip) = configured();
    let g = pallas::Point::generator();
    let sum = affine(g.double() + g);
    let off = (sum.0, sum.1.add(&Fe::one()));
    let region = assigned(&chip, affine(g), affine(g.double()), off);
    // P and Q pass; membership of the anchor row itself is the first to reach R.
    assert_eq!(meta.first_violation(&region), Some((1, 2)));
    assert!(meta.gate(0).is_satisfied_at(&region, 1));
    assert!(meta.gate(1).is_satisfied_at(&region, 1));
    assert!(!meta.gate(2).is_satisfied_at(&region, 1));
    assert!(!meta.gate(3).polys[2].evaluate(&region, 1).is_zero());
}

#[test]
fn unflagged_row_passes_membership_whatever_it_holds() {
    let (meta, chip) = configured();
    let mut region = Region::new(3);
    for row in 0..3 {
        let cells = vec![
            Cell { column: Column::Advice(chip.config.x.index), row, value: fe(5) },
            Cell { column: Column::Advice(chip.config.y.index), row, value: fe(11) },
        ];
        assert_eq!(region.assign_all(&cells), Ok(()));
    }
    assert_eq!(meta.first_violation(&region), None);
    for k in 0..3 {
        assert!(meta.gate(3).polys[k].evaluate(&region, 1).is_zero());
    }
    // The same rows with only the middle flag set: only the middle row is checked.
    let flag = Cell { column: Column::Fixed(chip.config.q_valid_check_enable.index), row: 1, value: Fe::one() };
    assert_eq!(region.assign(flag), Ok(()));
    assert_eq!(meta.first_violation(&region), Some((0, 2)));
    assert!(meta.gate(3).polys[0].evaluate(&region, 1).is_zero());
    assert!(!meta.gate(3).polys[1].evaluate(&region, 1).is_zero());
    assert!(meta.gate(3).polys[2].evaluate(&region, 1).is_zero());
}

#[test]
fn duplicate_copies_a_polynomial() {
    let e = expected_membership(3, 1, 2, -1);
    assert_eq!(e.duplicate(), e);
    let squared = Expr::Constant(7).square();
    assert_eq!(squared, Expr::Product(Box::new(Expr::Constant(7)), Box::new(Expr::Constant(7))));
    assert_eq!(
        Expr::Constant(1).plus(Expr::Constant(2)).times(Expr::Constant(3)).evaluate(&Region::new(0), 0),
        fe(9)
    );
    assert_eq!(Expr::Constant(1).minus(Expr::Constant(2)).evaluate(&Region::new(0), 0), Fe::one().neg());
}
