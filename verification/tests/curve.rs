use ec_points_add::curve::incomplete_sum;
use ec_points_add::ec_points_add_gadget::ECPointsAddChip;
use ec_points_add::field::Fe;
use ec_points_add::region::Region;
use ec_points_add::system::ConstraintSystem;
use halo2_proofs::arithmetic::CurveAffine;
use halo2_proofs::pasta::group::ff::PrimeField;
use halo2_proofs::pasta::group::Group;
use halo2_proofs::pasta::{pallas, EpAffine};

fn fe(v: u64) -> Fe {
    Fe::from_u64(v)
}

fn affine(point: pallas::Point) -> (Fe, Fe) {
    let coordinates = EpAffine::from(point).coordinates().unwrap();
    (
        Fe::from_bytes(coordinates.x().to_repr()).unwrap(),
        Fe::from_bytes(coordinates.y().to_repr()).unwrap(),
    )
}

#[test]
fn invert_gives_the_inverse_of_all_but_zero() {
    assert_eq!(fe(0).invert(), None);
    assert_eq!(Fe::one().invert(), Some(Fe::one()));
    assert_eq!(Fe::one().neg().invert(), Some(Fe::one().neg()));
    let half = fe(2).invert().unwrap();
    assert_eq!(half.mul(&fe(2)), Fe::one());
    assert_eq!(half.add(&half), Fe::one());
    let seventh = fe(7).invert().unwrap();
    assert_eq!(seventh.mul(&fe(21)), fe(3));
}

#[test]
fn incomplete_sum_follows_the_slope() {
    // d = (4 - 2) / (3 - 1) = 1, r_x = 1 - 1 - 3 = -3, r_y = -2 - (-3 - 1) = 2
    assert_eq!(incomplete_sum(fe(1), fe(2), fe(3), fe(4)), Some((fe(3).neg(), fe(2))));
    // d = 6 / 2 = 3, r_x = 9 - 0 - 2 = 7, r_y = -0 - 3 * 7 = -21
    assert_eq!(incomplete_sum(fe(0), fe(0), fe(2), fe(6)), Some((fe(7), fe(21).neg())));
    // d = (1 - 5) / (4 - 2) = -2, r_x = 4 - 2 - 4 = -2, r_y = -5 + 2 * (-2 - 2) = -13
    assert_eq!(incomplete_sum(fe(2), fe(5), fe(4), fe(1)), Some((fe(2).neg(), fe(13).neg())));
}

#[test]
fn incomplete_sum_agrees_with_the_group_law() {
    let g = pallas::Point::generator();
    let (p, q) = (affine(g), affine(g.double()));
    assert_eq!(incomplete_sum(p.0, p.1, q.0, q.1), Some(affine(g.double() + g)));
    assert_eq!(incomplete_sum(q.0, q.1, p.0, p.1), Some(affine(g.double() + g)));
    let (a, b) = (affine(g.double().double()), affine(g.double() + g));
    assert_eq!(incomplete_sum(a.0, a.1, b.0, b.1), Some(affine(g.double().double() + g.double() + g)));
}

#[test]
fn incomplete_sum_has_no_value_on_equal_x() {
    let g = affine(pallas::Point::generator());
    assert_eq!(incomplete_sum(g.0, g.1, g.0, g.1), None);
    assert_eq!(incomplete_sum(g.0, g.1, g.0, g.1.neg()), None);
    assert_eq!(incomplete_sum(fe(5), fe(11), fe(5), fe(12)), None);
}

#[test]
fn incomplete_sum_of_curve_points_is_accepted() {
    let mut meta = ConstraintSystem::new();
    let x = meta.advice_column();
    let y = meta.advice_column();
    let chip = ECPointsAddChip::construct(ECPointsAddChip::configure(&mut meta, x, y));
    let g = pallas::Point::generator();
    let (p, q) = (affine(g), affine(g.double().double()));
    let r = incomplete_sum(p.0, p.1, q.0, q.1).unwrap();
    let mut region = Region::new(3);
    assert_eq!(chip.assign(&mut region, p.0, p.1, q.0, q.1, r.0, r.1), Ok(()));
    assert_eq!(meta.first_violation(&region), None);
}

#[test]
fn incomplete_sum_meets_the_identities_off_the_curve() {
    let mut meta = ConstraintSystem::new();
    let x = meta.advice_column();
    let y = meta.advice_column();
    let chip = ECPointsAddChip::construct(ECPointsAddChip::configure(&mut meta, x, y));
    let r = incomplete_sum(fe(1), fe(2), fe(3), fe(4)).unwrap();
    let mut region = Region::new(3);
    assert_eq!(chip.assign(&mut region, fe(1), fe(2), fe(3), fe(4), r.0, r.1), Ok(()));
    let polys = &meta.gate(3).polys;
    assert!(polys[3].evaluate(&region, 1).is_zero());
    assert!(polys[4].evaluate(&region, 1).is_zero());
    // The points themselves are not on the curve: membership fails.
    assert_eq!(meta.first_violation(&region), Some((0, 1)));
}
