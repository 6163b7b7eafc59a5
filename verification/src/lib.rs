//! Gate descriptions for elliptic-curve point arithmetic over the Pallas base
//! field: a curve-membership gate for `y^2 = x^3 + 5` and an incomplete
//! point-addition gate over a three-row window, together with the witness
//! layout that fills the rows the gates inspect.
//!
//! `configure` records columns and polynomials in a [`system::ConstraintSystem`],
//! and `assign` writes cells into a [`region::Region`]; a proving system is
//! handed both to install. Polynomials are [`expr::Expr`] trees over cells
//! addressed relative to an anchor row, and [`laws`] states what they amount
//! to: flagged rows hold curve points, and with distinct x-coordinates of `P`
//! and `Q` the two addition polynomials vanish exactly for `R = P + Q`.

pub mod field;
pub mod congruence;
pub mod curve;
pub mod region;
pub mod expr;
pub mod system;
pub mod is_valid_ec_point_gadget;
pub mod ec_points_add_gadget;
pub mod laws;
