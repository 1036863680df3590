use dpsimrs::error::SimulationError;
use dpsimrs::math::{
    DMatrix, DMatrixc64, DMatrixf64, Matrix2x1c64, Matrix2x1f64, Matrix2x2c64, Matrix2x2f64,
};
use dpsimrs::scalar::{Complex64, Real64, Scalar, SIGN_MASK};
use dpsimrs::stamp::{branch_stamp, injection_stamp};

fn re64(x: f64) -> Real64 {
    Real64::from_bits(x.to_bits())
}

fn value(r: Real64) -> f64 {
    f64::from_bits(r.to_bits())
}

#[test]
fn negation_is_that_of_the_floating_point_number() {
    for x in [5.0, -5.0, 0.5, 1.0e300, -1.0e-300, f64::INFINITY, f64::MIN_POSITIVE] {
        assert_eq!(re64(x).neg(), re64(-x));
        assert_eq!(re64(x).neg().neg(), re64(x));
    }
    assert_eq!(re64(0.0).neg(), re64(-0.0));
    assert_eq!(re64(-0.0).neg(), re64(0.0));
    assert_eq!(re64(-0.0).to_bits(), SIGN_MASK);
    assert!(value(re64(f64::NAN).neg()).is_nan());
    assert_eq!(re64(f64::NAN).neg().to_bits(), (-f64::NAN).to_bits());
}

#[test]
fn zero_is_positive_zero() {
    assert_eq!(Real64::zero().to_bits(), 0);
    assert_eq!(value(Real64::zero()), 0.0);
    assert!(value(Real64::zero()).is_sign_positive());
    assert_eq!(Complex64::zero(), Complex64::new(re64(0.0), re64(0.0)));
}

#[test]
fn only_the_two_zeros_are_zero() {
    assert!(re64(0.0).is_zero());
    assert!(re64(-0.0).is_zero());
    assert!(!re64(1.0).is_zero());
    assert!(!re64(f64::MIN_POSITIVE).is_zero());
    assert!(!re64(5e-324).is_zero());
    assert!(!re64(f64::NAN).is_zero());
    assert!(!re64(f64::NEG_INFINITY).is_zero());
}

#[test]
fn complex_negation_negates_both_parts() {
    let c = Complex64::new(re64(1.5), re64(-2.0));
    assert_eq!(c.neg(), Complex64::new(re64(-1.5), re64(2.0)));
    assert_eq!(c.neg().neg(), c);
}

#[test]
fn bits_are_kept() {
    let r = Real64::from_bits(0x4014_0000_0000_0000);
    assert_eq!(r.to_bits(), 0x4014_0000_0000_0000);
    assert_eq!(value(r), 5.0);
}

#[test]
fn branch_stamp_layout() {
    let s: Matrix2x2f64 = branch_stamp(re64(0.25));
    assert_eq!(s.m11, re64(0.25));
    assert_eq!(s.m12, re64(-0.25));
    assert_eq!(s.m21, re64(-0.25));
    assert_eq!(s.m22, re64(0.25));
    let y = Complex64::new(re64(0.5), re64(-0.5));
    let c: Matrix2x2c64 = branch_stamp(y);
    assert_eq!(c.m11, y);
    assert_eq!(c.m12, Complex64::new(re64(-0.5), re64(0.5)));
    assert_eq!(c.m21, c.m12);
    assert_eq!(c.m22, y);
}

#[test]
fn injection_stamp_layout() {
    let s: Matrix2x1f64 = injection_stamp(re64(5.0));
    assert_eq!(s.x, re64(5.0));
    assert_eq!(s.y, re64(-5.0));
    let c: Matrix2x1c64 = injection_stamp(Complex64::new(re64(5.0), re64(0.0)));
    assert_eq!(c.x, Complex64::new(re64(5.0), re64(0.0)));
    assert_eq!(c.y, Complex64::new(re64(-5.0), re64(-0.0)));
}

#[test]
fn blocks_keep_their_entries() {
    let m = Matrix2x2f64::new(re64(1.0), re64(2.0), re64(3.0), re64(4.0));
    assert_eq!((m.m11, m.m12, m.m21, m.m22), (re64(1.0), re64(2.0), re64(3.0), re64(4.0)));
    let z = Matrix2x2f64::zeros();
    assert_eq!((z.m11, z.m12, z.m21, z.m22), (re64(0.0), re64(0.0), re64(0.0), re64(0.0)));
    let v = Matrix2x1f64::new(re64(1.0), re64(2.0));
    assert_eq!((v.x, v.y), (re64(1.0), re64(2.0)));
    let vz = Matrix2x1c64::zeros();
    assert_eq!(vz.x, Complex64::zero());
    assert_eq!(vz.y, Complex64::zero());
    let cz = Matrix2x2c64::zeros();
    assert_eq!(cz.m12, Complex64::zero());
}

#[test]
fn zeros_has_the_shape_asked_for() {
    let m = DMatrixf64::zeros(2, 3);
    assert_eq!(m.nrows, 2);
    assert_eq!(m.ncols, 3);
    assert_eq!(m.data, vec![vec![re64(0.0); 3]; 2]);
    assert!(m.has_dimensions(2, 3));
    assert!(!m.has_dimensions(3, 2));
    let e = DMatrixc64::zeros(0, 0);
    assert!(e.data.is_empty());
    assert!(e.has_dimensions(0, 0));
    let c = DMatrixc64::zeros(3, 0);
    assert_eq!(c.data.len(), 3);
    assert!(c.data.iter().all(|row| row.is_empty()));
}

#[test]
fn from_rows_wants_rows_of_one_length() {
    let ok = DMatrix::from_rows(vec![vec![1u8, 2], vec![3, 4], vec![5, 6]], 2).expect("even rows");
    assert_eq!(ok.nrows, 3);
    assert_eq!(ok.ncols, 2);
    assert_eq!(ok.get(2, 1), 6);
    assert_eq!(ok.get(0, 0), 1);
    assert!(DMatrix::from_rows(vec![vec![1u8, 2], vec![3]], 2).is_none());
    assert!(DMatrix::from_rows(vec![vec![1u8, 2]], 3).is_none());
    let empty = DMatrix::from_rows(Vec::<Vec<u8>>::new(), 4).expect("no rows");
    assert_eq!(empty.nrows, 0);
    assert_eq!(empty.ncols, 4);
}

#[test]
fn has_dimensions_sees_a_ragged_matrix() {
    let ragged = DMatrix { nrows: 2, ncols: 2, data: vec![vec![1u8, 2], vec![3]] };
    assert!(!ragged.has_dimensions(2, 2));
    let short = DMatrix { nrows: 2, ncols: 1, data: vec![vec![1u8]] };
    assert!(!short.has_dimensions(2, 1));
}

#[test]
fn accumulate_changes_one_entry() {
    let mut m = DMatrix::from_rows(vec![vec![1u32, 2], vec![3, 4]], 2).expect("even rows");
    m.accumulate(1, 0, 10, &|a: u32, b: u32| a + b);
    assert_eq!(m.data, vec![vec![1, 2], vec![13, 4]]);
    m.accumulate(1, 0, 5, &|a: u32, b: u32| a * b);
    assert_eq!(m.data, vec![vec![1, 2], vec![65, 4]]);
}

#[test]
fn every_failure_has_its_message() {
    assert_eq!(SimulationError::DegenerateComponent.message(), "branch with zero impedance");
    assert_eq!(
        SimulationError::UnresolvedNodeReference.message(),
        "component refers to an undeclared node"
    );
    assert_eq!(
        SimulationError::OutOfRangeNodeReference.message(),
        "terminal index outside the system"
    );
    assert_eq!(SimulationError::SingularSystem.message(), "system matrix is singular");
}
