use snark_lab::field::Scalar;
use snark_lab::multilinear::{eq_evaluations, Multilinear};

fn s(value: u64) -> Scalar {
    Scalar::from_u64(value)
}

#[test]
fn interpolates() {
    let p = Multilinear::new(vec![s(0), s(2), s(4), s(8)]).unwrap();
    assert_eq!(p.evaluate(&[s(1), s(1)]).unwrap(), s(8));
}

#[test]
fn eq_sums_to_one() {
    let mut sum = Scalar::zero();
    for value in eq_evaluations(&[s(3), s(7), s(11)]) {
        sum = sum.add(&value);
    }
    assert_eq!(sum, Scalar::one());
}

#[test]
fn new_rejects_non_power_of_two_length() {
    assert!(Multilinear::new(vec![s(1), s(2), s(3)]).is_err());
    assert!(Multilinear::new(Vec::new()).is_err());
}

#[test]
fn fold_first_binds_least_significant_variable() {
    let p = Multilinear::new(vec![s(1), s(3), s(5), s(9)]).unwrap();
    let folded = p.fold_first(s(2));
    // (1 - 2)·1 + 2·3 = 5 and (1 - 2)·5 + 2·9 = 13.
    assert_eq!(folded.evaluations(), &[s(5), s(13)]);
    assert_eq!(folded.variables(), 1);
}

#[test]
fn sum_hypercube_adds_every_entry() {
    let p = Multilinear::new(vec![s(1), s(2), s(3), s(4)]).unwrap();
    assert_eq!(p.sum_hypercube(), s(10));
}

#[test]
fn evaluate_rejects_wrong_dimension() {
    let p = Multilinear::new(vec![s(1), s(2)]).unwrap();
    assert!(p.evaluate(&[s(1), s(2)]).is_err());
}

#[test]
fn extension_matches_table_at_every_cube_corner() {
    let values: Vec<u64> = vec![3, 1, 4, 1, 5, 9, 2, 6];
    let table = Multilinear::new(values.iter().copied().map(Scalar::from_u64).collect()).unwrap();
    for index in 0..values.len() {
        let corner: Vec<Scalar> = (0..3).map(|bit| Scalar::from_u64(((index >> bit) & 1) as u64)).collect();
        assert_eq!(table.evaluate(&corner).unwrap(), Scalar::from_u64(values[index]));
    }
}
