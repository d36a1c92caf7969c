use densenet::matrix::Matrix;
use densenet::random::{RandomSource, ThreadSource};
use densenet::scalar::Scalar;

#[test]
fn integer_ratio_is_the_floor_of_the_quotient() {
    assert_eq!(7i64.ratio(2), 3);
    assert_eq!((-7i64).ratio(2), -4);
    assert_eq!((-8i64).ratio(2), -4);
    assert_eq!(0i64.ratio(5), 0);
    assert_eq!(9i64.ratio(1), 9);
    assert_eq!(i64::MIN.ratio(1), i64::MIN);
    assert_eq!(i64::MAX.ratio(usize::MAX), 0);
    assert_eq!((-1i64).ratio(usize::MAX), -1);
}

#[test]
fn integer_units_are_zero_and_one() {
    assert_eq!(<i64 as Scalar>::zero(), 0);
    assert_eq!(<i64 as Scalar>::one(), 1);
    assert_eq!(5i64.plus(<i64 as Scalar>::zero()), 5);
    assert_eq!(5i64.times(<i64 as Scalar>::one()), 5);
    assert_eq!(5i64.times(<i64 as Scalar>::zero()), 0);
    assert_eq!(5i64.minus(7), -2);
}

#[test]
fn thread_source_stays_in_its_range() {
    let mut source = ThreadSource;
    let mut seen = [false; 3];
    for _ in 0..600 {
        let v: i64 = source.draw();
        assert!((-1..=1).contains(&v));
        seen[(v + 1) as usize] = true;
    }
    assert_eq!(seen, [true, true, true]);
}

#[test]
fn random_matrix_has_the_asked_shape() {
    let mut source = ThreadSource;
    let m = Matrix::<i64>::new_random(3, 5, &mut source).unwrap();
    assert_eq!((m.rows(), m.cols()), (3, 5));
    assert_eq!(m.values().len(), 3);
    for row in m.values() {
        assert_eq!(row.len(), 5);
        for v in row {
            assert!((-1..=1).contains(v));
        }
    }
    assert!(Matrix::<i64>::new_random(0, 5, &mut source).is_err());
    assert!(Matrix::<i64>::new_random(3, 0, &mut source).is_err());
}

#[test]
fn a_word_stands_for_its_remainder_less_one() {
    assert_eq!(ThreadSource::from_word(0), -1);
    assert_eq!(ThreadSource::from_word(1), 0);
    assert_eq!(ThreadSource::from_word(2), 1);
    assert_eq!(ThreadSource::from_word(3), -1);
    assert_eq!(ThreadSource::from_word(100), 0);
    assert_eq!(ThreadSource::from_word(u64::MAX), -1);
    assert_eq!(ThreadSource::from_word(u64::MAX - 1), 1);
}
