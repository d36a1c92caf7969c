use densenet::error::MatrixError;
use densenet::matrix::Matrix;
use densenet::network::Network;
use densenet::random::RandomSource;
use densenet::scalar::Scalar;
use densenet::utils::cost;

#[derive(Clone, Copy, Debug, PartialEq)]
struct Real(f32);

impl Scalar for Real {
    fn plus_spec(self, rhs: Real) -> Real {
        self.plus(rhs)
    }
    fn minus_spec(self, rhs: Real) -> Real {
        self.minus(rhs)
    }
    fn times_spec(self, rhs: Real) -> Real {
        self.times(rhs)
    }
    fn ratio_spec(self, count: usize) -> Real {
        self.ratio(count)
    }
    fn zero_spec() -> Real {
        Real::zero()
    }
    fn one_spec() -> Real {
        Real::one()
    }
    fn zero() -> Real {
        Real(0.0)
    }
    fn one() -> Real {
        Real(1.0)
    }
    fn plus(self, rhs: Real) -> Real {
        Real(self.0 + rhs.0)
    }
    fn minus(self, rhs: Real) -> Real {
        Real(self.0 - rhs.0)
    }
    fn times(self, rhs: Real) -> Real {
        Real(self.0 * rhs.0)
    }
    fn ratio(self, count: usize) -> Real {
        Real(self.0 / count as f32)
    }
}

struct Lcg(u64);

impl Lcg {
    fn word(&mut self) -> u32 {
        self.0 = self.0.wrapping_mul(6364136223846793005).wrapping_add(1442695040888963407);
        (self.0 >> 33) as u32
    }
}

impl RandomSource<Real> for Lcg {
    fn in_range(value: Real) -> bool {
        -1.0 <= value.0 && value.0 <= 1.0
    }
    fn draw(&mut self) -> Real {
        Real((self.word() % 20001) as f32 / 10000.0 - 1.0)
    }
}

fn sigmoid(x: Real) -> Real {
    Real(x.0.exp() / (x.0.exp() + 1.0))
}

fn d_sigmoid(y: Real) -> Real {
    Real(y.0 * (1.0 - y.0))
}

fn reals(rows: Vec<Vec<f32>>) -> Matrix<Real> {
    Matrix::from_values(rows.into_iter().map(|r| r.into_iter().map(Real).collect()).collect()).unwrap()
}

fn plain(m: &Matrix<Real>) -> Vec<Vec<f32>> {
    m.values().iter().map(|r| r.iter().map(|c| c.0).collect()).collect()
}

#[test]
fn broadcast_add_of_ones_and_a_bias_row() {
    let ones = Matrix::new_filled(3, 4, Real(1.0)).unwrap();
    let bias = reals(vec![vec![1.0, 2.0, 3.0, 4.0]]);
    let r = Matrix::matrix_addition_filling_rows(&ones, &bias).unwrap();
    assert_eq!((r.rows(), r.cols()), (3, 4));
    for row in plain(&r) {
        assert_eq!(row, vec![2.0, 3.0, 4.0, 5.0]);
    }
}

#[test]
fn product_of_two_by_three_matrices_is_a_mismatch() {
    let a = Matrix::new_filled(2, 3, Real(1.0)).unwrap();
    let b = Matrix::new_filled(2, 3, Real(2.0)).unwrap();
    assert_eq!(
        Matrix::matrix_multiplication(&a, &b).err(),
        Some(MatrixError::DimensionMismatch { left_rows: 2, left_cols: 3, right_rows: 2, right_cols: 3 })
    );
    assert_eq!(
        Matrix::<Real>::new_zeroed(0, 4).err(),
        Some(MatrixError::InvalidDimension { rows: 0, cols: 4 })
    );
}

#[test]
fn real_product_and_transpose() {
    let a = reals(vec![vec![0.5, 1.5], vec![-2.0, 4.0]]);
    let b = reals(vec![vec![2.0, 0.0], vec![1.0, -1.0]]);
    let p = Matrix::matrix_multiplication(&a, &b).unwrap();
    assert_eq!(plain(&p), vec![vec![2.5, -1.5], vec![0.0, -4.0]]);
    assert_eq!(plain(&a.transpose().transpose()), plain(&a));
    let id = Matrix::<Real>::identity(2).unwrap();
    assert_eq!(plain(&Matrix::matrix_multiplication(&a, &id).unwrap()), plain(&a));
}

#[test]
fn real_cost_is_the_mean_squared_error() {
    let expected = reals(vec![vec![1.0, 0.0], vec![0.0, 1.0]]);
    let actual = reals(vec![vec![0.5, 0.5], vec![0.0, 0.0]]);
    assert_eq!(cost(&expected, &actual), Ok(Real(0.75)));
}

#[test]
fn random_network_draws_from_the_source() {
    let mut source = Lcg(7);
    let n = Network::<Real>::new(&[2, 5, 5, 1], &mut source).unwrap();
    assert_eq!(n.layers().len(), 3);
    let mut distinct = Vec::new();
    for layer in n.layers() {
        for row in layer.weights().values().iter().chain(layer.biases().values().iter()) {
            for cell in row {
                assert!(-1.0 <= cell.0 && cell.0 <= 1.0);
                if !distinct.contains(&cell.0) {
                    distinct.push(cell.0);
                }
            }
        }
    }
    assert!(distinct.len() > 10);
    let mut again = Lcg(7);
    let m = Network::<Real>::new(&[2, 5, 5, 1], &mut again).unwrap();
    for l in 0..3 {
        assert_eq!(plain(n.layers()[l].weights()), plain(m.layers()[l].weights()));
        assert_eq!(plain(n.layers()[l].biases()), plain(m.layers()[l].biases()));
    }
}

#[test]
fn trace_ends_in_the_last_size() {
    let mut source = Lcg(11);
    let sizes = [4, 7, 3, 2];
    let n = Network::<Real>::new(&sizes, &mut source).unwrap();
    let input = Matrix::new_filled(6, 4, Real(0.25)).unwrap();
    let trace = n.feedforward(input, &sigmoid).unwrap();
    assert_eq!(trace.len(), 4);
    for (l, m) in trace.iter().enumerate() {
        assert_eq!((m.rows(), m.cols()), (6, sizes[l]));
    }
    assert_eq!((trace[3].rows(), trace[3].cols()), (6, 2));
}

#[test]
fn a_step_with_error_changes_the_parameters() {
    let mut source = Lcg(3);
    let mut n = Network::<Real>::new(&[2, 3, 1], &mut source).unwrap();
    let input = reals(vec![vec![1.0, 0.0]]);
    let expected = reals(vec![vec![1.0]]);
    let trace = n.feedforward(input, &sigmoid).unwrap();
    assert_ne!(plain(&trace[2]), plain(&expected));
    let before: Vec<_> = n.layers().iter().map(|l| (plain(l.weights()), plain(l.biases()))).collect();
    n.backpropagate(&trace, expected.clone(), &d_sigmoid, Real(0.1));
    let once: Vec<_> = n.layers().iter().map(|l| (plain(l.weights()), plain(l.biases()))).collect();
    n.backpropagate(&trace, expected, &d_sigmoid, Real(0.1));
    let twice: Vec<_> = n.layers().iter().map(|l| (plain(l.weights()), plain(l.biases()))).collect();
    assert_ne!(before, once);
    assert_ne!(once, twice);
    let first_move = once[1].1[0][0] - before[1].1[0][0];
    let second_move = twice[1].1[0][0] - once[1].1[0][0];
    assert!(first_move != 0.0);
    assert!(first_move.signum() == second_move.signum());
}

#[test]
fn a_step_lowers_the_error_of_one_layer() {
    let mut n = Network::from_layers(vec![densenet::layer::Layer::from_parts(
        reals(vec![vec![0.5], vec![-0.5]]),
        reals(vec![vec![0.0]]),
    )
    .unwrap()])
    .unwrap();
    let input = reals(vec![vec![1.0, 2.0]]);
    let expected = reals(vec![vec![1.0]]);
    let same = |x: Real| x;
    let unit = |_: Real| Real(1.0);
    let trace = n.feedforward(input.clone(), &same).unwrap();
    assert_eq!(plain(&trace[1]), vec![vec![-0.5]]);
    n.backpropagate(&trace, expected.clone(), &unit, Real(0.125));
    assert_eq!(plain(n.layers()[0].weights()), vec![vec![0.6875], vec![-0.125]]);
    assert_eq!(plain(n.layers()[0].biases()), vec![vec![0.1875]]);
    let after = n.feedforward(input, &same).unwrap();
    assert_eq!(plain(&after[1]), vec![vec![0.625]]);
}

#[test]
fn xor_is_learned() {
    let mut source = Lcg(2024);
    let mut n = Network::<Real>::new(&[2, 5, 5, 1], &mut source).unwrap();
    let inputs = [[1.0, 0.0], [0.0, 0.0], [0.0, 1.0], [1.0, 1.0]];
    let targets = [1.0, 0.0, 1.0, 0.0];
    let all_inputs = reals(inputs.iter().map(|p| p.to_vec()).collect());
    let all_targets = reals(targets.iter().map(|t| vec![*t]).collect());
    let first = n.feedforward(all_inputs.clone(), &sigmoid).unwrap();
    let error_before = cost(&all_targets, &first[3]).unwrap().0;
    for _ in 0..40000 {
        let pick = (source.word() % 4) as usize;
        let input = reals(vec![inputs[pick].to_vec()]);
        let expected = reals(vec![vec![targets[pick]]]);
        let trace = n.feedforward(input, &sigmoid).unwrap();
        assert!(n.fits(&trace, &expected));
        n.backpropagate(&trace, expected, &d_sigmoid, Real(0.1));
    }
    let last = n.feedforward(all_inputs, &sigmoid).unwrap();
    let error_after = cost(&all_targets, &last[3]).unwrap().0;
    assert!(error_after < error_before);
    for (k, row) in plain(&last[3]).iter().enumerate() {
        assert!((row[0] - targets[k]).abs() < 0.2);
    }
}
