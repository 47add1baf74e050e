use neural_network::activation::Activation;
use neural_network::error::Error;
use neural_network::learning::{Data, DataSet};
use neural_network::matrix::Matrix;
use neural_network::network::Network;
use neural_network::persist::SaveData;
use neural_network::scalar::Scalar;
use rand::rngs::StdRng;
use rand::{Rng, SeedableRng};
use serde_json::{Number, Value};
use std::cell::RefCell;

#[derive(Clone, Copy, Debug, PartialEq)]
struct Real(f64);

impl From<f64> for Real {
    fn from(x: f64) -> Real {
        Real(x)
    }
}

impl Scalar for Real {
    fn zero_spec() -> Real {
        Real(0.0)
    }

    fn plus_spec(self, rhs: Real) -> Real {
        Real(self.0 + rhs.0)
    }

    fn minus_spec(self, rhs: Real) -> Real {
        Real(self.0 - rhs.0)
    }

    fn times_spec(self, rhs: Real) -> Real {
        Real(self.0 * rhs.0)
    }

    fn zero() -> Real {
        Real(0.0)
    }

    fn plus(self, rhs: Real) -> Real {
        Real(self.0 + rhs.0)
    }

    fn minus(self, rhs: Real) -> Real {
        Real(self.0 - rhs.0)
    }

    fn times(self, rhs: Real) -> Real {
        Real(self.0 * rhs.0)
    }

    fn times_commutes(_a: Real, _b: Real) {
    }
}

struct Sigmoid;

impl Activation<Real> for Sigmoid {
    fn function_spec(&self, x: Real) -> Real {
        Real(1.0 / (1.0 + (-x.0).exp()))
    }

    fn derivative_spec(&self, y: Real) -> Real {
        Real(y.0 * (1.0 - y.0))
    }

    fn function(&self, x: Real) -> Real {
        Real(1.0 / (1.0 + (-x.0).exp()))
    }

    fn derivative(&self, y: Real) -> Real {
        Real(y.0 * (1.0 - y.0))
    }
}

struct Line;

impl Activation<Real> for Line {
    fn function_spec(&self, x: Real) -> Real {
        x
    }

    fn derivative_spec(&self, _y: Real) -> Real {
        Real(1.0)
    }

    fn function(&self, x: Real) -> Real {
        x
    }

    fn derivative(&self, _y: Real) -> Real {
        Real(1.0)
    }
}

fn reals(values: Vec<f64>) -> Data<Real> {
    Data::new(values)
}

fn bits(data: &Data<Real>) -> Vec<u64> {
    data.0.iter().map(|x| x.0.to_bits()).collect()
}

fn table_bits(tables: &Vec<Vec<Vec<Real>>>) -> Vec<Vec<Vec<u64>>> {
    tables
        .iter()
        .map(|t| t.iter().map(|r| r.iter().map(|x| x.0.to_bits()).collect()).collect())
        .collect()
}

fn shapes(tables: &Vec<Vec<Vec<Real>>>) -> Vec<(usize, usize)> {
    tables.iter().map(|t| (t.len(), t[0].len())).collect()
}

fn xor_set() -> DataSet<Real> {
    DataSet::from_table(vec![
        (vec![0.0, 0.0], vec![0.0]),
        (vec![0.0, 1.0], vec![1.0]),
        (vec![1.0, 0.0], vec![1.0]),
        (vec![1.0, 1.0], vec![0.0]),
    ])
}

fn seeded(seed: u64, learning: f64, impulse: f64) -> Network<Real, Sigmoid> {
    let rng = RefCell::new(StdRng::seed_from_u64(seed));
    let draw = || Real(rng.borrow_mut().gen::<f64>() * 2.0 - 1.0);
    Network::new(vec![2, 4, 1], Real(learning), Real(impulse), Sigmoid, &draw)
}

fn to_json(tables: &Vec<Vec<Vec<Real>>>) -> Value {
    Value::Array(
        tables
            .iter()
            .map(|t| {
                Value::Array(
                    t.iter()
                        .map(|r| {
                            Value::Array(
                                r.iter()
                                    .map(|x| Value::Number(Number::from_f64(x.0).unwrap()))
                                    .collect(),
                            )
                        })
                        .collect(),
                )
            })
            .collect(),
    )
}

fn from_json(value: &Value) -> Vec<Vec<Vec<Real>>> {
    value
        .as_array()
        .unwrap()
        .iter()
        .map(|t| {
            t.as_array()
                .unwrap()
                .iter()
                .map(|r| r.as_array().unwrap().iter().map(|x| Real(x.as_f64().unwrap())).collect())
                .collect()
        })
        .collect()
}

fn write_text(saved: &SaveData<Real>) -> String {
    let mut fields = serde_json::Map::new();
    fields.insert("weights".to_string(), to_json(&saved.weights));
    fields.insert("biases".to_string(), to_json(&saved.biases));
    fields.insert("edgeVelocity".to_string(), to_json(&saved.edge_vel));
    fields.insert("neuronVelocity".to_string(), to_json(&saved.neuron_vel));
    serde_json::to_string(&Value::Object(fields)).unwrap()
}

fn read_text(text: &str) -> SaveData<Real> {
    let value: Value = serde_json::from_str(text).unwrap();
    SaveData {
        weights: from_json(&value["weights"]),
        biases: from_json(&value["biases"]),
        edge_vel: from_json(&value["edgeVelocity"]),
        neuron_vel: from_json(&value["neuronVelocity"]),
    }
}

#[test]
fn xor_is_learned_in_five_thousand_epochs() {
    let mut network = seeded(1, 0.3, 0.0);
    let set = xor_set();
    assert!(network.check_dataset(&set));
    network.train(&set, 5000, false, &|_: usize| {});
    let zero_zero = network.predict(reals(vec![0.0, 0.0])).unwrap().0[0].0;
    let zero_one = network.predict(reals(vec![0.0, 1.0])).unwrap().0[0].0;
    let one_zero = network.predict(reals(vec![1.0, 0.0])).unwrap().0[0].0;
    let one_one = network.predict(reals(vec![1.0, 1.0])).unwrap().0[0].0;
    assert!(zero_one > 0.9);
    assert!(one_zero > 0.9);
    assert!(zero_zero < 0.1);
    assert!(one_one < 0.1);
}

#[test]
fn single_step_moves_the_weight_to_two_and_a_half() {
    let draw = || Real(0.25);
    let mut network = Network::new(vec![1, 1], Real(1.0), Real(0.0), Line, &draw);
    let start = SaveData {
        weights: vec![vec![vec![Real(0.5)]]],
        biases: vec![vec![vec![Real(0.0)]]],
        edge_vel: vec![vec![vec![Real(0.0)]]],
        neuron_vel: vec![vec![vec![Real(0.0)]]],
    };
    assert!(start.is_well_formed());
    assert!(start.fits(&vec![1, 1]));
    network.load(&start);
    let answer = network.predict(reals(vec![2.0])).unwrap();
    assert_eq!(answer.0, vec![Real(1.0)]);
    network.back_propogate(reals(vec![2.0]));
    let after = network.save();
    assert_eq!(after.weights, vec![vec![vec![Real(2.5)]]]);
    assert_eq!(after.biases, vec![vec![vec![Real(1.0)]]]);
    assert_eq!(after.edge_vel, vec![vec![vec![Real(2.0)]]]);
    assert_eq!(after.neuron_vel, vec![vec![vec![Real(1.0)]]]);
}

#[test]
fn sigmoid_answer_of_one_neuron() {
    let draw = || Real(0.0);
    let mut network = Network::new(vec![1, 1], Real(1.0), Real(0.0), Sigmoid, &draw);
    let answer = network.predict(reals(vec![3.0])).unwrap();
    assert_eq!(answer.0, vec![Real(0.5)]);
    network.back_propogate(reals(vec![1.0]));
    let after = network.save();
    // error 0.5, slope 0.5 * (1 - 0.5) = 0.25, gradient 0.125
    assert_eq!(after.neuron_vel, vec![vec![vec![Real(0.125)]]]);
    assert_eq!(after.edge_vel, vec![vec![vec![Real(0.375)]]]);
    assert_eq!(after.weights, vec![vec![vec![Real(0.375)]]]);
    assert_eq!(after.biases, vec![vec![vec![Real(0.125)]]]);
}

#[test]
fn momentum_on_reals() {
    let draw = || Real(0.0);
    let mut network = Network::new(vec![1, 1], Real(0.5), Real(0.25), Line, &draw);
    let start = SaveData {
        weights: vec![vec![vec![Real(0.5)]]],
        biases: vec![vec![vec![Real(0.0)]]],
        edge_vel: vec![vec![vec![Real(4.0)]]],
        neuron_vel: vec![vec![vec![Real(8.0)]]],
    };
    network.load(&start);
    assert_eq!(network.predict(reals(vec![2.0])).unwrap().0, vec![Real(1.0)]);
    network.back_propogate(reals(vec![2.0]));
    let after = network.save();
    // edge velocity (4 * 0.25 + 1 * 2) * 0.5 = 1.5, neuron velocity (8 * 0.25 + 1) * 0.5 = 1.5
    assert_eq!(after.edge_vel, vec![vec![vec![Real(1.5)]]]);
    assert_eq!(after.neuron_vel, vec![vec![vec![Real(1.5)]]]);
    assert_eq!(after.weights, vec![vec![vec![Real(2.0)]]]);
    assert_eq!(after.biases, vec![vec![vec![Real(1.5)]]]);
}

#[test]
fn wrong_input_length_is_refused_before_any_weight_moves() {
    let mut network = seeded(3, 0.3, 0.0);
    let before = network.save();
    let refused = network.predict(reals(vec![1.0]));
    assert_eq!(refused.err(), Some(Error::DimensionMismatch { expected: 2, found: 1 }));
    let refused = network.predict(reals(vec![1.0, 2.0, 3.0]));
    assert_eq!(refused.err(), Some(Error::DimensionMismatch { expected: 2, found: 3 }));
    let after = network.save();
    assert_eq!(table_bits(&after.weights), table_bits(&before.weights));
    assert_eq!(table_bits(&after.biases), table_bits(&before.biases));
    assert_eq!(table_bits(&after.edge_vel), table_bits(&before.edge_vel));
    assert_eq!(table_bits(&after.neuron_vel), table_bits(&before.neuron_vel));
}

#[test]
fn training_twice_from_one_start_gives_the_same_bits() {
    let start = seeded(5, 0.3, 0.5).save();
    let set = xor_set();
    let mut answers: Vec<Vec<u64>> = Vec::new();
    for _ in 0..2 {
        let mut network = seeded(99, 0.3, 0.5);
        assert!(start.fits(network.layer_sizes()));
        network.load(&start);
        network.train(&set, 200, false, &|_: usize| {});
        answers.push(bits(&network.predict(reals(vec![0.0, 1.0])).unwrap()));
    }
    assert_eq!(answers[0], answers[1]);
}

#[test]
fn saved_text_loaded_into_a_fresh_network_answers_the_same() {
    let mut source = seeded(11, 0.3, 0.2);
    let set = xor_set();
    source.train(&set, 50, false, &|_: usize| {});
    let saved = source.save();
    let text = write_text(&saved);
    let read = read_text(&text);
    assert_eq!(table_bits(&read.weights), table_bits(&saved.weights));
    assert_eq!(table_bits(&read.biases), table_bits(&saved.biases));
    assert_eq!(table_bits(&read.edge_vel), table_bits(&saved.edge_vel));
    assert_eq!(table_bits(&read.neuron_vel), table_bits(&saved.neuron_vel));
    let mut fresh = seeded(12, 0.3, 0.2);
    assert!(read.is_well_formed());
    assert!(read.fits(fresh.layer_sizes()));
    fresh.load(&read);
    let inputs =
        vec![vec![0.0, 0.0], vec![0.0, 1.0], vec![1.0, 0.0], vec![1.0, 1.0], vec![0.3, -7.5]];
    for input in inputs {
        let a = source.predict(reals(input.clone())).unwrap();
        let b = fresh.predict(reals(input)).unwrap();
        assert_eq!(bits(&a), bits(&b));
    }
    source.train(&set, 10, false, &|_: usize| {});
    fresh.train(&set, 10, false, &|_: usize| {});
    let a = source.predict(reals(vec![1.0, 0.0])).unwrap();
    let b = fresh.predict(reals(vec![1.0, 0.0])).unwrap();
    assert_eq!(bits(&a), bits(&b));
}

#[test]
fn shapes_stay_as_constructed() {
    let mut network = seeded(2, 0.3, 0.1);
    let before = network.save();
    assert_eq!(shapes(&before.weights), vec![(4, 2), (1, 4)]);
    assert_eq!(shapes(&before.biases), vec![(4, 1), (1, 1)]);
    assert_eq!(shapes(&before.edge_vel), vec![(4, 2), (1, 4)]);
    assert_eq!(shapes(&before.neuron_vel), vec![(4, 1), (1, 1)]);
    let set = xor_set();
    network.train(&set, 25, false, &|_: usize| {});
    let _ = network.predict(reals(vec![1.0, 1.0])).unwrap();
    network.back_propogate(reals(vec![0.0]));
    let _ = network.predict(reals(vec![1.0])).err().unwrap();
    let after = network.save();
    assert_eq!(shapes(&after.weights), shapes(&before.weights));
    assert_eq!(shapes(&after.biases), shapes(&before.biases));
    assert_eq!(shapes(&after.edge_vel), shapes(&before.edge_vel));
    assert_eq!(shapes(&after.neuron_vel), shapes(&before.neuron_vel));
    assert!(after.fits(network.layer_sizes()));
}

#[test]
fn fresh_weights_come_from_the_unit_interval() {
    let network = seeded(4, 0.3, 0.0);
    let saved = network.save();
    for table in saved.weights.iter().chain(saved.biases.iter()) {
        for row in table {
            for x in row {
                assert!(-1.0 <= x.0 && x.0 < 1.0);
            }
        }
    }
    for table in saved.edge_vel.iter().chain(saved.neuron_vel.iter()) {
        for row in table {
            for x in row {
                assert_eq!(x.0.to_bits(), 0.0f64.to_bits());
            }
        }
    }
}

#[test]
fn real_matrix_product_sums_from_zero_left_to_right() {
    let a: Matrix<Real> = Matrix::from(vec![vec![Real(1e16), Real(1.0), Real(-1e16)]]);
    let b: Matrix<Real> = Matrix::from(vec![vec![Real(1.0)], vec![Real(1.0)], vec![Real(1.0)]]);
    let p = a.mul(&b).unwrap();
    // (0 + 1e16 + 1) - 1e16: the one is lost where it is added
    assert_eq!(p.data, vec![vec![Real((0.0 + 1e16 + 1.0) - 1e16)]]);
    assert_eq!(p.data, vec![vec![Real(0.0)]]);
}

#[test]
fn real_map_applies_the_function() {
    let mut m: Matrix<Real> =
        Matrix::from(vec![vec![Real(1.0), Real(-2.0)], vec![Real(0.5), Real(4.0)]]);
    m.map(&|x: Real| Real(x.0 * 2.0));
    assert_eq!(m.data, vec![vec![Real(2.0), Real(-4.0)], vec![Real(1.0), Real(8.0)]]);
}

#[test]
fn data_new_converts_floats() {
    let data: Data<Real> = Data::new(vec![1.5, -2.0]);
    assert_eq!(data.0, vec![Real(1.5), Real(-2.0)]);
}
