use rand::rngs::StdRng;
use rand::{Rng, SeedableRng};
use rusticsom::som::{DEFAULT_LEARNING_RATE, DEFAULT_SIGMA};
use rusticsom::{weight_count, DataLabel, SomError, SOM};

fn uniform_weights(count: usize, seed: u64) -> Vec<u64> {
    let mut rng = StdRng::seed_from_u64(seed);
    (0..count).map(|_| rng.gen_range(0.0f64, 1.0f64).to_bits()).collect()
}

fn distances_to(map: &SOM, input: &[f64]) -> Vec<u64> {
    let (x, y) = map.get_size();
    let z = map.input_len();
    let mut out = Vec::new();
    for i in 0..x {
        for j in 0..y {
            let mut sum = 0.0f64;
            for k in 0..z {
                let w = f64::from_bits(map.get_map_cell((i, j, k)).unwrap());
                sum += (w - input[k]).powi(2);
            }
            out.push(sum.sqrt().to_bits());
        }
    }
    out
}

fn bits(values: &[f64]) -> Vec<u64> {
    values.iter().map(|v| v.to_bits()).collect()
}

#[test]
fn test_winner() {
    let mut map =
        SOM::create(2, 3, 5, uniform_weights(30, 11), Some(0.1f32.to_bits()), None).unwrap();

    for k in 0..5 {
        map.set_map_cell((1, 1, k), 1.5f64.to_bits()).unwrap();
    }

    for k in 0..5 {
        assert_eq!(f64::from_bits(map.get_map_cell((1, 1, k)).unwrap()), 1.5);
    }

    // The fixture makes (0, 0) the cell closest to the second input.
    for k in 0..5 {
        map.set_map_cell((0, 0, k), 0.5f64.to_bits()).unwrap();
    }

    let first = distances_to(&map, &[1.5; 5]);
    assert_eq!(map.winner(&first).unwrap(), (1, 1));
    let second = distances_to(&map, &[0.5; 5]);
    assert_eq!(map.winner(&second).unwrap(), (0, 0));
}

#[test]
fn create_starts_with_zero_counts_no_labels_and_regulator_zero() {
    let map = SOM::create(2, 3, 5, uniform_weights(30, 1), None, None).unwrap();
    assert_eq!(map.get_size(), (2, 3));
    assert_eq!(map.input_len(), 5);
    assert_eq!(map.regulator(), 0);
    assert!(map.tag_map().is_none());
    let counts = map.activation_response();
    assert_eq!(counts.dim, (2, 3));
    assert_eq!(counts.data, vec![0usize; 6]);
}

#[test]
fn create_defaults_are_one_half_and_one() {
    let map = SOM::create(1, 1, 1, bits(&[0.25]), None, None).unwrap();
    assert_eq!(f32::from_bits(map.learning_rate()), 0.5);
    assert_eq!(f32::from_bits(map.sigma()), 1.0);
    assert_eq!(DEFAULT_LEARNING_RATE, 0.5f32.to_bits());
    assert_eq!(DEFAULT_SIGMA, 1.0f32.to_bits());
}

#[test]
fn create_keeps_given_hyperparameters_and_weights() {
    let weights = bits(&[0.1, 0.2, 0.3, 0.4, 0.5, 0.6, 0.7, 0.8]);
    let map = SOM::create(2, 2, 2, weights.clone(), Some(0.1f32.to_bits()), Some(2.5f32.to_bits()))
        .unwrap();
    assert_eq!(f32::from_bits(map.learning_rate()), 0.1);
    assert_eq!(f32::from_bits(map.sigma()), 2.5);
    assert_eq!(map.weights(), weights);
}

#[test]
fn create_refuses_a_zero_dimension() {
    assert_eq!(SOM::create(0, 3, 5, vec![], None, None).err(), Some(SomError::InvalidParameter));
    assert_eq!(SOM::create(2, 0, 5, vec![], None, None).err(), Some(SomError::InvalidParameter));
    assert_eq!(SOM::create(2, 3, 0, vec![], None, None).err(), Some(SomError::InvalidParameter));
}

#[test]
fn create_refuses_a_grid_too_large_to_address() {
    assert_eq!(
        SOM::create(usize::MAX, 2, 1, vec![], None, None).err(),
        Some(SomError::InvalidParameter)
    );
    assert_eq!(
        SOM::create(usize::MAX / 2, 1, 3, vec![], None, None).err(),
        Some(SomError::InvalidParameter)
    );
}

#[test]
fn create_refuses_a_wrong_number_of_weights() {
    assert_eq!(
        SOM::create(2, 3, 5, uniform_weights(29, 1), None, None).err(),
        Some(SomError::DimensionMismatch)
    );
    assert_eq!(
        SOM::create(2, 3, 5, uniform_weights(31, 1), None, None).err(),
        Some(SomError::DimensionMismatch)
    );
}

#[test]
fn weight_count_is_the_product_of_the_dimensions() {
    assert_eq!(weight_count(2, 3, 5), Ok(30));
    assert_eq!(weight_count(10, 10, 3), Ok(300));
    assert_eq!(weight_count(1, 1, 1), Ok(1));
    assert_eq!(weight_count(0, 1, 1), Err(SomError::InvalidParameter));
    assert_eq!(weight_count(usize::MAX, usize::MAX, 1), Err(SomError::InvalidParameter));
}

#[test]
fn weights_are_laid_out_row_major() {
    let weights: Vec<u64> = (0..24).collect();
    let map = SOM::create(2, 3, 4, weights, None, None).unwrap();
    for i in 0..2 {
        for j in 0..3 {
            for k in 0..4 {
                assert_eq!(map.get_map_cell((i, j, k)), Ok(((i * 3 + j) * 4 + k) as u64));
            }
        }
    }
}

#[test]
fn set_map_cell_changes_one_component_only() {
    let weights: Vec<u64> = (0..24).collect();
    let mut map = SOM::create(2, 3, 4, weights.clone(), None, None).unwrap();
    assert_eq!(map.set_map_cell((1, 2, 3), 99), Ok(()));
    assert_eq!(map.set_map_cell((0, 1, 2), 77), Ok(()));
    let mut expected = weights;
    expected[23] = 99;
    expected[6] = 77;
    assert_eq!(map.weights(), expected);
}

#[test]
fn cell_access_outside_the_grid_is_refused() {
    let weights: Vec<u64> = (0..24).collect();
    let mut map = SOM::create(2, 3, 4, weights.clone(), None, None).unwrap();
    assert_eq!(map.get_map_cell((2, 0, 0)), Err(SomError::IndexOutOfRange));
    assert_eq!(map.get_map_cell((0, 3, 0)), Err(SomError::IndexOutOfRange));
    assert_eq!(map.get_map_cell((0, 0, 4)), Err(SomError::IndexOutOfRange));
    assert_eq!(map.set_map_cell((2, 0, 0), 5), Err(SomError::IndexOutOfRange));
    assert_eq!(map.set_map_cell((0, 3, 0), 5), Err(SomError::IndexOutOfRange));
    assert_eq!(map.set_map_cell((0, 0, 4), 5), Err(SomError::IndexOutOfRange));
    assert_eq!(map.weights(), weights);
}

#[test]
fn winner_counts_exactly_one_win() {
    let mut map = SOM::create(2, 3, 1, bits(&[0.0; 6]), None, None).unwrap();
    let distances = bits(&[4.0, 3.0, 2.0, 0.5, 2.0, 3.0]);
    assert_eq!(map.winner(&distances), Ok((1, 0)));
    assert_eq!(map.activation_response().data, vec![0, 0, 0, 1, 0, 0]);
    assert_eq!(map.winner(&distances), Ok((1, 0)));
    assert_eq!(map.activation_response().data, vec![0, 0, 0, 2, 0, 0]);
    assert_eq!(map.winner(&bits(&[4.0, 3.0, 0.1, 0.5, 2.0, 3.0])), Ok((0, 2)));
    assert_eq!(map.activation_response().data, vec![0, 0, 1, 2, 0, 0]);
}

#[test]
fn winner_leaves_the_weights_and_the_shape_alone() {
    let weights = uniform_weights(12, 3);
    let mut map = SOM::create(2, 3, 2, weights.clone(), None, None).unwrap();
    map.winner(&bits(&[4.0, 3.0, 2.0, 0.5, 2.0, 3.0])).unwrap();
    assert_eq!(map.weights(), weights);
    assert_eq!(map.get_size(), (2, 3));
    assert_eq!(map.input_len(), 2);
    assert_eq!(map.regulator(), 0);
}

#[test]
fn winner_breaks_ties_in_row_major_order() {
    let mut map = SOM::create(2, 3, 1, bits(&[0.0; 6]), None, None).unwrap();
    assert_eq!(map.winner(&bits(&[2.0, 1.0, 1.0, 1.0, 1.0, 2.0])), Ok((0, 1)));
    assert_eq!(map.winner(&bits(&[2.0, 2.0, 2.0, 1.0, 1.0, 1.0])), Ok((1, 0)));
    assert_eq!(map.winner(&bits(&[7.0; 6])), Ok((0, 0)));
}

#[test]
fn winner_falls_back_to_the_first_cell_when_no_distance_takes_part() {
    let mut map = SOM::create(2, 2, 1, bits(&[0.0; 4]), None, None).unwrap();
    let distances = bits(&[f64::NAN, f64::INFINITY, f64::MAX, f64::NAN]);
    assert_eq!(map.winner(&distances), Ok((0, 0)));
    assert_eq!(map.activation_response().data, vec![1, 0, 0, 0]);
}

#[test]
fn winner_refuses_a_wrong_number_of_distances() {
    let mut map = SOM::create(2, 3, 1, bits(&[0.0; 6]), None, None).unwrap();
    assert_eq!(map.winner(&bits(&[1.0; 5])), Err(SomError::DimensionMismatch));
    assert_eq!(map.winner(&bits(&[1.0; 7])), Err(SomError::DimensionMismatch));
    assert_eq!(map.winner(&bits(&[])), Err(SomError::DimensionMismatch));
    assert_eq!(map.activation_response().data, vec![0; 6]);
}

#[test]
fn winner_dist_returns_the_distance_of_the_winner() {
    let mut map = SOM::create(2, 3, 1, bits(&[0.0; 6]), None, None).unwrap();
    let distances = bits(&[4.0, 3.0, 2.0, 3.0, 0.75, 3.0]);
    assert_eq!(map.winner_dist(&distances), Ok(((1, 1), 0.75f64.to_bits())));
    assert_eq!(map.activation_response().data, vec![0, 0, 0, 0, 1, 0]);
    assert_eq!(map.winner_dist(&bits(&[1.0])), Err(SomError::DimensionMismatch));
}

#[test]
fn winner_dist_of_a_prototype_itself_is_zero() {
    let mut map = SOM::create(2, 3, 5, uniform_weights(30, 5), None, None).unwrap();
    let prototype: Vec<f64> =
        (0..5).map(|k| f64::from_bits(map.get_map_cell((1, 2, k)).unwrap())).collect();
    let distances = distances_to(&map, &prototype);
    assert_eq!(map.winner_dist(&distances), Ok(((1, 2), 0.0f64.to_bits())));
}

#[test]
fn check_input_accepts_the_input_length_only() {
    let map = SOM::create(2, 3, 5, uniform_weights(30, 1), None, None).unwrap();
    assert_eq!(map.check_input(5), Ok(()));
    assert_eq!(map.check_input(4), Err(SomError::DimensionMismatch));
    assert_eq!(map.check_input(6), Err(SomError::DimensionMismatch));
    assert_eq!(map.check_input(0), Err(SomError::DimensionMismatch));
}

#[test]
fn update_replaces_the_weights() {
    let mut map = SOM::create(1, 2, 2, bits(&[0.1, 0.2, 0.3, 0.4]), None, None).unwrap();
    let next = bits(&[0.6, 0.8, 1.0, 0.0]);
    assert_eq!(map.update(next.clone()), Ok(()));
    assert_eq!(map.weights(), next);
    assert_eq!(map.get_size(), (1, 2));
    assert_eq!(map.activation_response().data, vec![0, 0]);
}

#[test]
fn update_refuses_weights_of_another_size() {
    let before = bits(&[0.1, 0.2, 0.3, 0.4]);
    let mut map = SOM::create(1, 2, 2, before.clone(), None, None).unwrap();
    assert_eq!(map.update(bits(&[0.6, 0.8, 1.0])), Err(SomError::DimensionMismatch));
    assert_eq!(map.update(bits(&[0.6, 0.8, 1.0, 0.0, 0.0])), Err(SomError::DimensionMismatch));
    assert_eq!(map.weights(), before);
}

#[test]
fn distance_peak_is_the_largest_sum() {
    let map = SOM::create(2, 2, 1, bits(&[0.0; 4]), None, None).unwrap();
    assert_eq!(map.distance_peak(&bits(&[1.0, 4.5, 2.0, 4.0])), Ok(4.5f64.to_bits()));
    assert_eq!(map.distance_peak(&bits(&[0.0; 4])), Ok(0.0f64.to_bits()));
    assert_eq!(map.distance_peak(&bits(&[1.0; 3])), Err(SomError::DimensionMismatch));
}

#[test]
fn data_label_defaults_to_none() {
    assert_eq!(DataLabel::default().label(), "none");
    assert_eq!(DataLabel::new("real".to_string()).label(), "real");
}

#[test]
fn set_tag_map_attaches_and_detaches_labels() {
    let mut map = SOM::create(1, 2, 1, bits(&[0.0, 1.0]), None, None).unwrap();
    let tags = vec![DataLabel::new("real".to_string()), DataLabel::default()];
    assert_eq!(map.set_tag_map(Some(tags)), Ok(()));
    let attached: Vec<String> =
        map.tag_map().as_ref().unwrap().iter().map(|t| t.label().clone()).collect();
    assert_eq!(attached, vec!["real".to_string(), "none".to_string()]);
    assert_eq!(map.set_tag_map(None), Ok(()));
    assert!(map.tag_map().is_none());
}

#[test]
fn set_tag_map_refuses_a_grid_of_another_size() {
    let mut map = SOM::create(1, 2, 1, bits(&[0.0, 1.0]), None, None).unwrap();
    assert_eq!(map.set_tag_map(Some(vec![DataLabel::default()])), Err(SomError::DimensionMismatch));
    assert!(map.tag_map().is_none());
}
