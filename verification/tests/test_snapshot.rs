use rusticsom::{DataLabel, Plane, SomData, SomError, Volume, SOM};

fn snapshot() -> SomData {
    SomData {
        x: 2,
        y: 3,
        z: 2,
        learning_rate: 0.25f32.to_bits(),
        sigma: 1.5f32.to_bits(),
        regulate_lrate: 800,
        map: Volume { dim: (2, 3, 2), data: (0..12).map(|n| (n as f64).to_bits()).collect() },
        tag_map: None,
        activation_map: Plane { dim: (2, 3), data: vec![5, 0, 1, 7, 2, 9] },
    }
}

fn tags(count: usize) -> Vec<DataLabel> {
    (0..count).map(|n| DataLabel::new(format!("tag{}", n))).collect()
}

#[test]
fn from_data_accepts_a_consistent_snapshot() {
    let map = SOM::from_data(snapshot()).unwrap();
    assert_eq!(map.get_size(), (2, 3));
    assert_eq!(map.input_len(), 2);
    assert_eq!(f32::from_bits(map.learning_rate()), 0.25);
    assert_eq!(f32::from_bits(map.sigma()), 1.5);
    assert_eq!(map.regulator(), 800);
    assert_eq!(map.get_map_cell((1, 2, 1)), Ok(11.0f64.to_bits()));
    assert_eq!(map.get_map_cell((0, 1, 0)), Ok(2.0f64.to_bits()));
    assert!(map.tag_map().is_none());
}

#[test]
fn from_data_keeps_every_counter_in_its_cell() {
    let map = SOM::from_data(snapshot()).unwrap();
    let counts = map.activation_response();
    assert_eq!(counts.dim, (2, 3));
    assert_eq!(counts.data, vec![5, 0, 1, 7, 2, 9]);
}

#[test]
fn a_win_after_from_data_lands_in_the_right_cell() {
    let mut map = SOM::from_data(snapshot()).unwrap();
    let distances: Vec<u64> = [9.0f64, 8.0, 7.0, 6.0, 0.5, 6.0].iter().map(|d| d.to_bits()).collect();
    assert_eq!(map.winner(&distances), Ok((1, 1)));
    assert_eq!(map.activation_response().data, vec![5, 0, 1, 7, 3, 9]);
}

#[test]
fn from_data_keeps_the_labels() {
    let mut data = snapshot();
    data.tag_map = Some(Plane { dim: (2, 3), data: tags(6) });
    let map = SOM::from_data(data).unwrap();
    let labels: Vec<String> =
        map.tag_map().as_ref().unwrap().iter().map(|t| t.label().clone()).collect();
    assert_eq!(labels, vec!["tag0", "tag1", "tag2", "tag3", "tag4", "tag5"]);
}

#[test]
fn to_data_then_from_data_gives_the_same_map() {
    let mut data = snapshot();
    data.tag_map = Some(Plane { dim: (2, 3), data: tags(6) });
    let map = SOM::from_data(data).unwrap();
    let exported = map.to_data();
    assert_eq!(exported.x, 2);
    assert_eq!(exported.y, 3);
    assert_eq!(exported.z, 2);
    assert_eq!(exported.learning_rate, 0.25f32.to_bits());
    assert_eq!(exported.sigma, 1.5f32.to_bits());
    assert_eq!(exported.regulate_lrate, 800);
    assert_eq!(exported.map.dim, (2, 3, 2));
    assert_eq!(exported.map.data, map.weights());
    assert_eq!(exported.activation_map.dim, (2, 3));
    assert_eq!(exported.activation_map.data, vec![5, 0, 1, 7, 2, 9]);
    let labels = exported.tag_map.as_ref().unwrap();
    assert_eq!(labels.dim, (2, 3));
    assert_eq!(labels.data[4].label(), "tag4");
    let again = SOM::from_data(exported).unwrap();
    assert_eq!(again.weights(), map.weights());
    assert_eq!(again.activation_response().data, map.activation_response().data);
    assert_eq!(again.get_size(), map.get_size());
    assert_eq!(again.regulator(), map.regulator());
}

#[test]
fn to_data_of_a_fresh_map_has_zero_counts_and_no_labels() {
    let map = SOM::create(1, 2, 1, vec![3, 4], None, None).unwrap();
    let data = map.to_data();
    assert_eq!(data.activation_map.data, vec![0, 0]);
    assert_eq!(data.map.data, vec![3, 4]);
    assert!(data.tag_map.is_none());
    assert_eq!(data.regulate_lrate, 0);
}

#[test]
fn from_data_refuses_a_zero_dimension() {
    let mut data = snapshot();
    data.x = 0;
    data.map = Volume { dim: (0, 3, 2), data: vec![] };
    data.activation_map = Plane { dim: (0, 3), data: vec![] };
    assert_eq!(SOM::from_data(data).err(), Some(SomError::Deserialization));
}

#[test]
fn from_data_refuses_weights_of_another_shape() {
    let mut data = snapshot();
    data.map.dim = (3, 2, 2);
    assert_eq!(SOM::from_data(data).err(), Some(SomError::Deserialization));
    let mut data = snapshot();
    data.map.dim = (2, 3, 1);
    assert_eq!(SOM::from_data(data).err(), Some(SomError::Deserialization));
}

#[test]
fn from_data_refuses_weights_of_another_size() {
    let mut data = snapshot();
    data.map.data.pop();
    assert_eq!(SOM::from_data(data).err(), Some(SomError::Deserialization));
    let mut data = snapshot();
    data.map.data.push(0);
    assert_eq!(SOM::from_data(data).err(), Some(SomError::Deserialization));
}

#[test]
fn from_data_refuses_counters_of_another_shape_or_size() {
    let mut data = snapshot();
    data.activation_map.dim = (3, 2);
    assert_eq!(SOM::from_data(data).err(), Some(SomError::Deserialization));
    let mut data = snapshot();
    data.activation_map.data.pop();
    assert_eq!(SOM::from_data(data).err(), Some(SomError::Deserialization));
    let mut data = snapshot();
    data.activation_map.data.push(1);
    assert_eq!(SOM::from_data(data).err(), Some(SomError::Deserialization));
}

#[test]
fn from_data_refuses_labels_of_another_shape_or_size() {
    let mut data = snapshot();
    data.tag_map = Some(Plane { dim: (3, 2), data: tags(6) });
    assert_eq!(SOM::from_data(data).err(), Some(SomError::Deserialization));
    let mut data = snapshot();
    data.tag_map = Some(Plane { dim: (2, 3), data: tags(5) });
    assert_eq!(SOM::from_data(data).err(), Some(SomError::Deserialization));
}

#[test]
fn from_data_refuses_shape_fields_that_disagree_with_every_array() {
    let mut data = snapshot();
    data.y = 2;
    assert_eq!(SOM::from_data(data).err(), Some(SomError::Deserialization));
    let mut data = snapshot();
    data.z = 3;
    assert_eq!(SOM::from_data(data).err(), Some(SomError::Deserialization));
}
