use snake_evo::nnet::{genome_size, NNet, NetError};
use rand::rngs::StdRng;
use rand::SeedableRng;

#[test]
fn genome_length_of_agent_blueprint() {
    let mut rng = StdRng::seed_from_u64(1);
    let net = NNet::new(&[8, 8, 8, 4], &mut rng).unwrap();
    assert_eq!(net.genome_len(), 8 * 9 + 8 * 9 + 4 * 9);
    assert_eq!(net.serialize().len(), 180);
    assert_eq!(genome_size(&[8, 8, 8, 4]), Some(180));
}

#[test]
fn invalid_blueprints_are_refused() {
    let mut rng = StdRng::seed_from_u64(1);
    assert_eq!(NNet::new(&[8], &mut rng).err(), Some(NetError::Configuration));
    assert_eq!(NNet::new(&[], &mut rng).err(), Some(NetError::Configuration));
    assert_eq!(NNet::new(&[8, 0, 4], &mut rng).err(), Some(NetError::Configuration));
    assert_eq!(genome_size(&[3, 0]), None);
    assert_eq!(genome_size(&[usize::MAX, 2]), None);
}

#[test]
fn fresh_weights_lie_in_range_and_vary() {
    let mut rng = StdRng::seed_from_u64(3);
    let g = NNet::new(&[8, 8, 8, 4], &mut rng).unwrap().serialize();
    assert!(g.iter().all(|&w| (-5..5).contains(&w)));
    assert!(g.iter().any(|&w| w != g[0]));
}

#[test]
fn same_seed_gives_same_network() {
    let a = NNet::new(&[4, 3, 2], &mut StdRng::seed_from_u64(42)).unwrap().serialize();
    let b = NNet::new(&[4, 3, 2], &mut StdRng::seed_from_u64(42)).unwrap().serialize();
    assert_eq!(a, b);
}

#[test]
fn round_trip_keeps_genome() {
    let mut rng = StdRng::seed_from_u64(5);
    let mut net = NNet::new(&[8, 8, 8, 4], &mut rng).unwrap();
    let g = net.serialize();
    assert_eq!(net.deserialize(g.clone()), Ok(()));
    assert_eq!(net.serialize(), g);
}

#[test]
fn deserialize_refuses_wrong_length() {
    let mut net = NNet::from_genome(&[2, 1], vec![1, 2, 3]).unwrap();
    assert_eq!(net.deserialize(vec![1, 2]), Err(NetError::GenomeLengthMismatch));
    assert_eq!(net.deserialize(vec![1, 2, 3, 4]), Err(NetError::GenomeLengthMismatch));
    assert_eq!(net.serialize(), vec![1, 2, 3]);
    assert_eq!(net.deserialize(vec![7, 8, 9]), Ok(()));
    assert_eq!(net.serialize(), vec![7, 8, 9]);
}

#[test]
fn from_genome_checks_length() {
    assert_eq!(NNet::from_genome(&[2, 1], vec![1, 2]).err(), Some(NetError::GenomeLengthMismatch));
    assert_eq!(NNet::from_genome(&[2], vec![]).err(), Some(NetError::Configuration));
}

#[test]
fn feed_forward_is_dot_product_plus_bias() {
    // one neuron: 1*4 + 2*5 + 3
    let net = NNet::from_genome(&[2, 1], vec![1, 2, 3]).unwrap();
    assert_eq!(net.feed_forward(vec![4, 5]), vec![17]);
    // two layers: hidden [x0 - x1 + 1, 2*x0 + 0], out 3*h0 + h1 - 2
    let net = NNet::from_genome(&[2, 2, 1], vec![1, -1, 1, 2, 0, 0, 3, 1, -2]).unwrap();
    assert_eq!(net.feed_forward(vec![5, 2]), vec![3 * 4 + 10 - 2]);
}

#[test]
fn feed_forward_saturates() {
    let net = NNet::from_genome(&[1, 1], vec![i64::MAX, 5]).unwrap();
    assert_eq!(net.feed_forward(vec![2]), vec![i64::MAX]);
    assert_eq!(net.feed_forward(vec![-2]), vec![i64::MIN + 5]);
}
