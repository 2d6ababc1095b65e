use snake_evo::genalgo::{apply_mutation, cross_genome, mutate_genome, select_from_scores, selection_weights, EvoError, GenAlgo};
use rand::rngs::StdRng;
use rand::SeedableRng;
use snake_evo::snake::{Direction, Snake};

#[test]
fn weights_floor_zero_scores() {
    assert_eq!(selection_weights(&vec![0, 5, 0, 10_000]), vec![100, 5, 100, 10_000]);
}

#[test]
fn selection_follows_weights() {
    let mut rng = StdRng::seed_from_u64(11);
    let scores = vec![0, 0, 10_000];
    let mut counts = [0usize; 3];
    for _ in 0..5_000 {
        let (a, b) = select_from_scores(&scores, &mut rng).unwrap();
        counts[a] += 1;
        counts[b] += 1;
    }
    // expected share of the third: 10000 / 10200, about 9804 of 10000
    assert!(counts[2] > 9_650 && counts[2] < 9_950, "{:?}", counts);
    assert!(counts[0] > 0 && counts[1] > 0, "{:?}", counts);
}

#[test]
fn selection_errors() {
    let mut rng = StdRng::seed_from_u64(1);
    assert_eq!(select_from_scores(&vec![], &mut rng), Err(EvoError::EmptyPopulation));
    assert_eq!(select_from_scores(&vec![u64::MAX, 1], &mut rng), Err(EvoError::WeightOverflow));
    assert_eq!(select_from_scores(&vec![7], &mut rng), Ok((0, 0)));
}

#[test]
fn crossover_takes_each_gene_from_a_parent() {
    let mut rng = StdRng::seed_from_u64(21);
    let p1 = Snake::new(&mut rng);
    let p2 = Snake::new(&mut rng);
    let g1 = p1.net().serialize();
    let g2 = p2.net().serialize();
    let kids = GenAlgo::cross(&p1, &p2, &mut rng, 6);
    assert_eq!(kids.len(), 6);
    let mut from1 = 0;
    let mut from2 = 0;
    for k in &kids {
        assert_eq!(k.pos, vec![(0, 2), (0, 1), (0, 0)]);
        assert_eq!(k.dir(), Direction::Down);
        let g = k.net().serialize();
        assert_eq!(g.len(), 180);
        for j in 0..g.len() {
            assert!(g[j] == g1[j] || g[j] == g2[j]);
            if g[j] == g1[j] && g1[j] != g2[j] {
                from1 += 1;
            }
            if g[j] == g2[j] && g1[j] != g2[j] {
                from2 += 1;
            }
        }
    }
    assert!(from1 > 0 && from2 > 0);
}

#[test]
fn mutation_at_rate_zero_changes_nothing() {
    let mut rng = StdRng::seed_from_u64(31);
    let mut g: Vec<i64> = (0..180).map(|i| i - 90).collect();
    let before = g.clone();
    mutate_genome(&mut g, &mut rng, 0, 1);
    assert_eq!(g, before);
    let mut snakes = vec![Snake::new(&mut rng), Snake::new(&mut rng)];
    let genomes: Vec<Vec<i64>> = snakes.iter().map(|s| s.net().serialize()).collect();
    GenAlgo::mutate(&mut snakes, &mut rng, 0, 2);
    for (s, g) in snakes.iter().zip(genomes.iter()) {
        assert_eq!(&s.net().serialize(), g);
    }
}

#[test]
fn mutation_at_rate_one_stays_within_five() {
    let mut rng = StdRng::seed_from_u64(41);
    let mut g: Vec<i64> = vec![0; 180];
    g[0] = i64::MAX;
    let before = g.clone();
    mutate_genome(&mut g, &mut rng, 1, 1);
    let mut changed = 0;
    for j in 0..g.len() {
        let d = g[j] as i128 - before[j] as i128;
        assert!((-5..=5).contains(&d));
        if d != 0 {
            changed += 1;
        }
    }
    assert!(changed > 100);
}

#[test]
fn population_of_zero_is_refused() {
    assert!(matches!(GenAlgo::new(StdRng::seed_from_u64(1), 0), Err(EvoError::Configuration)));
}

#[test]
fn mutation_rate_must_be_a_probability() {
    let mut algo = GenAlgo::new(StdRng::seed_from_u64(1), 2).unwrap();
    assert_eq!(algo.set_mutation_rate(3, 2), Err(EvoError::Configuration));
    assert_eq!(algo.set_mutation_rate(1, 0), Err(EvoError::Configuration));
    assert_eq!(algo.set_mutation_rate(3, 10), Ok(()));
}

#[test]
fn evolve_replaces_the_population() {
    let mut algo = GenAlgo::new(StdRng::seed_from_u64(51), 5).unwrap();
    assert_eq!(algo.pops.len(), 5);
    for s in algo.pops.iter_mut() {
        s.update((3, 3));
        s.is_alive = false;
        assert_eq!(s.on_death(), Ok(()));
    }
    assert_eq!(algo.evolve(), Ok(()));
    assert_eq!(algo.pops.len(), 5);
    for s in &algo.pops {
        assert!(s.is_alive);
        assert_eq!(s.lifetime, 0);
        assert_eq!(s.pos, vec![(0, 2), (0, 1), (0, 0)]);
        assert_eq!(s.net().genome_len(), 180);
    }
}

#[test]
fn evolve_on_empty_population_fails() {
    let mut algo = GenAlgo::new(StdRng::seed_from_u64(1), 1).unwrap();
    algo.pops.clear();
    assert_eq!(algo.evolve(), Err(EvoError::EmptyPopulation));
}

#[test]
fn apply_mutation_adds_deltas_where_hit() {
    let mut g = vec![1, 2, 3, i64::MAX, i64::MIN];
    apply_mutation(&mut g, &vec![true, false, true, true, true], &vec![5, 4, -3, 2, -1]);
    assert_eq!(g, vec![6, 2, 0, i64::MAX, i64::MIN]);
}

#[test]
fn cross_genome_follows_coins() {
    let g1 = vec![1, 2, 3, 4];
    let g2 = vec![-1, -2, -3, -4];
    assert_eq!(cross_genome(&g1, &g2, &vec![true, false, false, true]), vec![1, -2, -3, 4]);
    assert_eq!(cross_genome(&g1, &g2, &vec![false; 4]), g2);
    assert_eq!(cross_genome(&g1, &g2, &vec![true; 4]), g1);
}

#[test]
fn positive_population_is_built() {
    let algo = GenAlgo::new(StdRng::seed_from_u64(2), 3).unwrap();
    assert_eq!(algo.pops.len(), 3);
    for s in &algo.pops {
        assert_eq!(s.pos, vec![(0, 2), (0, 1), (0, 0)]);
        assert_eq!(s.dir(), Direction::Down);
        assert!(s.is_alive);
        assert_eq!(s.score(), 0);
        assert!(s.net().serialize().iter().all(|&w| (-5..5).contains(&w)));
    }
}
