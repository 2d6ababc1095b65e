use snake_evo::nnet::NNet;
use rand::rngs::StdRng;
use rand::SeedableRng;
use snake_evo::snake::{Direction, FitnessError, Snake};

fn zero_net() -> NNet {
    NNet::from_genome(&[8, 8, 8, 4], vec![0; 180]).unwrap()
}

fn right_net() -> NNet {
    let mut g = vec![0; 180];
    // bias of the last output neuron (Right)
    g[144 + 3 * 9 + 8] = 1;
    NNet::from_genome(&[8, 8, 8, 4], g).unwrap()
}

#[test]
fn direction_ordinals() {
    assert_eq!(Direction::Up.ordinal(), 0);
    assert_eq!(Direction::Down.ordinal(), 1);
    assert_eq!(Direction::Left.ordinal(), 2);
    assert_eq!(Direction::Right.ordinal(), 3);
}

#[test]
fn new_agent_starts_at_the_top_left() {
    let s = Snake::new(&mut StdRng::seed_from_u64(9));
    assert_eq!(s.pos, vec![(0, 2), (0, 1), (0, 0)]);
    assert_eq!(s.dir(), Direction::Down);
    assert_eq!(s.n_apples, 0);
    assert_eq!(s.lifetime, 0);
    assert!(s.is_alive);
    assert_eq!(s.score(), 0);
    assert_eq!(s.net().genome_len(), 180);
}

#[test]
fn zero_network_ties_pick_up() {
    for apple in [(0, 0), (9, 9), (4, 7)] {
        let mut s = Snake::from_parts(zero_net(), vec![(0, 2), (0, 1), (0, 0)], Direction::Down);
        s.update(apple);
        assert_eq!(s.pos[0], (0, 1));
        assert_eq!(s.dir(), Direction::Up);
        assert_eq!(s.pos, vec![(0, 1), (0, 2), (0, 1)]);
        assert!(s.is_alive);
        assert_eq!(s.lifetime, 1);
    }
}

#[test]
fn leaving_the_grid_kills() {
    let mut s = Snake::from_parts(right_net(), vec![(9, 4), (8, 4), (7, 4)], Direction::Right);
    s.update((0, 0));
    assert_eq!(s.dir(), Direction::Right);
    assert_eq!(s.pos[0], (10, 4));
    assert!(!s.is_alive);
    assert_eq!(s.lifetime, 1);
}

#[test]
fn open_cell_ahead_keeps_alive() {
    let mut s = Snake::from_parts(right_net(), vec![(5, 5), (4, 5), (3, 5)], Direction::Right);
    s.update((0, 0));
    assert_eq!(s.pos, vec![(6, 5), (5, 5), (4, 5)]);
    assert!(s.is_alive);
}

#[test]
fn moving_up_off_the_top_kills() {
    let mut s = Snake::from_parts(zero_net(), vec![(3, 0), (3, 1), (3, 2)], Direction::Up);
    s.update((5, 5));
    assert_eq!(s.pos[0], (3, -1));
    assert!(!s.is_alive);
}

#[test]
fn eating_grows_by_one() {
    let mut s = Snake::from_parts(right_net(), vec![(5, 5), (4, 5), (3, 5)], Direction::Right);
    s.eat_apple();
    assert_eq!(s.n_apples, 1);
    assert_eq!(s.pos, vec![(5, 5), (4, 5), (3, 5), (3, 5)]);
    s.eat_apple();
    assert_eq!(s.n_apples, 2);
    assert_eq!(s.pos.len(), 5);
    s.update((0, 0));
    assert_eq!(s.pos, vec![(6, 5), (5, 5), (4, 5), (3, 5), (3, 5)]);
    s.update((0, 0));
    assert_eq!(s.pos, vec![(7, 5), (6, 5), (5, 5), (4, 5), (3, 5)]);
}

#[test]
fn fitness_of_two_apples_in_sixty_ticks() {
    let mut s = Snake::from_parts(zero_net(), vec![(0, 0)], Direction::Up);
    s.n_apples = 2;
    s.lifetime = 60;
    s.is_alive = false;
    assert_eq!(s.on_death(), Ok(()));
    assert_eq!(s.score(), 30_000);
}

#[test]
fn fitness_without_apples_is_zero() {
    let mut s = Snake::from_parts(zero_net(), vec![(0, 0)], Direction::Up);
    s.lifetime = 30;
    s.is_alive = false;
    assert_eq!(s.on_death(), Ok(()));
    assert_eq!(s.score(), 0);
}

#[test]
fn fitness_rounds_down() {
    let mut s = Snake::from_parts(zero_net(), vec![(0, 0)], Direction::Up);
    s.n_apples = 1;
    s.lifetime = 7;
    assert_eq!(s.on_death(), Ok(()));
    // 300000 / 7 = 42857, plus 10000
    assert_eq!(s.score(), 52_857);
}

#[test]
fn fitness_before_any_tick_fails() {
    let mut s = Snake::from_parts(zero_net(), vec![(0, 0)], Direction::Up);
    s.n_apples = 1;
    assert_eq!(s.on_death(), Err(FitnessError::DivisionByZeroInFitness));
    assert_eq!(s.score(), 0);
}
