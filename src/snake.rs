use vstd::prelude::*;
use rand::rngs::StdRng;
use crate::nnet::{NNet, NetError, decode, eval_net, genome_len, valid_blueprint, WEIGHT_MAX, WEIGHT_MIN};

verus! {

/// Largest coordinate of the square grid; cells run from 0 to this on both axes.
pub const GRID_MAX: i32 = 9;
/// Points of fitness are counted in thousandths.
pub const SCORE_SCALE: u64 = 1000;
/// Length of the body when an agent is created.
pub const START_LEN: usize = 3;

/// A heading on the grid; its ordinal is both a network output index and a network input.
#[derive(Debug, Clone, Copy, PartialEq, Eq, Structural)]
pub enum Direction {
    Up,
    Down,
    Left,
    Right,
}

pub open spec fn ordinal(d: Direction) -> int {
    match d {
        Direction::Up => 0,
        Direction::Down => 1,
        Direction::Left => 2,
        Direction::Right => 3,
    }
}

/// The heading that a network output index selects.
pub open spec fn dir_of_index(i: int) -> Direction {
    if i == 0 {
        Direction::Up
    } else if i == 1 {
        Direction::Down
    } else if i == 2 {
        Direction::Left
    } else {
        Direction::Right
    }
}

impl Direction {
    /// The fixed ordinal: Up 0, Down 1, Left 2, Right 3.
    pub fn ordinal(&self) -> (r: i64)
        ensures
            r == ordinal(*self),
    {
        match self {
            Direction::Up => 0,
            Direction::Down => 1,
            Direction::Left => 2,
            Direction::Right => 3,
        }
    }
}

/// Widths of every agent's network: eight senses, two hidden layers, four headings.
pub open spec fn agent_blueprint() -> Seq<usize> {
    seq![8usize, 8usize, 8usize, 4usize]
}

pub open spec fn in_grid(p: (i32, i32)) -> bool {
    0 <= p.0 <= GRID_MAX && 0 <= p.1 <= GRID_MAX
}

/// The cell one step from `p` towards `d` (up lowers `y`).
pub open spec fn step(p: (i32, i32), d: Direction) -> (i32, i32) {
    match d {
        Direction::Up => (p.0, (p.1 - 1) as i32),
        Direction::Down => (p.0, (p.1 + 1) as i32),
        Direction::Left => ((p.0 - 1) as i32, p.1),
        Direction::Right => ((p.0 + 1) as i32, p.1),
    }
}

/// The body after a tick heading `d`: each segment takes the cell of the one
/// ahead of it and the head steps once.
pub open spec fn moved(body: Seq<(i32, i32)>, d: Direction) -> Seq<(i32, i32)> {
    seq![step(body[0], d)] + body.drop_last()
}

/// The body after eating: a new segment on the tail's cell.
pub open spec fn grown(body: Seq<(i32, i32)>) -> Seq<(i32, i32)> {
    body.push(body.last())
}

/// Eating lengthens the body by one, and the tick after it keeps that length:
/// the whole body from before the meal trails the new head.
pub proof fn lemma_growth_kept(body: Seq<(i32, i32)>, d: Direction)
    requires
        body.len() >= 1,
    ensures
        grown(body).len() == body.len() + 1,
        moved(grown(body), d).len() == body.len() + 1,
        moved(grown(body), d).subrange(1, body.len() as int + 1) == body,
{
    assert(moved(grown(body), d).subrange(1, body.len() as int + 1) =~= body);
}

/// A head on the right edge that turns right leaves the grid; a head at
/// (5, 5) that turns right stays on it, one cell to the right.
pub proof fn lemma_right_edge(body: Seq<(i32, i32)>, y: i32)
    requires
        body.len() >= 1,
        0 <= y <= GRID_MAX,
    ensures
        body[0] == (GRID_MAX, y) ==> moved(body, Direction::Right)[0] == (10i32, y)
            && !in_grid(moved(body, Direction::Right)[0]),
        body[0] == (5i32, 5i32) ==> moved(body, Direction::Right)[0] == (6i32, 5i32)
            && in_grid(moved(body, Direction::Right)[0]),
{
}

/// What the agent senses: offsets to the upper, lower, left and right walls,
/// the apple's offset from the head, its heading, and its length.
pub open spec fn senses(head: (i32, i32), apple: (i32, i32), d: Direction, n_apples: nat) -> Seq<i64> {
    seq![
        (0 - head.1) as i64,
        (head.1 - GRID_MAX) as i64,
        (0 - head.0) as i64,
        (head.0 - GRID_MAX) as i64,
        (apple.0 - head.0) as i64,
        (apple.1 - head.1) as i64,
        ordinal(d) as i64,
        (n_apples + START_LEN) as i64
    ]
}

/// Index of the greatest of the first `n` values; the first such index on a tie.
pub open spec fn argmax(s: Seq<i64>, n: nat) -> nat
    decreases n,
{
    if n <= 1 {
        0
    } else {
        let m = argmax(s, (n - 1) as nat);
        if s[n - 1] > s[m as int] {
            (n - 1) as nat
        } else {
            m
        }
    }
}

/// Fitness in thousandths of a point: ten points per apple for each thirty
/// ticks of life it took, plus ten points per apple.
pub open spec fn fitness_of(n_apples: nat, lifetime: nat) -> nat
    recommends
        lifetime > 0,
{
    ((30 * 10 * SCORE_SCALE * n_apples) as int / lifetime as int + (10 * SCORE_SCALE * n_apples) as int) as nat
}

/// The network's choice of heading for `s` when the apple lies at `apple`.
pub open spec fn choice(s: Snake, apple: (i32, i32)) -> Direction {
    let out = eval_net(
        s.brain().blueprint(),
        s.brain().genome(),
        senses(s.body()[0], apple, s.heading(), s.apples()),
    );
    dir_of_index(argmax(out, out.len()) as int)
}

/// An agent's network has 180 genes: three layers of 8, 8 and 4 neurons over 8, 8 and 8 inputs.
pub proof fn lemma_agent_genome_len()
    ensures
        valid_blueprint(agent_blueprint()),
        genome_len(agent_blueprint()) == 180,
{
    let b1 = seq![8usize];
    let b2 = seq![8usize, 8usize];
    let b3 = seq![8usize, 8usize, 8usize];
    let bp = agent_blueprint();
    assert(genome_len(b1) == 0);
    assert(b2.drop_last() =~= b1);
    assert(genome_len(b2) == 72);
    assert(b3.drop_last() =~= b2);
    assert(genome_len(b3) == 144);
    assert(bp.drop_last() =~= b3);
    assert(bp.len() == 4 && bp.last() == 4 && bp[2] == 8);
    assert(genome_len(bp) == 180);
}

/// Failure of computing the fitness.
#[derive(Debug, Clone, Copy, PartialEq, Eq, Structural)]
pub enum FitnessError {
    /// The agent has not lived a single tick.
    DivisionByZeroInFitness,
}

/// An agent on the grid, steered by its network.
#[derive(Debug, Clone)]
pub struct Snake {
    net: NNet,
    /// Occupied cells, head first.
    pub pos: Vec<(i32, i32)>,
    pub n_apples: usize,
    pub lifetime: usize,
    pub is_alive: bool,
    score: u64,
    dir: Direction,
}

impl Snake {
    /// Occupied cells, head first.
    pub closed spec fn body(&self) -> Seq<(i32, i32)> {
        self.pos@
    }

    pub closed spec fn apples(&self) -> nat {
        self.n_apples as nat
    }

    /// Ticks lived.
    pub closed spec fn age(&self) -> nat {
        self.lifetime as nat
    }

    pub closed spec fn alive(&self) -> bool {
        self.is_alive
    }

    pub closed spec fn brain(&self) -> NNet {
        self.net
    }

    pub closed spec fn fitness(&self) -> u64 {
        self.score
    }

    pub closed spec fn heading(&self) -> Direction {
        self.dir
    }

    pub open spec fn wf(&self) -> bool {
        &&& self.brain().wf()
        &&& self.brain().blueprint() == agent_blueprint()
        &&& self.body().len() >= 1
        &&& self.alive() ==> in_grid(self.body()[0])
    }

    /// A fresh agent: head at (0, 2) with its body above it, heading down,
    /// counters at zero, alive, and a network of random weights.
    pub fn new(rng: &mut StdRng) -> (r: Snake)
        ensures
            r.wf(),
            r.body() == seq![(0i32, 2i32), (0i32, 1i32), (0i32, 0i32)],
            r.heading() == Direction::Down,
            r.apples() == 0,
            r.age() == 0,
            r.alive(),
            r.fitness() == 0,
            forall|j: int|
                0 <= j < r.brain().genome().len() ==> WEIGHT_MIN <= #[trigger] r.brain().genome()[j] < WEIGHT_MAX,
    {
        let widths: [usize; 4] = [8, 8, 8, 4];
        let net = match NNet::new(&widths, rng) {
            Ok(n) => n,
            Err(_) => {
                proof {
                    assert(widths@ =~= agent_blueprint());
                    lemma_agent_genome_len();
                }
                return unreached();
            },
        };
        proof {
            assert(widths@ =~= agent_blueprint());
        }
        let mut pos: Vec<(i32, i32)> = Vec::with_capacity(START_LEN);
        pos.push((0, 2));
        pos.push((0, 1));
        pos.push((0, 0));
        Snake { net, pos, n_apples: 0, lifetime: 0, is_alive: true, score: 0, dir: Direction::Down }
    }

    /// An agent with the given network, body (head first) and heading,
    /// counters at zero and fitness zero; it is alive while its head is on the grid.
    pub fn from_parts(net: NNet, pos: Vec<(i32, i32)>, dir: Direction) -> (r: Snake)
        requires
            pos@.len() >= 1,
        ensures
            r.brain() == net,
            r.body() == pos@,
            r.heading() == dir,
            r.apples() == 0,
            r.age() == 0,
            r.fitness() == 0,
            r.alive() == in_grid(pos@[0]),
            net.wf() && net.blueprint() == agent_blueprint() ==> r.wf(),
    {
        let head = pos[0];
        let alive = 0 <= head.0 && head.0 <= GRID_MAX && 0 <= head.1 && head.1 <= GRID_MAX;
        Snake { net, pos, n_apples: 0, lifetime: 0, is_alive: alive, score: 0, dir }
    }

    /// One tick: the network picks a heading from what the agent senses, the
    /// body follows the head, the head moves one cell, and the agent dies when
    /// the head leaves the grid. The tick is counted in every case.
    pub fn update(&mut self, apple_pos: (i32, i32))
        requires
            old(self).wf(),
            old(self).alive(),
            old(self).age() < usize::MAX,
            old(self).apples() + START_LEN <= i64::MAX,
        ensures
            final(self).heading() == choice(*old(self), apple_pos),
            final(self).body() == moved(old(self).body(), final(self).heading()),
            final(self).body().len() == old(self).body().len(),
            final(self).alive() == in_grid(final(self).body()[0]),
            final(self).age() == old(self).age() + 1,
            final(self).apples() == old(self).apples(),
            final(self).brain() == old(self).brain(),
            final(self).fitness() == old(self).fitness(),
            final(self).wf(),
    {
        let head = self.pos[0];
        let mut inputs: Vec<i64> = Vec::with_capacity(8);
        inputs.push(0 - head.1 as i64);
        inputs.push(head.1 as i64 - GRID_MAX as i64);
        inputs.push(0 - head.0 as i64);
        inputs.push(head.0 as i64 - GRID_MAX as i64);
        inputs.push(apple_pos.0 as i64 - head.0 as i64);
        inputs.push(apple_pos.1 as i64 - head.1 as i64);
        inputs.push(self.dir.ordinal());
        inputs.push(self.n_apples as i64 + START_LEN as i64);
        proof {
            assert(inputs@ =~= senses(head, apple_pos, self.dir, self.n_apples as nat));
        }
        let response = self.net.feed_forward(inputs);
        let mut max_ind: usize = 0;
        let mut i: usize = 1;
        while i < response.len()
            invariant
                response@.len() == 4,
                1 <= i <= response@.len(),
                max_ind < i,
                max_ind == argmax(response@, i as nat),
            decreases response.len() - i,
        {
            if response[i] > response[max_ind] {
                max_ind = i;
            }
            i += 1;
        }
        self.dir = match max_ind {
            0 => Direction::Up,
            1 => Direction::Down,
            2 => Direction::Left,
            _ => Direction::Right,
        };

        let ghost old_pos = self.pos@;
        let n = self.pos.len();
        let mut j: usize = n - 1;
        while j > 0
            invariant
                n == old_pos.len(),
                self.pos@.len() == n,
                self.lifetime == old(self).lifetime,
                self.n_apples == old(self).n_apples,
                self.is_alive == old(self).is_alive,
                self.score == old(self).score,
                self.net == old(self).net,
                self.dir == choice(*old(self), apple_pos),
                j < n,
                forall|k: int| 0 <= k <= j ==> self.pos@[k] == old_pos[k],
                forall|k: int| j < k < n ==> self.pos@[k] == old_pos[k - 1],
            decreases j,
        {
            let prev = self.pos[j - 1];
            self.pos.set(j, prev);
            j -= 1;
        }
        let new_head = match self.dir {
            Direction::Up => (head.0, head.1 - 1),
            Direction::Down => (head.0, head.1 + 1),
            Direction::Left => (head.0 - 1, head.1),
            Direction::Right => (head.0 + 1, head.1),
        };
        self.pos.set(0, new_head);
        proof {
            assert(self.pos@ =~= seq![step(old_pos[0], self.dir)] + old_pos.drop_last());
        }
        if !(0 <= new_head.0 && new_head.0 <= GRID_MAX && 0 <= new_head.1 && new_head.1 <= GRID_MAX) {
            self.is_alive = false;
        }
        self.lifetime += 1;
    }

    /// Counts an apple and adds a segment at the tail's cell, which the next
    /// tick turns into a distinct trailing cell.
    pub fn eat_apple(&mut self)
        requires
            old(self).body().len() >= 1,
            old(self).apples() < usize::MAX,
        ensures
            final(self).apples() == old(self).apples() + 1,
            final(self).body() == grown(old(self).body()),
            final(self).heading() == old(self).heading(),
            final(self).age() == old(self).age(),
            final(self).alive() == old(self).alive(),
            final(self).brain() == old(self).brain(),
            final(self).fitness() == old(self).fitness(),
            old(self).wf() ==> final(self).wf(),
    {
        self.n_apples += 1;
        let tail = self.pos[self.pos.len() - 1];
        self.pos.push(tail);
    }

    /// Sets the fitness from the apples eaten and the ticks lived; an agent
    /// that has not lived a tick has none and is left as it was.
    pub fn on_death(&mut self) -> (r: Result<(), FitnessError>)
        requires
            (30 * 10 + 10) * SCORE_SCALE * old(self).apples() <= u64::MAX,
        ensures
            old(self).age() == 0 ==> r == Err::<(), FitnessError>(FitnessError::DivisionByZeroInFitness)
                && *final(self) == *old(self),
            old(self).age() > 0 ==> r is Ok && final(self).fitness() == fitness_of(old(self).apples(), old(self).age()),
            final(self).body() == old(self).body(),
            final(self).heading() == old(self).heading(),
            final(self).apples() == old(self).apples(),
            final(self).age() == old(self).age(),
            final(self).alive() == old(self).alive(),
            final(self).brain() == old(self).brain(),
    {
        if self.lifetime == 0 {
            return Err(FitnessError::DivisionByZeroInFitness);
        }
        let a = self.n_apples as u64;
        let l = self.lifetime as u64;
        proof {
            assert(300000 * a + 10000 * a <= u64::MAX) by (nonlinear_arith)
                requires
                    (30 * 10 + 10) * 1000 * a <= u64::MAX,
            ;
        }
        let num = 30 * 10 * SCORE_SCALE * a;
        let per_tick = num / l;
        proof {
            assert(per_tick <= num) by (nonlinear_arith)
                requires
                    per_tick as int == num as int / l as int,
                    l >= 1,
                    num >= 0,
            ;
        }
        self.score = per_tick + 10 * SCORE_SCALE * a;
        Ok(())
    }

    /// Rewrites the network's weights and biases from `strand`, as
    /// `NNet::deserialize` does; nothing else of the agent changes.
    pub fn set_genome(&mut self, strand: Vec<i64>) -> (r: Result<(), NetError>)
        ensures
            final(self).brain().blueprint() == old(self).brain().blueprint(),
            match decode(old(self).brain().genome(), strand@) {
                Some(g) => r is Ok && final(self).brain().genome() == g,
                None => r == Err::<(), NetError>(NetError::GenomeLengthMismatch)
                    && final(self).brain().genome() == old(self).brain().genome(),
            },
            final(self).body() == old(self).body(),
            final(self).heading() == old(self).heading(),
            final(self).apples() == old(self).apples(),
            final(self).age() == old(self).age(),
            final(self).alive() == old(self).alive(),
            final(self).fitness() == old(self).fitness(),
            old(self).wf() ==> final(self).wf(),
    {
        self.net.deserialize(strand)
    }

    /// Fitness in thousandths of a point, as set by `on_death`.
    pub fn score(&self) -> (r: u64)
        ensures
            r == self.fitness(),
    {
        self.score
    }

    /// Current heading.
    pub fn dir(&self) -> (r: Direction)
        ensures
            r == self.heading(),
    {
        self.dir
    }

    /// The agent's network.
    pub fn net(&self) -> (r: &NNet)
        ensures
            *r == self.brain(),
    {
        &self.net
    }
}

} // verus!
