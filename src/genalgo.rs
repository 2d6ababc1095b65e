use vstd::prelude::*;
use rand::rngs::StdRng;
use crate::nnet::{clamp, sat_add};
use crate::random::{draw_range, draw_ratio, draw_weighted, weight_sum};
use crate::snake::{Snake, Direction, lemma_agent_genome_len};

verus! {

/// Weight given in selection to an agent of score 0: a tenth of a point.
pub const SCORE_FLOOR: u64 = 100;
/// Largest change that one mutation makes to a gene, either way.
pub const MUTATION_DELTA: i64 = 5;

/// Failures of building or evolving a population.
#[derive(Debug, Clone, Copy, PartialEq, Eq, Structural)]
pub enum EvoError {
    /// A population of no agents, or a mutation rate that is not a probability.
    Configuration,
    /// Selection over no agents.
    EmptyPopulation,
    /// The selection weights sum past `u64::MAX`.
    WeightOverflow,
}

/// Selection weight of a score: the score itself, or the floor for a score of 0.
pub open spec fn select_weight(score: u64) -> u64 {
    if score == 0 {
        SCORE_FLOOR
    } else {
        score
    }
}

pub open spec fn select_weights(scores: Seq<u64>) -> Seq<u64> {
    Seq::new(scores.len(), |i: int| select_weight(scores[i]))
}

/// Every gene of `child` is the gene of `p1` or of `p2` at that position, up to `spread`.
pub open spec fn descends(child: Seq<i64>, p1: Seq<i64>, p2: Seq<i64>, spread: int) -> bool {
    &&& child.len() == p1.len()
    &&& child.len() == p2.len()
    &&& forall|j: int|
        0 <= j < child.len() ==> {
            ||| p1[j] - spread <= #[trigger] child[j] <= p1[j] + spread
            ||| p2[j] - spread <= child[j] <= p2[j] + spread
        }
}

/// A child of `evolve`: a fresh agent on the start cells.
pub open spec fn fresh(s: Snake) -> bool {
    &&& s.wf()
    &&& s.body() == seq![(0i32, 2i32), (0i32, 1i32), (0i32, 0i32)]
    &&& s.heading() == Direction::Down
    &&& s.apples() == 0
    &&& s.age() == 0
    &&& s.alive()
    &&& s.fitness() == 0
}

proof fn lemma_weight_sum_prefix(w: Seq<u64>, i: int, j: int)
    requires
        0 <= i <= j <= w.len(),
    ensures
        weight_sum(w.take(i)) <= weight_sum(w.take(j)),
    decreases j - i,
{
    if i < j {
        lemma_weight_sum_prefix(w, i, j - 1);
        assert(w.take(j).drop_last() =~= w.take(j - 1));
    }
}

/// The selection weights of `scores`.
pub fn selection_weights(scores: &Vec<u64>) -> (r: Vec<u64>)
    ensures
        r@ == select_weights(scores@),
{
    let mut w: Vec<u64> = Vec::with_capacity(scores.len());
    let mut i: usize = 0;
    while i < scores.len()
        invariant
            i <= scores.len(),
            w@ =~= select_weights(scores@).take(i as int),
        decreases scores.len() - i,
    {
        let s = scores[i];
        w.push(if s == 0 { SCORE_FLOOR } else { s });
        i += 1;
    }
    assert(select_weights(scores@).take(scores.len() as int) =~= select_weights(scores@));
    w
}

/// Sum of `w`, or `None` when it passes `u64::MAX`.
fn checked_total(w: &Vec<u64>) -> (r: Option<u64>)
    ensures
        r is Some <==> weight_sum(w@) <= u64::MAX,
        r matches Some(t) ==> t == weight_sum(w@),
{
    let mut total: u64 = 0;
    let mut i: usize = 0;
    while i < w.len()
        invariant
            i <= w.len(),
            total == weight_sum(w@.take(i as int)),
        decreases w.len() - i,
    {
        proof {
            assert(w@.take(i as int + 1).drop_last() =~= w@.take(i as int));
        }
        match total.checked_add(w[i]) {
            Some(t) => total = t,
            None => {
                proof {
                    lemma_weight_sum_prefix(w@, i as int + 1, w.len() as int);
                    assert(w@.take(w.len() as int) =~= w@);
                }
                return None;
            },
        }
        i += 1;
    }
    assert(w@.take(w.len() as int) =~= w@);
    Some(total)
}

proof fn lemma_floor_positive(scores: Seq<u64>)
    requires
        scores.len() > 0,
    ensures
        weight_sum(select_weights(scores)) > 0,
    decreases scores.len(),
{
    let w = select_weights(scores);
    assert(w.drop_last() =~= select_weights(scores.drop_last()));
    assert(w.last() > 0);
    if scores.len() > 1 {
        lemma_floor_positive(scores.drop_last());
    } else {
        assert(w.drop_last().len() == 0);
        assert(weight_sum(w.drop_last()) == 0);
    }
}

/// Draws two parents, independently and with replacement, each with
/// probability proportional to its selection weight.
pub fn select_from_scores(scores: &Vec<u64>, rng: &mut StdRng) -> (r: Result<(usize, usize), EvoError>)
    ensures
        scores.len() == 0 ==> r == Err::<(usize, usize), EvoError>(EvoError::EmptyPopulation),
        scores.len() > 0 && weight_sum(select_weights(scores@)) > u64::MAX
            ==> r == Err::<(usize, usize), EvoError>(EvoError::WeightOverflow),
        scores.len() > 0 && weight_sum(select_weights(scores@)) <= u64::MAX ==> r is Ok,
        r matches Ok((a, b)) ==> a < scores.len() && b < scores.len(),
{
    if scores.len() == 0 {
        return Err(EvoError::EmptyPopulation);
    }
    let weights = selection_weights(scores);
    match checked_total(&weights) {
        None => Err(EvoError::WeightOverflow),
        Some(_) => {
            proof {
                lemma_floor_positive(scores@);
            }
            let a = draw_weighted(&weights, rng);
            let b = draw_weighted(&weights, rng);
            Ok((a, b))
        },
    }
}

/// Adds `deltas@[j]` (saturating at the range of `i64`) to each gene `j`
/// whose `hits@[j]` is set, and leaves the others.
pub fn apply_mutation(genes: &mut Vec<i64>, hits: &Vec<bool>, deltas: &Vec<i64>)
    requires
        hits@.len() == old(genes)@.len(),
        deltas@.len() == old(genes)@.len(),
    ensures
        final(genes)@.len() == old(genes)@.len(),
        forall|j: int|
            0 <= j < old(genes)@.len() ==> #[trigger] final(genes)@[j] == if hits@[j] {
                clamp(old(genes)@[j] + deltas@[j])
            } else {
                old(genes)@[j]
            },
{
    let mut j: usize = 0;
    while j < genes.len()
        invariant
            genes@.len() == old(genes)@.len(),
            hits@.len() == old(genes)@.len(),
            deltas@.len() == old(genes)@.len(),
            j <= genes.len(),
            forall|t: int|
                0 <= t < j ==> #[trigger] genes@[t] == if hits@[t] {
                    clamp(old(genes)@[t] + deltas@[t])
                } else {
                    old(genes)@[t]
                },
            forall|t: int| j <= t < genes@.len() ==> genes@[t] == old(genes)@[t],
        decreases genes.len() - j,
    {
        if hits[j] {
            let v = sat_add(genes[j], deltas[j]);
            genes.set(j, v);
        }
        j += 1;
    }
}

/// Adds to each gene, with probability `num / den`, a change drawn from
/// `[-MUTATION_DELTA, MUTATION_DELTA]` (saturating at the range of `i64`).
/// Per gene, the coin is drawn first and then, on a hit, the change.
pub fn mutate_genome(genes: &mut Vec<i64>, rng: &mut StdRng, num: u32, den: u32)
    requires
        0 < den,
        num <= den,
    ensures
        final(genes)@.len() == old(genes)@.len(),
        forall|j: int|
            0 <= j < old(genes)@.len() ==> old(genes)@[j] - MUTATION_DELTA <= #[trigger] final(genes)@[j]
                <= old(genes)@[j] + MUTATION_DELTA,
        num == 0 ==> final(genes)@ == old(genes)@,
{
    let n = genes.len();
    let mut hits: Vec<bool> = Vec::with_capacity(n);
    let mut deltas: Vec<i64> = Vec::with_capacity(n);
    let mut j: usize = 0;
    while j < n
        invariant
            0 < den,
            num <= den,
            j <= n,
            hits@.len() == j,
            deltas@.len() == j,
            forall|t: int| 0 <= t < j ==> -MUTATION_DELTA <= #[trigger] deltas@[t] <= MUTATION_DELTA,
            num == 0 ==> forall|t: int| 0 <= t < j ==> !#[trigger] hits@[t],
        decreases n - j,
    {
        let hit = draw_ratio(rng, num, den);
        let delta = if hit {
            draw_range(rng, -MUTATION_DELTA, MUTATION_DELTA + 1)
        } else {
            0
        };
        hits.push(hit);
        deltas.push(delta);
        j += 1;
    }
    apply_mutation(genes, &hits, &deltas);
    proof {
        if num == 0 {
            assert(genes@ =~= old(genes)@);
        }
    }
}

/// A genome that takes gene `j` from `g1` where `coins@[j]` is set, from `g2` otherwise.
pub fn cross_genome(g1: &Vec<i64>, g2: &Vec<i64>, coins: &Vec<bool>) -> (r: Vec<i64>)
    requires
        g1@.len() == coins@.len(),
        g2@.len() == coins@.len(),
    ensures
        r@.len() == coins@.len(),
        forall|j: int|
            0 <= j < coins@.len() ==> #[trigger] r@[j] == if coins@[j] {
                g1@[j]
            } else {
                g2@[j]
            },
{
    let mut out: Vec<i64> = Vec::with_capacity(coins.len());
    let mut j: usize = 0;
    while j < coins.len()
        invariant
            g1@.len() == coins@.len(),
            g2@.len() == coins@.len(),
            j <= coins.len(),
            out@.len() == j,
            forall|t: int| 0 <= t < j ==> #[trigger] out@[t] == if coins@[t] { g1@[t] } else { g2@[t] },
        decreases coins.len() - j,
    {
        if coins[j] {
            out.push(g1[j]);
        } else {
            out.push(g2[j]);
        }
        j += 1;
    }
    out
}

/// `new` is `old` with only its genome changed, each gene by at most `spread`.
pub open spec fn mutated(new: Snake, old: Snake, spread: int) -> bool {
    &&& new.wf()
    &&& new.body() == old.body()
    &&& new.heading() == old.heading()
    &&& new.apples() == old.apples()
    &&& new.age() == old.age()
    &&& new.alive() == old.alive()
    &&& new.fitness() == old.fitness()
    &&& new.brain().blueprint() == old.brain().blueprint()
    &&& descends(new.brain().genome(), old.brain().genome(), old.brain().genome(), spread)
}

/// Every agent of `children` is fresh and descends from `p1` and `p2` up to `spread`.
pub open spec fn children_of(children: Seq<Snake>, p1: Snake, p2: Snake, spread: int) -> bool {
    forall|i: int|
        0 <= i < children.len() ==> {
            &&& fresh(#[trigger] children[i])
            &&& descends(children[i].brain().genome(), p1.brain().genome(), p2.brain().genome(), spread)
        }
}

/// Fitness scores of a population, in order.
pub open spec fn scores_of(pop: Seq<Snake>) -> Seq<u64> {
    Seq::new(pop.len(), |i: int| pop[i].fitness())
}

/// Spread of one generation's mutation at rate `num / den`.
pub open spec fn mutation_spread(num: u32) -> int {
    if num == 0 {
        0
    } else {
        MUTATION_DELTA as int
    }
}

/// The engine: a population of agents and the one random stream that every
/// stochastic step draws from.
pub struct GenAlgo {
    pub pops: Vec<Snake>,
    rng: StdRng,
    mut_num: u32,
    mut_den: u32,
}

impl GenAlgo {
    pub closed spec fn population(&self) -> Seq<Snake> {
        self.pops@
    }

    /// Numerator of the mutation rate.
    pub closed spec fn rate_num(&self) -> u32 {
        self.mut_num
    }

    /// Denominator of the mutation rate.
    pub closed spec fn rate_den(&self) -> u32 {
        self.mut_den
    }

    pub open spec fn wf(&self) -> bool {
        &&& 0 < self.rate_den()
        &&& self.rate_num() <= self.rate_den()
        &&& forall|i: int| 0 <= i < self.population().len() ==> #[trigger] self.population()[i].wf()
    }

    /// A population of `n_snakes` fresh agents drawn from `rng`, with a
    /// mutation rate of one half.
    pub fn new(mut rng: StdRng, n_snakes: usize) -> (r: Result<GenAlgo, EvoError>)
        ensures
            n_snakes == 0 <==> r == Err::<GenAlgo, EvoError>(EvoError::Configuration),
            n_snakes > 0 ==> r is Ok,
            r matches Ok(g) ==> {
                &&& g.wf()
                &&& g.population().len() == n_snakes
                &&& g.rate_num() == 1
                &&& g.rate_den() == 2
                &&& forall|i: int| 0 <= i < n_snakes ==> fresh(#[trigger] g.population()[i])
            },
    {
        if n_snakes == 0 {
            return Err(EvoError::Configuration);
        }
        let mut pops: Vec<Snake> = Vec::with_capacity(n_snakes);
        let mut i: usize = 0;
        while i < n_snakes
            invariant
                i <= n_snakes,
                pops@.len() == i,
                forall|t: int| 0 <= t < i ==> fresh(#[trigger] pops@[t]),
            decreases n_snakes - i,
        {
            let s = Snake::new(&mut rng);
            pops.push(s);
            i += 1;
        }
        Ok(GenAlgo { pops, rng, mut_num: 1, mut_den: 2 })
    }

    /// Sets the mutation rate to `num / den`; a rate that is no probability is refused.
    pub fn set_mutation_rate(&mut self, num: u32, den: u32) -> (r: Result<(), EvoError>)
        ensures
            den == 0 || num > den <==> r == Err::<(), EvoError>(EvoError::Configuration),
            !(den == 0 || num > den) ==> r is Ok,
            r is Ok ==> final(self).rate_num() == num && final(self).rate_den() == den,
            r is Err ==> final(self).rate_num() == old(self).rate_num()
                && final(self).rate_den() == old(self).rate_den(),
            final(self).population() == old(self).population(),
    {
        if den == 0 || num > den {
            return Err(EvoError::Configuration);
        }
        self.mut_num = num;
        self.mut_den = den;
        Ok(())
    }

    /// Draws two parents from `snakes` by fitness-proportionate selection and
    /// gives their indices.
    pub fn select(snakes: &Vec<Snake>, rng: &mut StdRng) -> (r: Result<(usize, usize), EvoError>)
        ensures
            snakes.len() == 0 ==> r == Err::<(usize, usize), EvoError>(EvoError::EmptyPopulation),
            snakes.len() > 0 && weight_sum(select_weights(scores_of(snakes@))) > u64::MAX
                ==> r == Err::<(usize, usize), EvoError>(EvoError::WeightOverflow),
            snakes.len() > 0 && weight_sum(select_weights(scores_of(snakes@))) <= u64::MAX ==> r is Ok,
            r matches Ok((a, b)) ==> a < snakes.len() && b < snakes.len(),
    {
        let mut scores: Vec<u64> = Vec::with_capacity(snakes.len());
        let mut i: usize = 0;
        while i < snakes.len()
            invariant
                i <= snakes.len(),
                scores@ =~= scores_of(snakes@).take(i as int),
            decreases snakes.len() - i,
        {
            scores.push(snakes[i].score());
            i += 1;
        }
        assert(scores@ =~= scores_of(snakes@));
        select_from_scores(&scores, rng)
    }

    /// `n_snakes` fresh agents whose genomes take each gene, by a fair coin,
    /// from `p1` or from `p2`.
    pub fn cross(p1: &Snake, p2: &Snake, rng: &mut StdRng, n_snakes: usize) -> (r: Vec<Snake>)
        requires
            p1.wf(),
            p2.wf(),
        ensures
            r@.len() == n_snakes,
            forall|i: int|
                0 <= i < n_snakes ==> fresh(#[trigger] r@[i])
                    && descends(r@[i].brain().genome(), p1.brain().genome(), p2.brain().genome(), 0),
    {
        let ps1 = p1.net().serialize();
        let ps2 = p2.net().serialize();
        let mut new_gen: Vec<Snake> = Vec::with_capacity(n_snakes);
        let mut i: usize = 0;
        while i < n_snakes
            invariant
                i <= n_snakes,
                new_gen@.len() == i,
                ps1@ == p1.brain().genome(),
                ps2@ == p2.brain().genome(),
                p1.wf(),
                p2.wf(),
                forall|t: int|
                    0 <= t < i ==> fresh(#[trigger] new_gen@[t])
                        && descends(new_gen@[t].brain().genome(), ps1@, ps2@, 0),
            decreases n_snakes - i,
        {
            let mut child = Snake::new(rng);
            let n = child.net().genome_len();
            let mut coins: Vec<bool> = Vec::with_capacity(n);
            let mut j: usize = 0;
            while j < n
                invariant
                    j <= n,
                    coins@.len() == j,
                decreases n - j,
            {
                coins.push(draw_ratio(rng, 1, 2));
                j += 1;
            }
            let strand = cross_genome(&ps1, &ps2, &coins);
            let _ = child.set_genome(strand);
            assert(descends(child.brain().genome(), ps1@, ps2@, 0));
            new_gen.push(child);
            i += 1;
        }
        new_gen
    }

    /// Mutates the genome of every agent of `snakes` at rate `num / den`.
    pub fn mutate(snakes: &mut Vec<Snake>, rng: &mut StdRng, num: u32, den: u32)
        requires
            0 < den,
            num <= den,
            forall|i: int| 0 <= i < old(snakes)@.len() ==> #[trigger] old(snakes)@[i].wf(),
        ensures
            final(snakes)@.len() == old(snakes)@.len(),
            forall|i: int|
                0 <= i < old(snakes)@.len() ==> mutated(#[trigger] final(snakes)@[i], old(snakes)@[i], mutation_spread(num)),
    {
        let ghost before = snakes@;
        let mut i: usize = 0;
        while i < snakes.len()
            invariant
                snakes@.len() == before.len(),
                i <= snakes@.len(),
                0 < den,
                num <= den,
                forall|t: int| 0 <= t < i ==> mutated(#[trigger] snakes@[t], before[t], mutation_spread(num)),
                forall|t: int| i <= t < snakes@.len() ==> #[trigger] snakes@[t] == before[t],
                forall|t: int| 0 <= t < before.len() ==> #[trigger] before[t].wf(),
            decreases before.len() - i,
        {
            let mut s = snakes.remove(i);
            let mut g = s.net().serialize();
            mutate_genome(&mut g, rng, num, den);
            let _ = s.set_genome(g);
            snakes.insert(i, s);
            i += 1;
        }
    }

    /// One generation: two parents drawn by fitness, a full population of
    /// children crossed from them, each child mutated, and the population
    /// replaced by the children. On an error nothing changes.
    pub fn evolve(&mut self) -> (r: Result<(), EvoError>)
        requires
            old(self).wf(),
        ensures
            final(self).wf(),
            final(self).rate_num() == old(self).rate_num(),
            final(self).rate_den() == old(self).rate_den(),
            old(self).population().len() == 0 ==> r == Err::<(), EvoError>(EvoError::EmptyPopulation),
            old(self).population().len() > 0 && weight_sum(select_weights(scores_of(old(self).population()))) > u64::MAX
                ==> r == Err::<(), EvoError>(EvoError::WeightOverflow),
            old(self).population().len() > 0 && weight_sum(select_weights(scores_of(old(self).population()))) <= u64::MAX
                ==> r is Ok,
            r is Err ==> final(self).population() == old(self).population(),
            r is Ok ==> final(self).population().len() == old(self).population().len() && exists|a: int, b: int|
                0 <= a < old(self).population().len() && 0 <= b < old(self).population().len()
                    && #[trigger] children_of(
                        final(self).population(),
                        old(self).population()[a],
                        old(self).population()[b],
                        mutation_spread(old(self).rate_num()),
                    ),
    {
        let (a, b) = match GenAlgo::select(&self.pops, &mut self.rng) {
            Ok(p) => p,
            Err(e) => return Err(e),
        };
        let n = self.pops.len();
        let mut new_gen = GenAlgo::cross(&self.pops[a], &self.pops[b], &mut self.rng, n);
        let ghost crossed = new_gen@;
        GenAlgo::mutate(&mut new_gen, &mut self.rng, self.mut_num, self.mut_den);
        proof {
            assert forall|i: int| 0 <= i < new_gen@.len() implies {
                &&& fresh(#[trigger] new_gen@[i])
                &&& descends(
                    new_gen@[i].brain().genome(),
                    self.pops@[a as int].brain().genome(),
                    self.pops@[b as int].brain().genome(),
                    mutation_spread(self.mut_num),
                )
            } by {
                assert(mutated(new_gen@[i], crossed[i], mutation_spread(self.mut_num)));
                assert(fresh(crossed[i]));
            }
        }
        self.pops = new_gen;
        proof {
            assert(children_of(
                self.population(),
                old(self).population()[a as int],
                old(self).population()[b as int],
                mutation_spread(old(self).rate_num()),
            ));
        }
        Ok(())
    }
}

} // verus!
