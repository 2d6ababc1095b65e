use vstd::prelude::*;
use rand::rngs::StdRng;
use crate::random::draw_range;

verus! {

/// Lowest value (inclusive) of a freshly drawn weight or bias.
pub const WEIGHT_MIN: i64 = -5;
/// Highest value (exclusive) of a freshly drawn weight or bias.
pub const WEIGHT_MAX: i64 = 5;

/// Failures of building or rewriting a network.
#[derive(Debug, Clone, Copy, PartialEq, Eq, Structural)]
pub enum NetError {
    /// The blueprint has fewer than two widths, or a width of zero, or its
    /// genome would be too long to address.
    Configuration,
    /// A genome whose length differs from the network's.
    GenomeLengthMismatch,
}

/// A blueprint names the input width and then the width of each layer.
pub open spec fn valid_blueprint(bp: Seq<usize>) -> bool {
    bp.len() >= 2 && forall|i: int| 0 <= i < bp.len() ==> bp[i] > 0
}

/// Number of genes of the layers that `bp` describes: a layer of width `w`
/// after one of width `p` holds `w` neurons of `p` weights and a bias each.
pub open spec fn genome_len(bp: Seq<usize>) -> nat
    decreases bp.len(),
{
    if bp.len() < 2 {
        0
    } else {
        genome_len(bp.drop_last()) + (bp.last() as int * (bp[bp.len() - 2] as int + 1)) as nat
    }
}

/// `v` clamped to the range of `i64`.
pub open spec fn clamp(v: int) -> i64 {
    if v > i64::MAX {
        i64::MAX
    } else if v < i64::MIN {
        i64::MIN
    } else {
        v as i64
    }
}

/// Saturating dot product of the first `k` inputs with the weights stored from `off`.
pub open spec fn dot(g: Seq<i64>, off: int, x: Seq<i64>, k: nat) -> i64
    decreases k,
{
    if k == 0 {
        0
    } else {
        clamp(dot(g, off, x, (k - 1) as nat) + clamp(g[off + k - 1] * x[k - 1]))
    }
}

/// A neuron stored from `off`: `n_in` weights then its bias.
pub open spec fn neuron_out(g: Seq<i64>, off: int, n_in: nat, x: Seq<i64>) -> i64 {
    clamp(dot(g, off, x, n_in) + g[off + n_in])
}

/// A layer of `n_out` neurons stored one after another from `off`.
pub open spec fn layer_out(g: Seq<i64>, off: int, n_in: nat, n_out: nat, x: Seq<i64>) -> Seq<i64> {
    Seq::new(n_out, |j: int| neuron_out(g, off + j * (n_in + 1), n_in, x))
}

/// The values after the first `k` layers.
pub open spec fn eval_layers(bp: Seq<usize>, g: Seq<i64>, x: Seq<i64>, k: nat) -> Seq<i64>
    decreases k,
{
    if k == 0 {
        x
    } else {
        layer_out(
            g,
            genome_len(bp.take(k as int)) as int,
            bp[k - 1] as nat,
            bp[k as int] as nat,
            eval_layers(bp, g, x, (k - 1) as nat),
        )
    }
}

/// The network's output: every layer applied in order.
pub open spec fn eval_net(bp: Seq<usize>, g: Seq<i64>, x: Seq<i64>) -> Seq<i64> {
    eval_layers(bp, g, x, (bp.len() - 1) as nat)
}

/// Decoding `strand` into a network whose genome is `current`: the strand
/// itself when the lengths agree, nothing otherwise.
pub open spec fn decode(current: Seq<i64>, strand: Seq<i64>) -> Option<Seq<i64>> {
    if strand.len() == current.len() {
        Some(strand)
    } else {
        None
    }
}

proof fn lemma_prefix_step(bp: Seq<usize>, i: int)
    requires
        1 <= i < bp.len(),
    ensures
        genome_len(bp.take(i + 1)) == genome_len(bp.take(i)) + bp[i] as int * (bp[i - 1] as int + 1),
{
    assert(bp.take(i + 1).drop_last() =~= bp.take(i));
}

proof fn lemma_prefix_mono(bp: Seq<usize>, i: int, j: int)
    requires
        1 <= i <= j <= bp.len(),
    ensures
        genome_len(bp.take(i)) <= genome_len(bp.take(j)),
    decreases j - i,
{
    if i < j {
        lemma_prefix_mono(bp, i, j - 1);
        lemma_prefix_step(bp, j - 1);
    }
}

proof fn lemma_slot(j: int, n_in: int, n_out: int)
    requires
        0 <= j < n_out,
        0 <= n_in,
    ensures
        j * (n_in + 1) + n_in + 1 <= n_out * (n_in + 1),
{
    assert((j + 1) * (n_in + 1) <= n_out * (n_in + 1)) by (nonlinear_arith)
        requires
            0 <= j < n_out,
            0 <= n_in,
    ;
    assert((j + 1) * (n_in + 1) == j * (n_in + 1) + n_in + 1) by (nonlinear_arith);
}

/// Decoding a network's own genome leaves that genome as it was.
pub proof fn lemma_round_trip(net: NNet)
    requires
        net.wf(),
    ensures
        decode(net.genome(), net.genome()) == Some(net.genome()),
{
}

pub(crate) fn sat_add(a: i64, b: i64) -> (r: i64)
    ensures
        r == clamp(a + b),
{
    match a.checked_add(b) {
        Some(v) => v,
        None => if b > 0 {
            i64::MAX
        } else {
            i64::MIN
        },
    }
}

fn sat_mul(a: i64, b: i64) -> (r: i64)
    ensures
        r == clamp(a * b),
{
    match a.checked_mul(b) {
        Some(v) => v,
        None => {
            if (a > 0 && b > 0) || (a < 0 && b < 0) {
                assert(a * b > 0) by (nonlinear_arith)
                    requires
                        (a > 0 && b > 0) || (a < 0 && b < 0),
                ;
                i64::MAX
            } else {
                assert(a * b <= 0) by (nonlinear_arith)
                    requires
                        !((a > 0 && b > 0) || (a < 0 && b < 0)),
                ;
                i64::MIN
            }
        },
    }
}

fn neuron_forward(g: &Vec<i64>, off: usize, n_in: usize, x: &Vec<i64>) -> (r: i64)
    requires
        x.len() == n_in,
        off + n_in < g.len(),
    ensures
        r == neuron_out(g@, off as int, n_in as nat, x@),
{
    let mut acc: i64 = 0;
    let mut i: usize = 0;
    while i < n_in
        invariant
            x.len() == n_in,
            off + n_in < g.len(),
            i <= n_in,
            acc == dot(g@, off as int, x@, i as nat),
        decreases n_in - i,
    {
        let p = sat_mul(g[off + i], x[i]);
        acc = sat_add(acc, p);
        i += 1;
    }
    sat_add(acc, g[off + n_in])
}

fn layer_forward(g: &Vec<i64>, off: usize, n_in: usize, n_out: usize, x: &Vec<i64>) -> (r: Vec<i64>)
    requires
        x.len() == n_in,
        off + n_out * (n_in + 1) <= g.len(),
    ensures
        r@ == layer_out(g@, off as int, n_in as nat, n_out as nat, x@),
{
    let mut out: Vec<i64> = Vec::with_capacity(n_out);
    let mut j: usize = 0;
    while j < n_out
        invariant
            x.len() == n_in,
            off + n_out * (n_in + 1) <= g.len(),
            j <= n_out,
            out@.len() == j,
            forall|t: int|
                0 <= t < j ==> out@[t] == neuron_out(g@, off + t * (n_in + 1), n_in as nat, x@),
        decreases n_out - j,
    {
        proof {
            lemma_slot(j as int, n_in as int, n_out as int);
        }
        let base = off + j * (n_in + 1);
        let v = neuron_forward(g, base, n_in, x);
        out.push(v);
        j += 1;
    }
    assert(out@ =~= layer_out(g@, off as int, n_in as nat, n_out as nat, x@));
    out
}

/// A feed-forward network of fixed topology, stored as its flat genome:
/// per layer, per neuron, its weights followed by its bias.
#[derive(Debug, Clone)]
pub struct NNet {
    bprint: Vec<usize>,
    genes: Vec<i64>,
}

impl NNet {
    /// Widths of the network, input width first.
    pub closed spec fn blueprint(&self) -> Seq<usize> {
        self.bprint@
    }

    /// The weights and biases, in genome order.
    pub closed spec fn genome(&self) -> Seq<i64> {
        self.genes@
    }

    pub open spec fn wf(&self) -> bool {
        valid_blueprint(self.blueprint()) && self.genome().len() == genome_len(self.blueprint())
    }

    /// Builds a network after `bprint` (input width first) with every weight
    /// and bias drawn from `[WEIGHT_MIN, WEIGHT_MAX)`.
    pub fn new(bprint: &[usize], rng: &mut StdRng) -> (r: Result<NNet, NetError>)
        ensures
            r is Ok <==> valid_blueprint(bprint@) && genome_len(bprint@) <= usize::MAX,
            r is Err ==> r == Err::<NNet, NetError>(NetError::Configuration),
            r matches Ok(n) ==> {
                &&& n.wf()
                &&& n.blueprint() == bprint@
                &&& forall|j: int| 0 <= j < n.genome().len() ==> WEIGHT_MIN <= #[trigger] n.genome()[j] < WEIGHT_MAX
            },
    {
        let total = match genome_size(bprint) {
            Some(t) => t,
            None => return Err(NetError::Configuration),
        };
        let mut genes: Vec<i64> = Vec::with_capacity(total);
        let mut j: usize = 0;
        while j < total
            invariant
                j <= total,
                genes@.len() == j,
                forall|t: int| 0 <= t < j ==> WEIGHT_MIN <= #[trigger] genes@[t] < WEIGHT_MAX,
            decreases total - j,
        {
            let w = draw_range(rng, WEIGHT_MIN, WEIGHT_MAX);
            genes.push(w);
            j += 1;
        }
        let bp = copy_widths(bprint);
        Ok(NNet { bprint: bp, genes })
    }

    /// Builds a network after `bprint` that holds `genes` as its genome.
    pub fn from_genome(bprint: &[usize], genes: Vec<i64>) -> (r: Result<NNet, NetError>)
        ensures
            !(valid_blueprint(bprint@) && genome_len(bprint@) <= usize::MAX) ==> r == Err::<NNet, NetError>(NetError::Configuration),
            valid_blueprint(bprint@) && genome_len(bprint@) <= usize::MAX ==> {
                if genes@.len() == genome_len(bprint@) {
                    r matches Ok(n) && n.wf() && n.blueprint() == bprint@ && n.genome() == genes@
                } else {
                    r == Err::<NNet, NetError>(NetError::GenomeLengthMismatch)
                }
            },
    {
        let total = match genome_size(bprint) {
            Some(t) => t,
            None => return Err(NetError::Configuration),
        };
        if genes.len() != total {
            return Err(NetError::GenomeLengthMismatch);
        }
        Ok(NNet { bprint: copy_widths(bprint), genes })
    }

    /// Number of genes of this network.
    pub fn genome_len(&self) -> (r: usize)
        ensures
            r == self.genome().len(),
    {
        self.genes.len()
    }

    /// Widths of the network, input width first.
    pub fn bprint(&self) -> (r: &Vec<usize>)
        ensures
            r@ == self.blueprint(),
    {
        &self.bprint
    }

    /// Propagates `inputs` through every layer: each neuron outputs the
    /// (saturating) dot product of its weights with its inputs, plus its bias.
    pub fn feed_forward(&self, inputs: Vec<i64>) -> (r: Vec<i64>)
        requires
            self.wf(),
            inputs.len() == self.blueprint()[0],
        ensures
            r@ == eval_net(self.blueprint(), self.genome(), inputs@),
            r@.len() == self.blueprint().last(),
    {
        let ghost bp = self.bprint@;
        let ghost x0 = inputs@;
        let mut cur = inputs;
        let mut k: usize = 1;
        let mut off: usize = 0;
        proof {
            assert(bp.take(1).len() == 1);
        }
        while k < self.bprint.len()
            invariant
                self.wf(),
                bp == self.bprint@,
                1 <= k <= bp.len(),
                off == genome_len(bp.take(k as int)),
                cur@ == eval_layers(bp, self.genes@, x0, (k - 1) as nat),
                cur@.len() == bp[k - 1],
            decreases bp.len() - k,
        {
            let n_in = self.bprint[k - 1];
            let n_out = self.bprint[k];
            proof {
                lemma_prefix_step(bp, k as int);
                lemma_prefix_mono(bp, k as int + 1, bp.len() as int);
                assert(bp.take(bp.len() as int) =~= bp);
                assert(bp[k as int] > 0);
                assert(n_in as int + 1 <= n_out as int * (n_in as int + 1)) by (nonlinear_arith)
                    requires
                        n_out >= 1,
                        n_in >= 0,
                ;
                assert(genome_len(bp.take(k as int + 1)) <= genome_len(bp));
                assert(genome_len(bp) == self.genes@.len());
                assert(self.genes@.len() == self.genes.len());
                assert(n_in == bp[k - 1] && n_out == bp[k as int]);
                assert(off + n_out as int * (n_in as int + 1) == genome_len(bp.take(k as int + 1)));
            }
            let next = layer_forward(&self.genes, off, n_in, n_out, &cur);
            off = off + n_out * (n_in + 1);
            cur = next;
            k += 1;
        }
        cur
    }

    /// The flat genome: per layer, per neuron, its weights then its bias.
    pub fn serialize(&self) -> (r: Vec<i64>)
        ensures
            r@ == self.genome(),
    {
        let mut out: Vec<i64> = Vec::with_capacity(self.genes.len());
        let mut j: usize = 0;
        while j < self.genes.len()
            invariant
                j <= self.genes.len(),
                out@ =~= self.genes@.take(j as int),
            decreases self.genes.len() - j,
        {
            out.push(self.genes[j]);
            j += 1;
        }
        assert(self.genes@.take(self.genes.len() as int) =~= self.genes@);
        out
    }

    /// Rewrites every weight and bias from `strand`, in the order of `serialize`;
    /// a strand of another length is refused and leaves the network as it was.
    pub fn deserialize(&mut self, strand: Vec<i64>) -> (r: Result<(), NetError>)
        ensures
            final(self).blueprint() == old(self).blueprint(),
            match decode(old(self).genome(), strand@) {
                Some(g) => r is Ok && final(self).genome() == g,
                None => r == Err::<(), NetError>(NetError::GenomeLengthMismatch) && final(self).genome() == old(self).genome(),
            },
            old(self).wf() ==> final(self).wf(),
    {
        if strand.len() != self.genes.len() {
            return Err(NetError::GenomeLengthMismatch);
        }
        self.genes = strand;
        Ok(())
    }
}

fn copy_widths(bprint: &[usize]) -> (r: Vec<usize>)
    ensures
        r@ == bprint@,
{
    let mut out: Vec<usize> = Vec::with_capacity(bprint.len());
    let mut i: usize = 0;
    while i < bprint.len()
        invariant
            i <= bprint.len(),
            out@ =~= bprint@.take(i as int),
        decreases bprint.len() - i,
    {
        out.push(bprint[i]);
        i += 1;
    }
    assert(bprint@.take(bprint.len() as int) =~= bprint@);
    out
}

/// Genome length of `bprint`, or `None` when the blueprint is invalid or the
/// length does not fit in `usize`.
pub fn genome_size(bprint: &[usize]) -> (r: Option<usize>)
    ensures
        r is Some <==> valid_blueprint(bprint@) && genome_len(bprint@) <= usize::MAX,
        r matches Some(t) ==> t == genome_len(bprint@),
{
    let n = bprint.len();
    if n < 2 {
        return None;
    }
    let mut i: usize = 0;
    while i < n
        invariant
            n == bprint@.len(),
            i <= n,
            forall|t: int| 0 <= t < i ==> bprint@[t] > 0,
        decreases n - i,
    {
        if bprint[i] == 0 {
            return None;
        }
        i += 1;
    }
    let ghost bp = bprint@;
    let mut total: usize = 0;
    let mut k: usize = 1;
    proof {
        assert(bp.take(1).len() == 1);
    }
    while k < n
        invariant
            n == bp.len(),
            bp == bprint@,
            valid_blueprint(bp),
            1 <= k <= n,
            total == genome_len(bp.take(k as int)),
        decreases n - k,
    {
        proof {
            lemma_prefix_step(bp, k as int);
        }
        let w = bprint[k];
        let p = bprint[k - 1];
        if p == usize::MAX {
            proof {
                assert(w as int * (p as int + 1) >= p as int + 1) by (nonlinear_arith)
                    requires w >= 1, p >= 0;
                lemma_prefix_mono(bp, k as int + 1, n as int);
                assert(bp.take(n as int) =~= bp);
            }
            return None;
        }
        let term = match w.checked_mul(p + 1) {
            Some(v) => v,
            None => {
                proof {
                    lemma_prefix_mono(bp, k as int + 1, n as int);
                    assert(bp.take(n as int) =~= bp);
                }
                return None;
            },
        };
        total = match total.checked_add(term) {
            Some(v) => v,
            None => {
                proof {
                    lemma_prefix_mono(bp, k as int + 1, n as int);
                    assert(bp.take(n as int) =~= bp);
                }
                return None;
            },
        };
        k += 1;
    }
    assert(bp.take(n as int) =~= bp);
    Some(total)
}

} // verus!
