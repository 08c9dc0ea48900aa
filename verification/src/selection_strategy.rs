use vstd::prelude::*;
use vstd::seq_lib::group_seq_properties;
use vstd::set_lib::lemma_len_subset;
use crate::ratio::{round_mul, round_mul_usize, Ratio};
use crate::rng::{random_below, random_below_u128};

verus! {

/// Strict canonical ranking between two individuals: higher fitness first,
/// ties broken toward the lower index. This is the tie-break every
/// fitness-ordered operation of the library uses.
pub open spec fn beats(scores: Seq<u64>, a: int, b: int) -> bool {
    scores[a] > scores[b] || (scores[a] == scores[b] && a < b)
}

/// The set of indices whose fitness strictly exceeds that of index `i`.
pub open spec fn better_set(scores: Seq<u64>, i: int) -> Set<usize> {
    Set::new(|j: usize| j < scores.len() && scores[j as int] > scores[i])
}

/// Index `i` is among the `k` fittest individuals: fewer than `k` others
/// are strictly fitter.
pub open spec fn in_top(scores: Seq<u64>, i: int, k: int) -> bool {
    &&& 0 <= i < scores.len()
    &&& better_set(scores, i).finite()
    &&& better_set(scores, i).len() < k
}

/// A full descending ranking of the indices `0..scores.len()` in the
/// canonical order.
pub open spec fn is_ranking(scores: Seq<u64>, order: Seq<usize>) -> bool {
    &&& order.len() == scores.len()
    &&& forall|k: int| 0 <= k < order.len() ==> (#[trigger] order[k]) < scores.len()
    &&& forall|v: usize| v < scores.len() ==> order.contains(v)
    &&& forall|k1: int, k2: int| 0 <= k1 < k2 < order.len()
        ==> beats(scores, #[trigger] order[k1] as int, #[trigger] order[k2] as int)
}

/// The canonical order is transitive.
proof fn lemma_beats_trans(scores: Seq<u64>, a: int, b: int, c: int)
    requires
        beats(scores, a, b),
        beats(scores, b, c),
    ensures
        beats(scores, a, c),
{
}

/// Rank all indices by fitness, descending, ties broken toward the lower
/// index: an insertion sort producing the canonical ranking.
fn sort_indices_desc(scores: &Vec<u64>) -> (order: Vec<usize>)
    ensures
        is_ranking(scores@, order@),
{
    let n = scores.len();
    let mut order: Vec<usize> = Vec::new();
    for j in 0..n
        invariant
            n == scores@.len(),
            order@.len() == j,
            forall|k: int| 0 <= k < j ==> (#[trigger] order@[k]) < n,
            forall|v: usize| order@.contains(v) <==> v < j,
            forall|k1: int, k2: int| 0 <= k1 < k2 < j
                ==> beats(scores@, #[trigger] order@[k1] as int, #[trigger] order@[k2] as int),
    {
        let mut p: usize = 0;
        while p < j
            invariant
                p <= j,
                j < n,
                n == scores@.len(),
                order@.len() == j,
                forall|k: int| 0 <= k < j ==> (#[trigger] order@[k]) < n,
                forall|v: usize| order@.contains(v) <==> v < j,
                forall|k: int| 0 <= k < p ==> beats(scores@, #[trigger] order@[k] as int, j as int),
            ensures
                p <= j,
                forall|k: int| 0 <= k < p ==> beats(scores@, #[trigger] order@[k] as int, j as int),
                p < j ==> beats(scores@, j as int, order@[p as int] as int),
            decreases j - p,
        {
            let oi = order[p];
            if scores[oi] > scores[j] || (scores[oi] == scores[j] && oi < j) {
                p = p + 1;
            } else {
                proof {
                    assert(order@.contains(oi));
                    assert(oi != j);
                }
                break;
            }
        }
        let ghost prev = order@;
        proof {
            prev.insert_ensures(p as int, j);
        }
        order.insert(p, j);
        proof {
            let cur = order@;
            assert forall|k1: int, k2: int| 0 <= k1 < k2 < cur.len()
                implies beats(scores@, #[trigger] cur[k1] as int, #[trigger] cur[k2] as int) by {
                let pi = p as int;
                if k2 < pi {
                    assert(cur[k1] == prev[k1] && cur[k2] == prev[k2]);
                } else if k1 < pi && k2 == pi {
                    assert(cur[k1] == prev[k1] && cur[k2] == j);
                } else if k1 < pi && k2 > pi {
                    assert(cur[k1] == prev[k1] && cur[k2] == prev[k2 - 1]);
                } else if k1 == pi {
                    assert(cur[k1] == j && cur[k2] == prev[k2 - 1]);
                    assert(beats(scores@, j as int, prev[pi] as int));
                    if k2 - 1 > pi {
                        assert(beats(scores@, prev[pi] as int, prev[k2 - 1] as int));
                        lemma_beats_trans(scores@, j as int, prev[pi] as int, prev[k2 - 1] as int);
                    }
                } else {
                    assert(cur[k1] == prev[k1 - 1] && cur[k2] == prev[k2 - 1]);
                }
            }
            assert forall|v: usize| cur.contains(v) implies v < j + 1 by {
                let k = choose|k: int| 0 <= k < cur.len() && cur[k] == v;
                if k < p as int {
                    assert(prev[k] == v);
                    assert(prev.contains(v));
                } else if k == p as int {
                } else {
                    assert(prev[k - 1] == v);
                    assert(prev.contains(v));
                }
            }
            assert forall|v: usize| v < j + 1 implies cur.contains(v) by {
                if v == j {
                    assert(cur[p as int] == v);
                } else {
                    assert(prev.contains(v));
                    let k = choose|k: int| 0 <= k < prev.len() && prev[k] == v;
                    if k < p as int {
                        assert(cur[k] == v);
                    } else {
                        assert(cur[k + 1] == v);
                    }
                }
            }
        }
    }
    order
}

/// An individual placed in the first `k` positions of a ranking is among
/// the `k` fittest.
proof fn lemma_ranking_prefix_in_top(scores: Seq<u64>, order: Seq<usize>, p: int, k: int)
    requires
        is_ranking(scores, order),
        0 <= p < k <= order.len(),
    ensures
        in_top(scores, order[p] as int, k),
{
    broadcast use group_seq_properties;
    let i = order[p] as int;
    let prefix = order.take(p).to_set();
    order.take(p).lemma_cardinality_of_set();
    assert(better_set(scores, i).subset_of(prefix)) by {
        assert forall|v: usize| better_set(scores, i).contains(v) implies prefix.contains(v) by {
            assert(order.contains(v));
            let q = choose|q: int| 0 <= q < order.len() && order[q] == v;
            if q > p {
                assert(beats(scores, order[p] as int, order[q] as int));
            } else if q == p {
            }
            assert(q < p);
            assert(order.take(p)[q] == v);
            assert(order.take(p).contains(v));
        }
    }
    lemma_len_subset(better_set(scores, i), prefix);
}

/// Sum of the first `k` weights.
pub open spec fn weight_sum(ws: Seq<u64>, k: int) -> int
    decreases k,
{
    if k <= 0 {
        0
    } else {
        weight_sum(ws, k - 1) + ws[k - 1]
    }
}

proof fn lemma_weight_sum_nonneg(ws: Seq<u64>, k: int)
    ensures
        weight_sum(ws, k) >= 0,
    decreases k,
{
    if k > 0 {
        lemma_weight_sum_nonneg(ws, k - 1);
    }
}

/// A positive weight anywhere below `k` makes the sum positive.
proof fn lemma_weight_sum_pos(ws: Seq<u64>, i: int, k: int)
    requires
        0 <= i < k,
        ws[i] > 0,
    ensures
        weight_sum(ws, k) > 0,
    decreases k,
{
    if i == k - 1 {
        lemma_weight_sum_nonneg(ws, k - 1);
    } else {
        lemma_weight_sum_pos(ws, i, k - 1);
    }
}

proof fn lemma_weight_sum_monotone(ws: Seq<u64>, k1: int, k2: int)
    requires
        k1 <= k2,
    ensures
        weight_sum(ws, k1) <= weight_sum(ws, k2),
    decreases k2,
{
    if k1 < k2 && k2 > 0 {
        lemma_weight_sum_monotone(ws, k1, k2 - 1);
    }
}

/// One cumulative weighted draw: an index whose weight is positive, chosen
/// with probability proportional to its weight, or `None` when every
/// weight is zero.
fn weighted_draw(weights: &Vec<u64>) -> (r: Option<usize>)
    requires
        weights@.len() >= 1,
    ensures
        r matches Some(i) ==> i < weights@.len() && weights@[i as int] > 0,
        r is None ==> weight_sum(weights@, weights@.len() as int) == 0,
{
    let n = weights.len();
    let mut total: u128 = 0;
    for i in 0..n
        invariant
            n == weights@.len(),
            total == weight_sum(weights@, i as int),
            total <= i * 0xffff_ffff_ffff_ffff,
    {
        proof {
            assert((i + 1) * 0xffff_ffff_ffff_ffff == i * 0xffff_ffff_ffff_ffff
                + 0xffff_ffff_ffff_ffff) by (nonlinear_arith);
            assert(n * 0xffff_ffff_ffff_ffff
                < 0xffff_ffff_ffff_ffff_ffff_ffff_ffff_ffff) by (nonlinear_arith)
                requires n <= 0xffff_ffff_ffff_ffff;
            assert((i + 1) * 0xffff_ffff_ffff_ffff <= n * 0xffff_ffff_ffff_ffff) by (nonlinear_arith)
                requires i + 1 <= n;
        }
        total = total + weights[i] as u128;
    }
    if total == 0 {
        return None;
    }
    let spin = random_below_u128(total);
    let mut cum: u128 = 0;
    for i in 0..n
        invariant
            n == weights@.len(),
            cum == weight_sum(weights@, i as int),
            total == weight_sum(weights@, n as int),
            spin < total,
            cum <= spin,
    {
        proof {
            lemma_weight_sum_monotone(weights@, i + 1, n as int);
        }
        let next = cum + weights[i] as u128;
        if spin < next {
            return Some(i);
        }
        cum = next;
    }
    proof {
        assert(false);
    }
    None
}

/// A uniformly random index below `n` other than `avoid`.
fn random_other(n: usize, avoid: usize) -> (r: usize)
    requires
        n >= 2,
        avoid < n,
    ensures
        r < n,
        r != avoid,
{
    let d = random_below(n - 1);
    if d >= avoid {
        d + 1
    } else {
        d
    }
}

/// A policy for choosing breeding parents and removal candidates from
/// fitness scores. Fitness is "higher is better" throughout; every
/// fitness-ordered operation breaks ties toward the lower index.
#[derive(Clone, Copy, Debug, PartialEq, Eq)]
pub enum SelectionStrategy {
    /// Tournament selection with the given tournament size: sample that
    /// many random indices and keep the best; the second parent's
    /// tournament excludes the first parent's final index.
    Tournament(usize),
    /// Fitness-proportionate (roulette wheel) selection: a cumulative
    /// weighted draw over the raw scores; with zero total fitness the draw
    /// degrades to a uniform pick. The second parent is redrawn with the
    /// first parent's weight removed, so it differs whenever the
    /// population holds more than one individual.
    RouletteWheel,
    /// Rank-based selection: rank all individuals descending by fitness
    /// and draw with weight `size - rank`. The pressure parameter scales
    /// every rank weight equally, so the drawn distribution is
    /// proportional to rank alone; it is kept as configuration.
    Rank(Ratio),
    /// Truncation selection: both parents are drawn uniformly from the top
    /// `round(size x fraction)` individuals, and may coincide.
    Truncation(Ratio),
}

impl SelectionStrategy {
    /// The strategy's own fraction parameters lie in `[0, 1]`.
    pub open spec fn valid(&self) -> bool {
        match self {
            SelectionStrategy::Rank(pressure) => pressure.valid(),
            SelectionStrategy::Truncation(fraction) => fraction.valid(),
            _ => true,
        }
    }

    /// The size of the pool the strategy draws parents from, in a
    /// population of size `n`.
    pub open spec fn parent_pool_size(&self, n: int) -> int {
        match self {
            SelectionStrategy::Truncation(fraction) => round_mul(
                n,
                fraction.num as int,
                fraction.den as int,
            ),
            _ => n,
        }
    }

    /// The strategy can pick parents: the population is nonempty and a
    /// truncation pool holds at least one individual.
    pub open spec fn can_select(&self, n: int) -> bool {
        n >= 1 && self.parent_pool_size(n) >= 1
    }

    /// Select two parent indices from the fitness scores. Both indices are
    /// valid; under every strategy but truncation the two parents differ
    /// whenever the population holds more than one individual; under
    /// truncation both parents come from the top `round(size x fraction)`
    /// individuals.
    pub fn select_parents(&self, fitness_scores: &Vec<u64>) -> (parents: (usize, usize))
        requires
            self.valid(),
            self.can_select(fitness_scores@.len() as int),
        ensures
            parents.0 < fitness_scores@.len(),
            parents.1 < fitness_scores@.len(),
            !(self is Truncation) && fitness_scores@.len() > 1 ==> parents.0 != parents.1,
            self is RouletteWheel && (exists|i: int| 0 <= i < fitness_scores@.len()
                && (#[trigger] fitness_scores@[i]) > 0) ==> fitness_scores@[parents.0 as int] > 0,
            self matches SelectionStrategy::Truncation(fraction) ==> {
                &&& in_top(
                    fitness_scores@,
                    parents.0 as int,
                    round_mul(fitness_scores@.len() as int, fraction.num as int, fraction.den as int),
                )
                &&& in_top(
                    fitness_scores@,
                    parents.1 as int,
                    round_mul(fitness_scores@.len() as int, fraction.num as int, fraction.den as int),
                )
            },
    {
        match self {
            SelectionStrategy::Tournament(size) => Self::tournament_selection(fitness_scores, *size),
            SelectionStrategy::RouletteWheel => Self::roulette_wheel_selection(fitness_scores),
            SelectionStrategy::Rank(pressure) => Self::rank_selection(fitness_scores, *pressure),
            SelectionStrategy::Truncation(fraction) => Self::truncation_selection(
                fitness_scores,
                *fraction,
            ),
        }
    }

    fn tournament_selection(fitness_scores: &Vec<u64>, tournament_size: usize) -> (parents: (
        usize,
        usize,
    ))
        requires
            fitness_scores@.len() >= 1,
        ensures
            parents.0 < fitness_scores@.len(),
            parents.1 < fitness_scores@.len(),
            fitness_scores@.len() > 1 ==> parents.0 != parents.1,
    {
        let n = fitness_scores.len();

        let extra_rounds: usize = if tournament_size >= 1 { tournament_size - 1 } else { 0 };

        let mut best_idx1 = random_below(n);
        let mut best_fitness1 = fitness_scores[best_idx1];
        for _t in 0..extra_rounds
            invariant
                n == fitness_scores@.len(),
                n >= 1,
                best_idx1 < n,
        {
            let idx = random_below(n);
            if fitness_scores[idx] > best_fitness1 {
                best_idx1 = idx;
                best_fitness1 = fitness_scores[idx];
            }
        }

        if n == 1 {
            return (best_idx1, best_idx1);
        }

        // The second tournament never admits the first parent's index.
        let mut best_idx2 = random_other(n, best_idx1);
        let mut best_fitness2 = fitness_scores[best_idx2];
        for _t in 0..extra_rounds
            invariant
                n == fitness_scores@.len(),
                n >= 1,
                best_idx1 < n,
                best_idx2 < n,
                best_idx2 != best_idx1,
        {
            let idx = random_below(n);
            if idx != best_idx1 && fitness_scores[idx] > best_fitness2 {
                best_idx2 = idx;
                best_fitness2 = fitness_scores[idx];
            }
        }

        (best_idx1, best_idx2)
    }

    fn roulette_wheel_selection(fitness_scores: &Vec<u64>) -> (parents: (usize, usize))
        requires
            fitness_scores@.len() >= 1,
        ensures
            parents.0 < fitness_scores@.len(),
            parents.1 < fitness_scores@.len(),
            fitness_scores@.len() > 1 ==> parents.0 != parents.1,
            (exists|i: int| 0 <= i < fitness_scores@.len() && (#[trigger] fitness_scores@[i]) > 0)
                ==> fitness_scores@[parents.0 as int] > 0,
    {
        let n = fitness_scores.len();
        let parent1 = match weighted_draw(fitness_scores) {
            Some(i) => i,
            None => {
                proof {
                    if exists|i: int| 0 <= i < fitness_scores@.len()
                        && (#[trigger] fitness_scores@[i]) > 0 {
                        let i = choose|i: int| 0 <= i < fitness_scores@.len()
                            && (#[trigger] fitness_scores@[i]) > 0;
                        lemma_weight_sum_pos(fitness_scores@, i, fitness_scores@.len() as int);
                    }
                }
                random_below(n)
            },
        };
        if n == 1 {
            return (parent1, parent1);
        }

        // Redraw with the first parent's weight removed, so the wheel
        // cannot land on it again; with no weight left, fall back to a
        // uniform pick among the others.
        let mut second_weights: Vec<u64> = Vec::new();
        for i in 0..n
            invariant
                n == fitness_scores@.len(),
                parent1 < n,
                second_weights@.len() == i,
                forall|k: int| 0 <= k < i ==> #[trigger] second_weights@[k] == (
                    if k == parent1 as int { 0u64 } else { fitness_scores@[k] }),
        {
            if i == parent1 {
                second_weights.push(0);
            } else {
                second_weights.push(fitness_scores[i]);
            }
        }
        let parent2 = match weighted_draw(&second_weights) {
            Some(i) => i,
            None => random_other(n, parent1),
        };
        (parent1, parent2)
    }

    fn rank_selection(fitness_scores: &Vec<u64>, _pressure: Ratio) -> (parents: (usize, usize))
        requires
            fitness_scores@.len() >= 1,
        ensures
            parents.0 < fitness_scores@.len(),
            parents.1 < fitness_scores@.len(),
            fitness_scores@.len() > 1 ==> parents.0 != parents.1,
    {
        let n = fitness_scores.len();
        let order = sort_indices_desc(fitness_scores);

        // The individual at rank position p draws with weight n - p.
        let mut rank_weights: Vec<u64> = Vec::new();
        for p in 0..n
            invariant
                n == fitness_scores@.len(),
                rank_weights@.len() == p,
        {
            rank_weights.push((n - p) as u64);
        }

        let r1 = match weighted_draw(&rank_weights) {
            Some(p) => p,
            None => random_below(n),
        };
        let parent1 = order[r1];
        if n == 1 {
            return (parent1, parent1);
        }

        // Redraw with the first parent's rank removed.
        let mut second_weights: Vec<u64> = Vec::new();
        for p in 0..n
            invariant
                n == fitness_scores@.len(),
                r1 < n,
                second_weights@.len() == p,
                forall|k: int| 0 <= k < p ==> #[trigger] second_weights@[k] == (
                    if k == r1 as int { 0u64 } else { (n - k) as u64 }),
        {
            if p == r1 {
                second_weights.push(0);
            } else {
                second_weights.push((n - p) as u64);
            }
        }
        let r2 = match weighted_draw(&second_weights) {
            Some(p) => {
                proof {
                    assert(second_weights@[p as int] > 0);
                }
                p
            },
            None => random_other(n, r1),
        };
        proof {
            assert(r2 != r1);
            if r1 < r2 {
                assert(beats(fitness_scores@, order@[r1 as int] as int, order@[r2 as int] as int));
            } else {
                assert(beats(fitness_scores@, order@[r2 as int] as int, order@[r1 as int] as int));
            }
        }
        (parent1, order[r2])
    }

    fn truncation_selection(fitness_scores: &Vec<u64>, fraction: Ratio) -> (parents: (usize, usize))
        requires
            fraction.valid(),
            fitness_scores@.len() >= 1,
            round_mul(fitness_scores@.len() as int, fraction.num as int, fraction.den as int) >= 1,
        ensures
            parents.0 < fitness_scores@.len(),
            parents.1 < fitness_scores@.len(),
            in_top(
                fitness_scores@,
                parents.0 as int,
                round_mul(fitness_scores@.len() as int, fraction.num as int, fraction.den as int),
            ),
            in_top(
                fitness_scores@,
                parents.1 as int,
                round_mul(fitness_scores@.len() as int, fraction.num as int, fraction.den as int),
            ),
    {
        let n = fitness_scores.len();
        let order = sort_indices_desc(fitness_scores);
        let cutoff = round_mul_usize(n, fraction);
        let i1 = random_below(cutoff);
        let i2 = random_below(cutoff);
        proof {
            lemma_ranking_prefix_in_top(fitness_scores@, order@, i1 as int, cutoff as int);
            lemma_ranking_prefix_in_top(fitness_scores@, order@, i2 as int, cutoff as int);
        }
        (order[i1], order[i2])
    }

    /// The indices to remove so that `round(size x percentage)` of the
    /// individuals survive. Every strategy removes the worst performers
    /// under the canonical ranking (fitness descending, ties broken toward
    /// the lower index): the removed indices are the tail of that ranking,
    /// and every survivor outranks every removed individual.
    pub fn select_deaths(&self, fitness_scores: &Vec<u64>, percentage: Ratio) -> (deaths: Vec<
        usize,
    >)
        requires
            percentage.valid(),
        ensures
            deaths@.len() == fitness_scores@.len() - round_mul(
                fitness_scores@.len() as int,
                percentage.num as int,
                percentage.den as int,
            ),
            forall|k: int| 0 <= k < deaths@.len() ==> (#[trigger] deaths@[k]) < fitness_scores@.len(),
            forall|k1: int, k2: int| 0 <= k1 < k2 < deaths@.len() ==> deaths@[k1] != deaths@[k2],
            forall|a: usize, b: usize| deaths@.contains(a) && !deaths@.contains(b)
                && b < fitness_scores@.len() ==> beats(fitness_scores@, b as int, a as int),
    {
        let n = fitness_scores.len();
        let order = sort_indices_desc(fitness_scores);
        let keep = round_mul_usize(n, percentage);
        let mut deaths: Vec<usize> = Vec::new();
        for k in keep..n
            invariant
                n == fitness_scores@.len(),
                keep <= n,
                keep == round_mul(n as int, percentage.num as int, percentage.den as int),
                is_ranking(fitness_scores@, order@),
                deaths@ == order@.subrange(keep as int, k as int),
        {
            deaths.push(order[k]);
            proof {
                assert(order@.subrange(keep as int, k + 1)
                    =~= order@.subrange(keep as int, k as int).push(order@[k as int]));
            }
        }
        proof {
            assert(deaths@ == order@.subrange(keep as int, n as int));
            assert forall|k1: int, k2: int| 0 <= k1 < k2 < deaths@.len()
                implies deaths@[k1] != deaths@[k2] by {
                assert(beats(fitness_scores@, deaths@[k1] as int, deaths@[k2] as int));
            }
            assert forall|a: usize, b: usize| deaths@.contains(a) && !deaths@.contains(b)
                && b < fitness_scores@.len()
                implies beats(fitness_scores@, b as int, a as int) by {
                let qa = choose|q: int| 0 <= q < deaths@.len() && deaths@[q] == a;
                assert(order@.contains(b));
                let qb = choose|q: int| 0 <= q < order@.len() && order@[q] == b;
                if qb >= keep {
                    assert(deaths@[qb - keep] == b);
                    assert(deaths@.contains(b));
                }
                assert(order@[qb] == b && order@[keep + qa] == a);
                assert(beats(fitness_scores@, order@[qb] as int, order@[keep + qa] as int));
            }
        }
        deaths
    }
}

} // verus!
