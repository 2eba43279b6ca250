//! Block weights: the windows of recent blocks that the chain context looks back on, and their
//! medians.
use std::collections::VecDeque;
use vstd::prelude::*;
use vstd::relations::sorted_by;
use vstd::relations::total_ordering;

verus! {

/// The order by which weights are ranked.
pub open spec fn lighter_first() -> spec_fn(usize, usize) -> bool {
    |a: usize, b: usize| a <= b
}

/// `weights`, from the lightest to the heaviest.
pub open spec fn ranked(weights: Seq<usize>) -> Seq<usize> {
    weights.sort_by(lighter_first())
}

/// The median of `weights`: the middle one by rank, or, where two stand in the middle, the mean of
/// the two, rounded down.
pub open spec fn median(weights: Seq<usize>) -> int
    recommends
        weights.len() > 0,
{
    let mid = (weights.len() / 2) as int;
    if weights.len() % 2 == 1 {
        ranked(weights)[mid] as int
    } else {
        (ranked(weights)[mid - 1] + ranked(weights)[mid]) / 2
    }
}

/// The last `count` elements of `items`, or all of them where there are no more than that.
pub open spec fn last_of<T>(items: Seq<T>, count: int) -> Seq<T> {
    if items.len() <= count {
        items
    } else {
        items.skip(items.len() - count)
    }
}

/// Whether `ranking` goes from the lightest weight to the heaviest.
pub open spec fn is_ascending(ranking: Seq<usize>) -> bool {
    forall|i: int, j: int| 0 <= i <= j < ranking.len() ==> ranking[i] <= ranking[j]
}

/// Whether `at` weights of `ranking` are lighter than `weight`, and they come first.
spec fn splits(ranking: Seq<usize>, weight: usize, at: int) -> bool {
    &&& 0 <= at <= ranking.len()
    &&& forall|i: int| 0 <= i < at ==> ranking[i] < weight
    &&& forall|i: int| at <= i < ranking.len() ==> ranking[i] >= weight
}

/// A weight put in at its rank keeps the ranking, and adds itself alone.
proof fn lemma_rank_in(window: Seq<usize>, ranking: Seq<usize>, weight: usize, at: int)
    requires
        is_ascending(ranking),
        ranking.to_multiset() == window.to_multiset(),
        splits(ranking, weight, at),
    ensures
        is_ascending(ranking.insert(at, weight)),
        ranking.insert(at, weight).to_multiset() == window.push(weight).to_multiset(),
{
    vstd::seq_lib::to_multiset_insert(ranking, at, weight);
    vstd::seq_lib::to_multiset_build(window, weight);
}

/// The oldest weight of the window stands at its rank, and taking it out there keeps the ranking.
proof fn lemma_rank_out(window: Seq<usize>, ranking: Seq<usize>, at: int)
    requires
        window.len() > 0,
        is_ascending(ranking),
        ranking.to_multiset() == window.to_multiset(),
        splits(ranking, window[0], at),
    ensures
        at < ranking.len(),
        is_ascending(ranking.remove(at)),
        ranking.remove(at).to_multiset() == window.skip(1).to_multiset(),
{
    let oldest = window[0];
    vstd::seq_lib::to_multiset_contains(window, oldest);
    vstd::seq_lib::to_multiset_contains(ranking, oldest);
    assert(window.contains(oldest));
    let k = choose|k: int| 0 <= k < ranking.len() && ranking[k] == oldest;
    assert(at <= k);
    assert(ranking[at] == oldest);
    vstd::seq_lib::to_multiset_remove(ranking, at);
    vstd::seq_lib::to_multiset_remove(window, 0);
    assert(window.remove(0) =~= window.skip(1));
}

/// There is only one ranking of `weights`: what is in order and holds the same weights is it.
pub proof fn law_ranking_is_unique(weights: Seq<usize>, candidate: Seq<usize>)
    requires
        candidate.to_multiset() == weights.to_multiset(),
        is_ascending(candidate),
    ensures
        ranked(weights) == candidate,
{
    let leq = lighter_first();
    assert(total_ordering(leq));
    weights.lemma_sort_by_ensures(leq);
    assert(sorted_by(candidate, leq));
    vstd::seq_lib::lemma_sorted_unique(ranked(weights), candidate, leq);
}

/// The weights of the latest blocks, at most `capacity` of them, oldest first.
struct WeightWindow {
    capacity: u64,
    weights: VecDeque<usize>,
    by_rank: Vec<usize>,
}

impl WeightWindow {
    spec fn wf(&self) -> bool {
        &&& self.weights@.len() <= self.capacity
        &&& self.by_rank@.to_multiset() == self.weights@.to_multiset()
        &&& is_ascending(self.by_rank@)
    }

    fn new(capacity: u64) -> (window: WeightWindow)
        ensures
            window.wf(),
            window.capacity == capacity,
            window.weights@ == Seq::<usize>::empty(),
    {
        WeightWindow { capacity, weights: VecDeque::new(), by_rank: Vec::new() }
    }

    /// The number of weights in the ranking that are lighter than `weight`.
    fn rank(by_rank: &Vec<usize>, weight: usize) -> (at: usize)
        requires
            is_ascending(by_rank@),
        ensures
            splits(by_rank@, weight, at as int),
    {
        let mut low: usize = 0;
        let mut high: usize = by_rank.len();
        while low < high
            invariant
                low <= high <= by_rank@.len(),
                is_ascending(by_rank@),
                forall|i: int| 0 <= i < low ==> by_rank@[i] < weight,
                forall|i: int| high <= i < by_rank@.len() ==> by_rank@[i] >= weight,
            decreases high - low,
        {
            let mid: usize = low + (high - low) / 2;
            if by_rank[mid] < weight {
                low = mid + 1;
            } else {
                high = mid;
            }
        }
        low
    }

    /// Adds the weight of the next block. The oldest weight leaves where the window is full.
    fn push(&mut self, weight: usize)
        requires
            old(self).wf(),
        ensures
            final(self).wf(),
            final(self).capacity == old(self).capacity,
            final(self).weights@ == last_of(
                old(self).weights@.push(weight),
                old(self).capacity as int,
            ),
    {
        let at = Self::rank(&self.by_rank, weight);
        proof {
            lemma_rank_in(self.weights@, self.by_rank@, weight, at as int);
        }
        self.by_rank.insert(at, weight);
        self.weights.push_back(weight);
        if self.weights.len() as u64 > self.capacity {
            let ghost full = self.weights@;
            if let Some(oldest) = self.weights.pop_front() {
                let leaving = Self::rank(&self.by_rank, oldest);
                proof {
                    lemma_rank_out(full, self.by_rank@, leaving as int);
                    assert(self.weights@ =~= full.skip(1));
                }
                self.by_rank.remove(leaving);
            }
        }
    }

    /// The median weight.
    fn median(&self) -> (mid: usize)
        requires
            self.wf(),
            self.weights@.len() > 0,
        ensures
            mid == median(self.weights@),
    {
        proof {
            vstd::seq_lib::to_multiset_len(self.by_rank@);
            vstd::seq_lib::to_multiset_len(self.weights@);
            law_ranking_is_unique(self.weights@, self.by_rank@);
        }
        let mid: usize = self.by_rank.len() / 2;
        if self.by_rank.len() % 2 == 1 {
            self.by_rank[mid]
        } else {
            let lighter: usize = self.by_rank[mid - 1];
            let heavier: usize = self.by_rank[mid];
            lighter + (heavier - lighter) / 2
        }
    }
}

/// Where the weights are put in order, the middle of that order gives the median.
proof fn lemma_median_of_any_ranking(window: Seq<usize>)
    ensures
        forall|ranking: Seq<usize>| #[trigger]
            ranking.to_multiset() == window.to_multiset() && (forall|i: int, j: int|
                0 <= i <= j < ranking.len() ==> ranking[i] <= ranking[j]) ==> median(window) == (
            if window.len() % 2 == 1 {
                ranking[window.len() as int / 2] as int
            } else {
                (ranking[window.len() as int / 2 - 1] + ranking[window.len() as int / 2]) / 2
            }),
{
    assert forall|ranking: Seq<usize>| #[trigger]
        ranking.to_multiset() == window.to_multiset() && (forall|i: int, j: int|
            0 <= i <= j < ranking.len() ==> ranking[i] <= ranking[j]) implies median(window) == (
    if window.len() % 2 == 1 {
        ranking[window.len() as int / 2] as int
    } else {
        (ranking[window.len() as int / 2 - 1] + ranking[window.len() as int / 2]) / 2
    }) by {
        law_ranking_is_unique(window, ranking);
    }
}

/// How many of the latest blocks each median looks back on.
#[derive(Debug, Clone, Copy, PartialEq, Eq, Structural)]
pub struct BlockWeightsCacheConfig {
    pub short_term_window: u64,
    pub long_term_window: u64,
}

impl BlockWeightsCacheConfig {
    /// A configuration with windows of the given numbers of blocks.
    pub fn new(short_term_window: u64, long_term_window: u64) -> (config: BlockWeightsCacheConfig)
        ensures
            config.short_term_window == short_term_window,
            config.long_term_window == long_term_window,
    {
        BlockWeightsCacheConfig { short_term_window, long_term_window }
    }

    /// The windows of Monero's main network.
    pub fn main_net() -> (config: BlockWeightsCacheConfig)
        ensures
            config.short_term_window == 100,
            config.long_term_window == 100_000,
    {
        BlockWeightsCacheConfig { short_term_window: 100, long_term_window: 100_000 }
    }

    /// The larger of the two windows.
    pub open spec fn reach(self) -> u64 {
        if self.short_term_window >= self.long_term_window {
            self.short_term_window
        } else {
            self.long_term_window
        }
    }

    /// The lowest height whose weights a cache of a chain of `chain_height` blocks has to be given.
    pub fn first_height(&self, chain_height: u64) -> (height: u64)
        ensures
            height == if chain_height >= self.reach() {
                chain_height - self.reach()
            } else {
                0
            },
            height <= chain_height,
            height > 0 ==> chain_height - height >= self.short_term_window,
            height > 0 ==> chain_height - height >= self.long_term_window,
            height > 0 ==> chain_height - height == self.short_term_window || chain_height - height
                == self.long_term_window,
            height == 0 ==> chain_height <= self.short_term_window || chain_height
                <= self.long_term_window,
    {
        let reach: u64 = if self.short_term_window >= self.long_term_window {
            self.short_term_window
        } else {
            self.long_term_window
        };
        if chain_height >= reach {
            chain_height - reach
        } else {
            0
        }
    }
}

/// The two weights of one block.
#[derive(Debug, Clone, Copy, PartialEq, Eq, Structural)]
pub struct BlockWeights {
    pub weight: usize,
    pub long_term_weight: usize,
}

/// The weights of `blocks`.
pub open spec fn weights(blocks: Seq<BlockWeights>) -> Seq<usize> {
    blocks.map_values(|block: BlockWeights| block.weight)
}

/// The long term weights of `blocks`.
pub open spec fn long_term_weights(blocks: Seq<BlockWeights>) -> Seq<usize> {
    blocks.map_values(|block: BlockWeights| block.long_term_weight)
}

/// What a [`BlockWeightsCache`] holds.
#[verifier::ext_equal]
pub struct BlockWeightsView {
    pub config: BlockWeightsCacheConfig,
    pub tip_height: int,
    pub short_term: Seq<usize>,
    pub long_term: Seq<usize>,
}

impl BlockWeightsView {
    /// What is held for a chain of `chain_height` blocks of which `blocks` are the latest.
    pub open spec fn of_chain(
        chain_height: int,
        config: BlockWeightsCacheConfig,
        blocks: Seq<BlockWeights>,
    ) -> BlockWeightsView {
        BlockWeightsView {
            config,
            tip_height: chain_height - 1,
            short_term: last_of(weights(blocks), config.short_term_window as int),
            long_term: last_of(long_term_weights(blocks), config.long_term_window as int),
        }
    }

    /// What is held once a block has been added.
    pub open spec fn new_block(
        self,
        height: int,
        weight: usize,
        long_term_weight: usize,
    ) -> BlockWeightsView {
        BlockWeightsView {
            config: self.config,
            tip_height: height,
            short_term: last_of(
                self.short_term.push(weight),
                self.config.short_term_window as int,
            ),
            long_term: last_of(
                self.long_term.push(long_term_weight),
                self.config.long_term_window as int,
            ),
        }
    }

    /// Whether both windows hold a block, so that both have a median.
    pub open spec fn has_medians(self) -> bool {
        self.short_term.len() > 0 && self.long_term.len() > 0
    }
}

/// The weights of the latest blocks of the chain, in a short term and a long term window.
pub struct BlockWeightsCache {
    config: BlockWeightsCacheConfig,
    tip_height: u64,
    short_term: WeightWindow,
    long_term: WeightWindow,
}

impl View for BlockWeightsCache {
    type V = BlockWeightsView;

    closed spec fn view(&self) -> BlockWeightsView {
        BlockWeightsView {
            config: self.config,
            tip_height: self.tip_height as int,
            short_term: self.short_term.weights@,
            long_term: self.long_term.weights@,
        }
    }
}

impl BlockWeightsCache {
    pub closed spec fn wf(&self) -> bool {
        &&& self.short_term.wf()
        &&& self.long_term.wf()
        &&& self.short_term.capacity == self.config.short_term_window
        &&& self.long_term.capacity == self.config.long_term_window
    }

    /// The cache of a chain of `chain_height` blocks. `blocks` are the weights of its latest blocks,
    /// the top one last: at least of those from [`BlockWeightsCacheConfig::first_height`] on.
    pub fn init_from_chain_height(
        chain_height: u64,
        config: BlockWeightsCacheConfig,
        blocks: &Vec<BlockWeights>,
    ) -> (cache: BlockWeightsCache)
        requires
            chain_height > 0,
            blocks@.len() <= chain_height,
            blocks@.len() == chain_height || blocks@.len() >= config.reach(),
        ensures
            cache.wf(),
            cache@ == BlockWeightsView::of_chain(chain_height as int, config, blocks@),
            cache@.config == config,
            cache@.tip_height == chain_height - 1,
            cache@.short_term.len() == (if blocks@.len() <= config.short_term_window {
                blocks@.len() as int
            } else {
                config.short_term_window as int
            }),
            forall|k: int|
                0 <= k < cache@.short_term.len() ==> #[trigger] cache@.short_term[k]
                    == blocks@[blocks@.len() - cache@.short_term.len() + k].weight,
            cache@.long_term.len() == (if blocks@.len() <= config.long_term_window {
                blocks@.len() as int
            } else {
                config.long_term_window as int
            }),
            forall|k: int|
                0 <= k < cache@.long_term.len() ==> #[trigger] cache@.long_term[k]
                    == blocks@[blocks@.len() - cache@.long_term.len() + k].long_term_weight,
    {
        let mut short_term = WeightWindow::new(config.short_term_window);
        let mut long_term = WeightWindow::new(config.long_term_window);
        let mut i: usize = 0;
        while i < blocks.len()
            invariant
                i <= blocks@.len(),
                short_term.wf(),
                long_term.wf(),
                short_term.capacity == config.short_term_window,
                long_term.capacity == config.long_term_window,
                short_term.weights@ == last_of(
                    weights(blocks@.take(i as int)),
                    config.short_term_window as int,
                ),
                long_term.weights@ == last_of(
                    long_term_weights(blocks@.take(i as int)),
                    config.long_term_window as int,
                ),
            decreases blocks@.len() - i,
        {
            proof {
                let seen = blocks@.take(i as int);
                let block = blocks@[i as int];
                assert(blocks@.take(i + 1) =~= seen.push(block));
                assert(weights(seen.push(block)) =~= weights(seen).push(block.weight));
                assert(long_term_weights(seen.push(block)) =~= long_term_weights(seen).push(
                    block.long_term_weight,
                ));
                lemma_last_of_push(weights(seen), block.weight, config.short_term_window as int);
                lemma_last_of_push(
                    long_term_weights(seen),
                    block.long_term_weight,
                    config.long_term_window as int,
                );
            }
            short_term.push(blocks[i].weight);
            long_term.push(blocks[i].long_term_weight);
            i += 1;
        }
        assert(blocks@.take(i as int) =~= blocks@);
        BlockWeightsCache { config, tip_height: chain_height - 1, short_term, long_term }
    }

    /// Adds a block to the top of the chain. What falls out of a window is forgotten.
    pub fn new_block(&mut self, block_height: u64, block_weight: usize, long_term_weight: usize)
        requires
            old(self).wf(),
        ensures
            final(self).wf(),
            final(self)@ == old(self)@.new_block(
                block_height as int,
                block_weight,
                long_term_weight,
            ),
            final(self)@.config == old(self)@.config,
            final(self)@.tip_height == block_height,
            old(self)@.short_term.len() <= old(self)@.config.short_term_window,
            old(self)@.short_term.len() < old(self)@.config.short_term_window ==> final(self)@.short_term.len()
                == old(self)@.short_term.len() + 1 && forall|k: int|
                0 <= k < old(self)@.short_term.len() ==> #[trigger] final(self)@.short_term[k]
                    == old(self)@.short_term[k],
            old(self)@.short_term.len() == old(self)@.config.short_term_window ==> final(self)@.short_term.len()
                == old(self)@.short_term.len() && forall|k: int|
                0 <= k < old(self)@.short_term.len() - 1 ==> #[trigger] final(self)@.short_term[k]
                    == old(self)@.short_term[k + 1],
            old(self)@.long_term.len() <= old(self)@.config.long_term_window,
            old(self)@.long_term.len() < old(self)@.config.long_term_window ==> final(self)@.long_term.len()
                == old(self)@.long_term.len() + 1 && forall|k: int|
                0 <= k < old(self)@.long_term.len() ==> #[trigger] final(self)@.long_term[k]
                    == old(self)@.long_term[k],
            old(self)@.long_term.len() == old(self)@.config.long_term_window ==> final(self)@.long_term.len()
                == old(self)@.long_term.len() && forall|k: int|
                0 <= k < old(self)@.long_term.len() - 1 ==> #[trigger] final(self)@.long_term[k]
                    == old(self)@.long_term[k + 1],
            old(self)@.config.short_term_window > 0 ==> final(self)@.short_term.last()
                == block_weight,
            old(self)@.config.long_term_window > 0 ==> final(self)@.long_term.last()
                == long_term_weight,
    {
        self.tip_height = block_height;
        self.short_term.push(block_weight);
        self.long_term.push(long_term_weight);
    }

    /// The height of the top block.
    pub fn tip_height(&self) -> (height: u64)
        ensures
            height == self@.tip_height,
    {
        self.tip_height
    }

    /// The median weight of the blocks in the short term window.
    pub fn median_short_term_weight(&self) -> (mid: usize)
        requires
            self.wf(),
            self@.short_term.len() > 0,
        ensures
            mid == median(self@.short_term),
            forall|ranking: Seq<usize>| #[trigger]
                ranking.to_multiset() == self@.short_term.to_multiset() && (forall|i: int, j: int|
                    0 <= i <= j < ranking.len() ==> ranking[i] <= ranking[j]) ==> mid == (
                if self@.short_term.len() % 2 == 1 {
                    ranking[self@.short_term.len() as int / 2] as int
                } else {
                    (ranking[self@.short_term.len() as int / 2 - 1] + ranking[self@.short_term.len() as int
                        / 2]) / 2
                }),
    {
        proof {
            lemma_median_of_any_ranking(self@.short_term);
        }
        self.short_term.median()
    }

    /// The median long term weight of the blocks in the long term window.
    pub fn median_long_term_weight(&self) -> (mid: usize)
        requires
            self.wf(),
            self@.long_term.len() > 0,
        ensures
            mid == median(self@.long_term),
            forall|ranking: Seq<usize>| #[trigger]
                ranking.to_multiset() == self@.long_term.to_multiset() && (forall|i: int, j: int|
                    0 <= i <= j < ranking.len() ==> ranking[i] <= ranking[j]) ==> mid == (
                if self@.long_term.len() % 2 == 1 {
                    ranking[self@.long_term.len() as int / 2] as int
                } else {
                    (ranking[self@.long_term.len() as int / 2 - 1] + ranking[self@.long_term.len() as int
                        / 2]) / 2
                }),
    {
        proof {
            lemma_median_of_any_ranking(self@.long_term);
        }
        self.long_term.median()
    }
}

proof fn lemma_last_of_push<T>(items: Seq<T>, item: T, count: int)
    requires
        count >= 0,
    ensures
        last_of(last_of(items, count).push(item), count) == last_of(items.push(item), count),
{
    assert(last_of(last_of(items, count).push(item), count) =~= last_of(items.push(item), count));
}

/// Following the chain block by block and loading it anew come to the same: the cache of a chain,
/// once a block has been added, is the cache of the chain with that block on top.
pub proof fn law_new_block_is_init_of_longer_chain(
    chain_height: int,
    config: BlockWeightsCacheConfig,
    blocks: Seq<BlockWeights>,
    block: BlockWeights,
)
    ensures
        BlockWeightsView::of_chain(chain_height, config, blocks).new_block(
            chain_height,
            block.weight,
            block.long_term_weight,
        ) == BlockWeightsView::of_chain(chain_height + 1, config, blocks.push(block)),
{
    assert(weights(blocks.push(block)) =~= weights(blocks).push(block.weight));
    assert(long_term_weights(blocks.push(block)) =~= long_term_weights(blocks).push(
        block.long_term_weight,
    ));
    lemma_last_of_push(weights(blocks), block.weight, config.short_term_window as int);
    lemma_last_of_push(
        long_term_weights(blocks),
        block.long_term_weight,
        config.long_term_window as int,
    );
}

/// Blocks outside the windows are not counted: what came before the latest blocks, where these fill
/// both windows, makes no difference to the cache.
pub proof fn law_blocks_outside_windows_not_counted(
    chain_height: int,
    config: BlockWeightsCacheConfig,
    older: Seq<BlockWeights>,
    latest: Seq<BlockWeights>,
)
    requires
        latest.len() >= config.reach(),
    ensures
        BlockWeightsView::of_chain(chain_height, config, older + latest)
            == BlockWeightsView::of_chain(chain_height, config, latest),
{
    let whole = BlockWeightsView::of_chain(chain_height, config, older + latest);
    let part = BlockWeightsView::of_chain(chain_height, config, latest);
    assert(whole.short_term =~= part.short_term);
    assert(whole.long_term =~= part.long_term);
}

/// A window of a chain is empty only where the chain is, or where the window is of no blocks.
pub proof fn law_windows_hold_blocks(
    chain_height: int,
    config: BlockWeightsCacheConfig,
    blocks: Seq<BlockWeights>,
)
    ensures
        BlockWeightsView::of_chain(chain_height, config, blocks).has_medians() <==> blocks.len() > 0
            && config.short_term_window > 0 && config.long_term_window > 0,
{
}

/// Once a block has been added, both windows have a median, unless one is of no blocks.
pub proof fn law_new_block_gives_medians(
    before: BlockWeightsView,
    height: int,
    weight: usize,
    long_term_weight: usize,
)
    ensures
        before.new_block(height, weight, long_term_weight).has_medians()
            <==> before.config.short_term_window > 0 && before.config.long_term_window > 0,
{
}

/// The order of the blocks in a window makes no difference to its median.
pub proof fn law_median_ignores_order(a: Seq<usize>, b: Seq<usize>)
    requires
        a.to_multiset() == b.to_multiset(),
    ensures
        median(a) == median(b),
{
    let leq = lighter_first();
    assert(total_ordering(leq));
    a.lemma_sort_by_ensures(leq);
    b.lemma_sort_by_ensures(leq);
    vstd::seq_lib::lemma_sorted_unique(ranked(a), ranked(b), leq);
    vstd::seq_lib::to_multiset_len(a);
    vstd::seq_lib::to_multiset_len(b);
}

/// The median lies between two weights of the window: it is no lighter than the lightest and no
/// heavier than the heaviest.
pub proof fn law_median_within_weights(window: Seq<usize>)
    requires
        window.len() > 0,
    ensures
        exists|i: int| 0 <= i < window.len() && #[trigger] window[i] <= median(window),
        exists|i: int| 0 <= i < window.len() && #[trigger] window[i] >= median(window),
{
    let leq = lighter_first();
    assert(total_ordering(leq));
    window.lemma_sort_by_ensures(leq);
    let ranking = ranked(window);
    vstd::seq_lib::to_multiset_len(window);
    vstd::seq_lib::to_multiset_len(ranking);
    let mid = (window.len() / 2) as int;
    let below = if window.len() % 2 == 1 {
        ranking[mid]
    } else {
        ranking[mid - 1]
    };
    let above = ranking[mid];
    assert(leq(below, above));
    assert(ranking.contains(below) && ranking.contains(above));
    vstd::seq_lib::to_multiset_contains(ranking, below);
    vstd::seq_lib::to_multiset_contains(ranking, above);
    vstd::seq_lib::to_multiset_contains(window, below);
    vstd::seq_lib::to_multiset_contains(window, above);
    let i = choose|i: int| 0 <= i < window.len() && window[i] == below;
    let j = choose|j: int| 0 <= j < window.len() && window[j] == above;
    assert(window[i] <= median(window));
    assert(window[j] >= median(window));
}

/// How many weights pass a test can be counted in any order.
proof fn lemma_count_in_any_order(items: Seq<usize>, test: spec_fn(usize) -> bool)
    ensures
        items.filter(test).len() == items.to_multiset().filter(test).len(),
    decreases items.len(),
{
    reveal(Seq::filter);
    vstd::seq_lib::to_multiset_len(items);
    if items.len() == 0 {
        assert(items.to_multiset().filter(test) =~= items.to_multiset());
    } else {
        let rest = items.drop_last();
        let item = items.last();
        lemma_count_in_any_order(rest, test);
        assert(items =~= rest.push(item));
        vstd::seq_lib::to_multiset_build(rest, item);
        if test(item) {
            assert(items.to_multiset().filter(test) =~= rest.to_multiset().filter(test).insert(
                item,
            ));
        } else {
            assert(items.to_multiset().filter(test) =~= rest.to_multiset().filter(test));
        }
    }
}

/// Where every weight passes a test, all are counted.
proof fn lemma_count_all(items: Seq<usize>, test: spec_fn(usize) -> bool)
    requires
        forall|i: int| 0 <= i < items.len() ==> test(#[trigger] items[i]),
    ensures
        items.filter(test).len() == items.len(),
    decreases items.len(),
{
    reveal(Seq::filter);
    if items.len() > 0 {
        lemma_count_all(items.drop_last(), test);
    }
}

/// The median stands in the middle: at least half of the weights are no heavier, and at least half
/// are no lighter.
pub proof fn law_median_halves_the_window(window: Seq<usize>)
    requires
        window.len() > 0,
    ensures
        2 * window.filter(|weight: usize| weight <= median(window)).len() >= window.len(),
        2 * window.filter(|weight: usize| weight >= median(window)).len() >= window.len(),
{
    let no_heavier = |weight: usize| weight <= median(window);
    let no_lighter = |weight: usize| weight >= median(window);
    let leq = lighter_first();
    assert(total_ordering(leq));
    window.lemma_sort_by_ensures(leq);
    let ranking = ranked(window);
    vstd::seq_lib::to_multiset_len(window);
    vstd::seq_lib::to_multiset_len(ranking);
    lemma_count_in_any_order(window, no_heavier);
    lemma_count_in_any_order(window, no_lighter);
    lemma_count_in_any_order(ranking, no_heavier);
    lemma_count_in_any_order(ranking, no_lighter);
    assert(is_ascending(ranking)) by {
        assert forall|i: int, j: int| 0 <= i <= j < ranking.len() implies ranking[i]
            <= ranking[j] by {
            if i < j {
                assert(leq(ranking[i], ranking[j]));
            }
        }
    }
    let mid = (window.len() / 2) as int;
    let light = ranking.take(ranking.len() - mid);
    let heavy = ranking.skip(mid);
    let middle = ranking.skip(ranking.len() - mid);
    if window.len() % 2 == 1 {
        assert(forall|i: int| 0 <= i < light.len() ==> no_heavier(#[trigger] light[i]));
    } else {
        assert(ranking[mid - 1] <= median(window) <= ranking[mid]);
        assert(forall|i: int| 0 <= i < light.len() ==> no_heavier(#[trigger] light[i]));
    }
    assert(forall|i: int| 0 <= i < heavy.len() ==> no_lighter(#[trigger] heavy[i]));
    lemma_count_all(light, no_heavier);
    lemma_count_all(heavy, no_lighter);
    assert(light + middle =~= ranking);
    assert(ranking.take(mid) + heavy =~= ranking);
    Seq::filter_distributes_over_add(light, middle, no_heavier);
    Seq::filter_distributes_over_add(ranking.take(mid), heavy, no_lighter);
}

/// The median of the weights from 0 to `top` is half of `top`, rounded down.
pub proof fn law_median_of_consecutive_weights(top: usize)
    ensures
        median(Seq::new((top + 1) as nat, |i: int| i as usize)) == top / 2,
{
    let window = Seq::new((top + 1) as nat, |i: int| i as usize);
    law_ranking_is_unique(window, window);
}

/// A window holds as many of the latest items as it is configured for, or all where there are fewer:
/// its last item is the latest one, and counting back from there the items are those of the list.
pub proof fn law_window_holds_the_latest<T>(items: Seq<T>, count: int)
    requires
        count >= 0,
    ensures
        items.len() <= count ==> last_of(items, count).len() == items.len(),
        items.len() > count ==> last_of(items, count).len() == count,
        forall|back: int|
            1 <= back <= items.len() && back <= count ==> last_of(items, count)[last_of(
                items,
                count,
            ).len() - back] == #[trigger] items[items.len() - back],
        forall|k: int|
            0 <= k < last_of(items, count).len() ==> #[trigger] last_of(items, count)[k]
                == items[items.len() - last_of(items, count).len() + k],
{
}

/// The cache of a chain holds the weights of the latest blocks, one for one: as many as each window
/// is configured for, or all where there are fewer.
pub proof fn law_cache_holds_the_latest_weights(
    chain_height: int,
    config: BlockWeightsCacheConfig,
    blocks: Seq<BlockWeights>,
)
    ensures
        ({
            let view = BlockWeightsView::of_chain(chain_height, config, blocks);
            let n = blocks.len() as int;
            &&& view.config == config
            &&& view.tip_height == chain_height - 1
            &&& n <= config.short_term_window ==> view.short_term.len() == n
            &&& n > config.short_term_window ==> view.short_term.len() == config.short_term_window
            &&& n <= config.long_term_window ==> view.long_term.len() == n
            &&& n > config.long_term_window ==> view.long_term.len() == config.long_term_window
            &&& forall|k: int|
                0 <= k < view.short_term.len() ==> #[trigger] view.short_term[k] == blocks[n
                    - view.short_term.len() + k].weight
            &&& forall|k: int|
                0 <= k < view.long_term.len() ==> #[trigger] view.long_term[k] == blocks[n
                    - view.long_term.len() + k].long_term_weight
        }),
{
}

/// A new block comes in at the end of each window, and every block that was there moves up by one
/// place where the window is full, or stays in its place where it is not.
pub proof fn law_new_block_moves_the_windows(
    before: BlockWeightsView,
    height: int,
    weight: usize,
    long_term_weight: usize,
)
    requires
        before.short_term.len() <= before.config.short_term_window,
        before.long_term.len() <= before.config.long_term_window,
    ensures
        ({
            let after = before.new_block(height, weight, long_term_weight);
            let short_full = before.short_term.len() == before.config.short_term_window;
            let long_full = before.long_term.len() == before.config.long_term_window;
            &&& after.config == before.config
            &&& after.tip_height == height
            &&& after.short_term.len() == before.short_term.len() + (if short_full {
                0int
            } else {
                1
            })
            &&& after.short_term.len() > 0 ==> after.short_term.last() == weight
            &&& forall|k: int|
                0 <= k < after.short_term.len() - 1 ==> #[trigger] after.short_term[k]
                    == before.short_term[if short_full {
                    k + 1
                } else {
                    k
                }]
            &&& after.long_term.len() == before.long_term.len() + (if long_full {
                0int
            } else {
                1
            })
            &&& after.long_term.len() > 0 ==> after.long_term.last() == long_term_weight
            &&& forall|k: int|
                0 <= k < after.long_term.len() - 1 ==> #[trigger] after.long_term[k]
                    == before.long_term[if long_full {
                    k + 1
                } else {
                    k
                }]
        }),
{
}

/// In whatever way the weights are put in order, the median is the one in the middle, or the mean of
/// the two in the middle, rounded down.
pub proof fn law_median_is_the_middle_of_any_ranking(window: Seq<usize>, ranking: Seq<usize>)
    requires
        window.len() > 0,
        ranking.to_multiset() == window.to_multiset(),
        forall|i: int, j: int| 0 <= i <= j < ranking.len() ==> ranking[i] <= ranking[j],
    ensures
        ranking.len() == window.len(),
        window.len() % 2 == 1 ==> median(window) == ranking[window.len() as int / 2],
        window.len() % 2 == 0 ==> 2 * median(window) <= ranking[window.len() as int / 2 - 1]
            + ranking[window.len() as int / 2] <= 2 * median(window) + 1,
{
    law_ranking_is_unique(window, ranking);
    vstd::seq_lib::to_multiset_len(window);
    vstd::seq_lib::to_multiset_len(ranking);
}

/// Where every weight of a window is the same, that is the median; and where more than half of them
/// are the same, it still is.
pub proof fn law_majority_weight_is_the_median(window: Seq<usize>, weight: usize)
    requires
        2 * window.to_multiset().count(weight) > window.len(),
    ensures
        median(window) == weight,
{
    let leq = lighter_first();
    assert(total_ordering(leq));
    window.lemma_sort_by_ensures(leq);
    let ranking = ranked(window);
    vstd::seq_lib::to_multiset_len(window);
    vstd::seq_lib::to_multiset_len(ranking);
    let n = window.len() as int;
    let mid = n / 2;
    assert(is_ascending(ranking)) by {
        assert forall|i: int, j: int| 0 <= i <= j < ranking.len() implies ranking[i]
            <= ranking[j] by {
            if i < j {
                assert(leq(ranking[i], ranking[j]));
            }
        }
    }
    let same = |w: usize| w == weight;
    lemma_count_in_any_order(ranking, same);
    lemma_count_of_one(ranking, weight);
    lemma_count_of_one(window, weight);
    lemma_count_in_any_order(window, same);
    // No more than half of the weights stand on either side of the middle.
    let low = ranking.take(mid + 1);
    let high = ranking.skip(mid + 1);
    assert(low + high =~= ranking);
    Seq::filter_distributes_over_add(low, high, same);
    if ranking[mid] != weight {
        if ranking[mid] < weight {
            assert(forall|i: int| 0 <= i < low.len() ==> !same(#[trigger] low[i]));
            lemma_count_none(low, same);
            high.lemma_filter_len(same);
        } else {
            let below = ranking.take(mid);
            let above = ranking.skip(mid);
            assert(below + above =~= ranking);
            Seq::filter_distributes_over_add(below, above, same);
            assert(forall|i: int| 0 <= i < above.len() ==> !same(#[trigger] above[i]));
            lemma_count_none(above, same);
            below.lemma_filter_len(same);
        }
        assert(false);
    }
    if n % 2 == 0 && ranking[mid - 1] != weight {
        let below = ranking.take(mid);
        let above = ranking.skip(mid);
        assert(below + above =~= ranking);
        Seq::filter_distributes_over_add(below, above, same);
        assert(forall|i: int| 0 <= i < below.len() ==> !same(#[trigger] below[i]));
        lemma_count_none(below, same);
        above.lemma_filter_len(same);
        assert(false);
    }
}

/// Where no weight passes a test, none is counted.
proof fn lemma_count_none(items: Seq<usize>, test: spec_fn(usize) -> bool)
    requires
        forall|i: int| 0 <= i < items.len() ==> !test(#[trigger] items[i]),
    ensures
        items.filter(test).len() == 0,
    decreases items.len(),
{
    reveal(Seq::filter);
    if items.len() > 0 {
        lemma_count_none(items.drop_last(), test);
    }
}

/// How often a weight occurs is how many weights are the same as it.
proof fn lemma_count_of_one(items: Seq<usize>, weight: usize)
    ensures
        items.filter(|w: usize| w == weight).len() == items.to_multiset().count(weight),
    decreases items.len(),
{
    reveal(Seq::filter);
    if items.len() == 0 {
        vstd::seq_lib::to_multiset_len(items);
        vstd::seq_lib::to_multiset_contains(items, weight);
    } else {
        let rest = items.drop_last();
        lemma_count_of_one(rest, weight);
        assert(items =~= rest.push(items.last()));
        vstd::seq_lib::to_multiset_build(rest, items.last());
    }
}

/// The weights that a cache has to be given are those that either window reaches back to.
pub proof fn law_reach_is_the_larger_window(config: BlockWeightsCacheConfig)
    ensures
        config.reach() >= config.short_term_window,
        config.reach() >= config.long_term_window,
        config.reach() == config.short_term_window || config.reach() == config.long_term_window,
{
}

/// Whether there are medians is whether neither window is empty.
pub proof fn law_medians_need_blocks(view: BlockWeightsView)
    ensures
        view.has_medians() <==> view.short_term.len() >= 1 && view.long_term.len() >= 1,
{
}

} // verus!
