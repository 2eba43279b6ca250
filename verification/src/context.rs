//! # Blockchain context
//!
//! The context that the next block is validated in: what has to be known of the chain so far, kept
//! up to date block by block. It does not hold the outputs that a block spends.
pub use crate::difficulty::DifficultyCacheConfig;
pub use crate::hardforks::{HardFork, HardForkConfig};
pub use crate::weight::BlockWeightsCacheConfig;
use crate::weight::{BlockWeights, BlockWeightsCache, BlockWeightsView};
use vstd::prelude::*;

verus! {

/// What the caches behind the context are set up with.
pub struct ContextConfig {
    pub hard_fork_cfg: HardForkConfig,
    pub difficulty_cfg: DifficultyCacheConfig,
    pub weights_config: BlockWeightsCacheConfig,
}

impl ContextConfig {
    /// The configuration of Monero's main network.
    pub fn main_net() -> (config: ContextConfig)
        ensures
            config.hard_fork_cfg.is_main_net(),
            config.difficulty_cfg == (DifficultyCacheConfig { window: 720, cut: 60, lag: 15 }),
            config.weights_config == (BlockWeightsCacheConfig {
                short_term_window: 100,
                long_term_window: 100_000,
            }),
    {
        ContextConfig {
            hard_fork_cfg: HardForkConfig::main_net(),
            difficulty_cfg: DifficultyCacheConfig::main_net(),
            weights_config: BlockWeightsCacheConfig::main_net(),
        }
    }
}

/// The context of the next block.
#[derive(Debug, Clone, Copy)]
pub struct BlockChainContext {
    /// The next blocks difficulty.
    pub next_difficulty: u128,
    /// The current cumulative difficulty.
    pub cumulative_difficulty: u128,
    /// The current effective median block weight.
    pub effective_median_weight: usize,
    /// The median long term block weight.
    pub median_long_term_weight: usize,
    /// Median weight to use for block reward calculations.
    pub median_weight_for_block_reward: usize,
    /// The amount of coins minted already.
    pub already_generated_coins: u64,
    /// Timestamp to use to check time locked outputs.
    pub time_lock_timestamp: u64,
    /// The height of the chain.
    pub chain_height: u64,
    /// The top blocks hash.
    pub top_hash: [u8; 32],
    /// The current hard fork.
    pub current_hard_fork: HardFork,
}

/// A request for the context of the next block.
#[derive(Debug, Clone, Copy)]
pub struct BlockChainContextRequest;

/// What the context has to be told of a new top block.
#[derive(Debug, Clone, Copy)]
pub struct UpdateBlockchainCacheRequest {
    pub new_top_hash: [u8; 32],
    pub height: u64,
    pub timestamp: u64,
    pub weight: usize,
    pub long_term_weight: usize,
    pub generated_coins: u64,
    pub vote: HardFork,
}

/// What the caches and rules beside the context say of the next block, in answer to one
/// [`CacheQuestions`], whose hard fork is the current one.
#[derive(Debug, Clone, Copy)]
pub struct CacheReadings {
    pub current_hard_fork: HardFork,
    pub next_difficulty: u128,
    pub cumulative_difficulty: u128,
    pub effective_median_weight: usize,
    pub median_weight_for_block_reward: usize,
    pub time_lock_timestamp: u64,
}

/// What the caches and rules beside the context are asked about the next block with: the current hard
/// fork, and the medians of the latest blocks.
#[derive(Debug, Clone, Copy, PartialEq, Eq, Structural)]
pub struct CacheQuestions {
    pub current_hard_fork: HardFork,
    pub median_short_term_weight: usize,
    pub median_long_term_weight: usize,
}

/// What a database is asked for when a context is set up.
#[derive(Debug, Clone, Copy, PartialEq, Eq, Structural)]
pub enum ChainQuestion {
    ChainHeight,
    GeneratedCoins,
}

/// What a database answers.
#[derive(Debug, Clone, Copy)]
pub enum ChainAnswer {
    /// The number of blocks in the chain, and the hash of the top one.
    ChainHeight(u64, [u8; 32]),
    /// The amount of coins minted so far.
    GeneratedCoins(u64),
    /// An answer to something else.
    Other,
}

/// The database sent an answer to something it was not asked.
#[derive(Debug, Clone, Copy, PartialEq, Eq, Structural)]
pub struct IncorrectAnswer;

/// How far the chain has come.
#[derive(Debug, Clone, Copy)]
pub struct ChainTip {
    /// The height of the chain.
    pub chain_height: u64,
    /// The top blocks hash.
    pub top_block_hash: [u8; 32],
    /// The amount of coins minted already.
    pub already_generated_coins: u64,
}

/// What a cache is loaded with: the height of the chain, and the cache's own configuration.
#[derive(Debug, Clone, Copy)]
pub struct CacheLoad<C> {
    pub chain_height: u64,
    pub config: C,
}

/// What each of the caches is loaded with.
#[derive(Debug, Clone, Copy)]
pub struct CacheLoads {
    pub difficulty: CacheLoad<DifficultyCacheConfig>,
    pub weights: CacheLoad<BlockWeightsCacheConfig>,
    pub hard_fork: CacheLoad<HardForkConfig>,
}

impl ContextConfig {
    /// What each cache is loaded with, for a chain that has come to `tip`.
    pub open spec fn loads(self, tip: ChainTip) -> CacheLoads {
        CacheLoads {
            difficulty: CacheLoad { chain_height: tip.chain_height, config: self.difficulty_cfg },
            weights: CacheLoad { chain_height: tip.chain_height, config: self.weights_config },
            hard_fork: CacheLoad { chain_height: tip.chain_height, config: self.hard_fork_cfg },
        }
    }

    /// Lists what each cache is loaded with, for a chain that has come to `tip`.
    pub fn cache_loads(&self, tip: &ChainTip) -> (loads: CacheLoads)
        ensures
            loads == self.loads(*tip),
            loads == (CacheLoads {
                difficulty: CacheLoad {
                    chain_height: tip.chain_height,
                    config: self.difficulty_cfg,
                },
                weights: CacheLoad { chain_height: tip.chain_height, config: self.weights_config },
                hard_fork: CacheLoad { chain_height: tip.chain_height, config: self.hard_fork_cfg },
            }),
    {
        CacheLoads {
            difficulty: CacheLoad { chain_height: tip.chain_height, config: self.difficulty_cfg },
            weights: CacheLoad { chain_height: tip.chain_height, config: self.weights_config },
            hard_fork: CacheLoad { chain_height: tip.chain_height, config: self.hard_fork_cfg },
        }
    }
}

/// A context that is being set up.
#[derive(Debug, Clone, Copy)]
pub enum ContextInit {
    /// The height of the chain has been asked for.
    ChainHeight,
    /// The amount of minted coins has been asked for.
    GeneratedCoins { chain_height: u64, top_block_hash: [u8; 32] },
    /// All is known of the chain that has to be asked for: the caches can be loaded.
    Caches(ChainTip),
}

impl ContextInit {
    /// Starts to set up a context.
    pub fn start() -> (init: ContextInit)
        ensures
            init is ChainHeight,
    {
        ContextInit::ChainHeight
    }

    /// What to ask the database for, until the caches can be loaded.
    pub fn question(&self) -> (question: Option<ChainQuestion>)
        ensures
            question == match *self {
                ContextInit::ChainHeight => Some(ChainQuestion::ChainHeight),
                ContextInit::GeneratedCoins { .. } => Some(ChainQuestion::GeneratedCoins),
                ContextInit::Caches(_) => None,
            },
    {
        match self {
            ContextInit::ChainHeight => Some(ChainQuestion::ChainHeight),
            ContextInit::GeneratedCoins { .. } => Some(ChainQuestion::GeneratedCoins),
            ContextInit::Caches(_) => None,
        }
    }

    /// What comes after an answer, where the answer is to the question.
    pub open spec fn next(self, answer: ChainAnswer) -> Option<ContextInit> {
        match (self, answer) {
            (
                ContextInit::ChainHeight,
                ChainAnswer::ChainHeight(chain_height, top_block_hash),
            ) => Some(ContextInit::GeneratedCoins { chain_height, top_block_hash }),
            (
                ContextInit::GeneratedCoins { chain_height, top_block_hash },
                ChainAnswer::GeneratedCoins(already_generated_coins),
            ) => Some(
                ContextInit::Caches(
                    ChainTip { chain_height, top_block_hash, already_generated_coins },
                ),
            ),
            _ => None,
        }
    }

    /// Takes the database's answer. One that is not to the question is refused.
    pub fn answer(self, answer: ChainAnswer) -> (next: Result<ContextInit, IncorrectAnswer>)
        ensures
            next == match self.next(answer) {
                Some(init) => Ok::<ContextInit, IncorrectAnswer>(init),
                None => Err(IncorrectAnswer),
            },
            self is Caches ==> next is Err,
            self is ChainHeight ==> (next is Ok <==> answer is ChainHeight),
            self is GeneratedCoins ==> (next is Ok <==> answer is GeneratedCoins),
    {
        match (self, answer) {
            (
                ContextInit::ChainHeight,
                ChainAnswer::ChainHeight(chain_height, top_block_hash),
            ) => Ok(ContextInit::GeneratedCoins { chain_height, top_block_hash }),
            (
                ContextInit::GeneratedCoins { chain_height, top_block_hash },
                ChainAnswer::GeneratedCoins(already_generated_coins),
            ) => Ok(
                ContextInit::Caches(
                    ChainTip { chain_height, top_block_hash, already_generated_coins },
                ),
            ),
            _ => Err(IncorrectAnswer),
        }
    }
}

/// What a [`BlockChainContextService`] holds.
#[verifier::ext_equal]
pub struct ContextView {
    pub weights: BlockWeightsView,
    pub tip: ChainTip,
}

/// The coins minted once `generated` more have been: as many as can be counted.
pub open spec fn coins_after(already: u64, generated: u64) -> u64 {
    if already + generated > u64::MAX {
        u64::MAX
    } else {
        (already + generated) as u64
    }
}

/// The failure to load that counts, where a cache failed to load.
pub open spec fn first_failure<C, E>(
    difficulty: Result<(), E>,
    weights: Result<C, E>,
    hard_fork: Result<(), E>,
) -> Option<E> {
    match (difficulty, weights, hard_fork) {
        (Err(error), _, _) => Some(error),
        (_, Err(error), _) => Some(error),
        (_, _, Err(error)) => Some(error),
        _ => None,
    }
}

/// How far the update of the context with a new block has come.
#[derive(Debug, Clone, Copy, PartialEq, Eq, Structural)]
pub enum UpdateStage {
    /// The difficulty cache is being given the block.
    Difficulty,
    /// The hard fork state is being given the block.
    HardFork,
    /// The context is that of the block after the new one.
    Finished,
    /// A cache did not take the block.
    Failed,
}

/// What to give a cache beside the context.
#[derive(Debug, Clone, Copy, PartialEq, Eq, Structural)]
pub enum CacheUpdate {
    Difficulty { height: u64, timestamp: u64 },
    HardFork { vote: HardFork, height: u64 },
}

impl UpdateStage {
    /// What is given to a cache at this stage of the update with the block of `new`.
    pub open spec fn gives(self, new: UpdateBlockchainCacheRequest) -> Option<CacheUpdate> {
        match self {
            UpdateStage::Difficulty => Some(
                CacheUpdate::Difficulty { height: new.height, timestamp: new.timestamp },
            ),
            UpdateStage::HardFork => Some(
                CacheUpdate::HardFork { vote: new.vote, height: new.height },
            ),
            _ => None,
        }
    }

    /// What has to be done at this stage of the update with the block of `new`.
    pub fn cache_update(&self, new: &UpdateBlockchainCacheRequest) -> (update: Option<CacheUpdate>)
        ensures
            update == self.gives(*new),
            update == match *self {
                UpdateStage::Difficulty => Some(
                    CacheUpdate::Difficulty { height: new.height, timestamp: new.timestamp },
                ),
                UpdateStage::HardFork => Some(
                    CacheUpdate::HardFork { vote: new.vote, height: new.height },
                ),
                UpdateStage::Finished => None,
                UpdateStage::Failed => None,
            },
    {
        match self {
            UpdateStage::Difficulty => Some(
                CacheUpdate::Difficulty { height: new.height, timestamp: new.timestamp },
            ),
            UpdateStage::HardFork => Some(
                CacheUpdate::HardFork { vote: new.vote, height: new.height },
            ),
            UpdateStage::Finished => None,
            UpdateStage::Failed => None,
        }
    }

    /// The stage after this one, given whether the cache took the block.
    pub open spec fn next(self, taken: bool) -> UpdateStage {
        match self {
            UpdateStage::Difficulty => if taken {
                UpdateStage::HardFork
            } else {
                UpdateStage::Failed
            },
            UpdateStage::HardFork => if taken {
                UpdateStage::Finished
            } else {
                UpdateStage::Failed
            },
            UpdateStage::Finished => UpdateStage::Finished,
            UpdateStage::Failed => UpdateStage::Failed,
        }
    }
}

impl ContextView {
    /// With the block of `new` among the weights.
    pub open spec fn with_weights(self, new: UpdateBlockchainCacheRequest) -> ContextView {
        ContextView {
            weights: self.weights.new_block(new.height as int, new.weight, new.long_term_weight),
            tip: self.tip,
        }
    }

    /// With the block of `new` as the top of the chain.
    pub open spec fn with_tip(self, new: UpdateBlockchainCacheRequest) -> ContextView {
        ContextView {
            weights: self.weights,
            tip: ChainTip {
                chain_height: (new.height + 1) as u64,
                top_block_hash: new.new_top_hash,
                already_generated_coins: coins_after(
                    self.tip.already_generated_coins,
                    new.generated_coins,
                ),
            },
        }
    }

    /// What is held after a stage of the update with the block of `new`, given whether the cache
    /// took the block.
    pub open spec fn next(
        self,
        stage: UpdateStage,
        taken: bool,
        new: UpdateBlockchainCacheRequest,
    ) -> ContextView {
        match stage {
            UpdateStage::Difficulty if taken => self.with_weights(new),
            UpdateStage::HardFork if taken => self.with_tip(new),
            _ => self,
        }
    }

    /// What is held once both caches beside the context were given the block of `new`, in turn, and
    /// each took it or did not.
    pub open spec fn after_update(
        self,
        new: UpdateBlockchainCacheRequest,
        difficulty_took: bool,
        hard_fork_took: bool,
    ) -> ContextView {
        self.next(UpdateStage::Difficulty, difficulty_took, new).next(
            UpdateStage::Difficulty.next(difficulty_took),
            hard_fork_took,
            new,
        )
    }

    /// What is held once each block of `news` has been taken, in order.
    pub open spec fn after_blocks(self, news: Seq<UpdateBlockchainCacheRequest>) -> ContextView
        decreases news.len(),
    {
        if news.len() == 0 {
            self
        } else {
            self.after_blocks(news.drop_last()).after_update(news.last(), true, true)
        }
    }

    /// The context of the next block.
    pub open spec fn context(self, readings: CacheReadings) -> BlockChainContext {
        BlockChainContext {
            next_difficulty: readings.next_difficulty,
            cumulative_difficulty: readings.cumulative_difficulty,
            effective_median_weight: readings.effective_median_weight,
            median_long_term_weight: crate::weight::median(self.weights.long_term) as usize,
            median_weight_for_block_reward: readings.median_weight_for_block_reward,
            already_generated_coins: self.tip.already_generated_coins,
            time_lock_timestamp: readings.time_lock_timestamp,
            chain_height: self.tip.chain_height,
            top_hash: self.tip.top_block_hash,
            current_hard_fork: readings.current_hard_fork,
        }
    }
}

/// The part of the context that is kept here: the weights of the latest blocks, and how far the
/// chain has come.
pub struct BlockChainContextService {
    pub weight_cache: BlockWeightsCache,
    pub tip: ChainTip,
}

impl View for BlockChainContextService {
    type V = ContextView;

    open spec fn view(&self) -> ContextView {
        ContextView { weights: self.weight_cache@, tip: self.tip }
    }
}

impl BlockChainContextService {
    pub open spec fn wf(&self) -> bool {
        self.weight_cache.wf()
    }

    /// The service of a chain that has come to `tip`, once each cache has been loaded or has failed
    /// to load. Where more than one failed, the failure of the difficulty cache counts first, then
    /// that of the weights.
    pub fn new<E>(
        tip: ChainTip,
        difficulty: Result<(), E>,
        weights: Result<BlockWeightsCache, E>,
        hard_fork: Result<(), E>,
    ) -> (service: Result<BlockChainContextService, E>)
        requires
            weights matches Ok(cache) ==> cache.wf(),
        ensures
            service is Err <==> first_failure(difficulty, weights, hard_fork) is Some,
            service matches Err(error) ==> first_failure(difficulty, weights, hard_fork) == Some(
                error,
            ),
            match (difficulty, weights, hard_fork) {
                (Err(error), _, _) => service == Err::<BlockChainContextService, E>(error),
                (_, Err(error), _) => service == Err::<BlockChainContextService, E>(error),
                (_, _, Err(error)) => service == Err::<BlockChainContextService, E>(error),
                (Ok(_), Ok(cache), Ok(_)) => {
                    &&& service is Ok
                    &&& service->Ok_0.wf()
                    &&& service->Ok_0@ == (ContextView { weights: cache@, tip })
                    &&& service->Ok_0.weight_cache == cache
                    &&& service->Ok_0.tip == tip
                },
            },
    {
        match difficulty {
            Err(error) => Err(error),
            Ok(()) => match weights {
                Err(error) => Err(error),
                Ok(weight_cache) => match hard_fork {
                    Err(error) => Err(error),
                    Ok(()) => Ok(BlockChainContextService { weight_cache, tip }),
                },
            },
        }
    }

    /// What the caches and rules beside the context are asked with, for the hard fork that the hard
    /// fork state gives as the current one.
    pub fn questions(&self, current_hard_fork: HardFork) -> (questions: CacheQuestions)
        requires
            self.wf(),
            self@.weights.has_medians(),
        ensures
            questions.current_hard_fork == current_hard_fork,
            questions.median_short_term_weight == crate::weight::median(self@.weights.short_term),
            questions.median_long_term_weight == crate::weight::median(self@.weights.long_term),
    {
        CacheQuestions {
            current_hard_fork,
            median_short_term_weight: self.weight_cache.median_short_term_weight(),
            median_long_term_weight: self.weight_cache.median_long_term_weight(),
        }
    }

    /// The context of the next block, with what the other caches say of it.
    pub fn call(
        &self,
        _request: BlockChainContextRequest,
        readings: CacheReadings,
    ) -> (context: BlockChainContext)
        requires
            self.wf(),
            self@.weights.long_term.len() > 0,
        ensures
            context == self@.context(readings),
            context.next_difficulty == readings.next_difficulty,
            context.cumulative_difficulty == readings.cumulative_difficulty,
            context.effective_median_weight == readings.effective_median_weight,
            context.median_long_term_weight == crate::weight::median(self@.weights.long_term),
            context.median_weight_for_block_reward == readings.median_weight_for_block_reward,
            context.already_generated_coins == self.tip.already_generated_coins,
            context.time_lock_timestamp == readings.time_lock_timestamp,
            context.chain_height == self.tip.chain_height,
            context.top_hash == self.tip.top_block_hash,
            context.current_hard_fork == readings.current_hard_fork,
    {
        BlockChainContext {
            next_difficulty: readings.next_difficulty,
            cumulative_difficulty: readings.cumulative_difficulty,
            effective_median_weight: readings.effective_median_weight,
            median_long_term_weight: self.weight_cache.median_long_term_weight(),
            median_weight_for_block_reward: readings.median_weight_for_block_reward,
            already_generated_coins: self.tip.already_generated_coins,
            time_lock_timestamp: readings.time_lock_timestamp,
            chain_height: self.tip.chain_height,
            top_hash: self.tip.top_block_hash,
            current_hard_fork: readings.current_hard_fork,
        }
    }

    /// Goes on with the update of the context with the block of `new`, given whether the cache that
    /// `stage` is about took the block. The block is added to the weights once the difficulty cache
    /// has it, and becomes the top of the chain once the hard fork state has it too.
    pub fn update(
        &mut self,
        stage: UpdateStage,
        taken: bool,
        new: &UpdateBlockchainCacheRequest,
    ) -> (next: UpdateStage)
        requires
            old(self).wf(),
            stage is HardFork && taken ==> new.height < u64::MAX,
        ensures
            final(self).wf(),
            final(self)@ == old(self)@.next(stage, taken, *new),
            next == stage.next(taken),
            !taken ==> final(self).weight_cache@ == old(self).weight_cache@ && final(self).tip
                == old(self).tip,
            !taken && !(stage is Finished) ==> next is Failed,
            stage is Difficulty && taken ==> {
                &&& next is HardFork
                &&& final(self).tip == old(self).tip
                &&& final(self).weight_cache@ == old(self).weight_cache@.new_block(
                    new.height as int,
                    new.weight,
                    new.long_term_weight,
                )
            },
            stage is HardFork && taken ==> {
                &&& next is Finished
                &&& final(self).weight_cache@ == old(self).weight_cache@
                &&& final(self).tip.chain_height == new.height + 1
                &&& final(self).tip.top_block_hash == new.new_top_hash
                &&& final(self).tip.already_generated_coins == (if old(self).tip.already_generated_coins + new.generated_coins <= u64::MAX {
                    old(self).tip.already_generated_coins + new.generated_coins
                } else {
                    u64::MAX as int
                })
            },
            stage is Finished || stage is Failed ==> {
                &&& next == stage
                &&& final(self).tip == old(self).tip
                &&& final(self).weight_cache@ == old(self).weight_cache@
            },
    {
        match stage {
            UpdateStage::Difficulty => {
                if !taken {
                    return UpdateStage::Failed;
                }
                self.weight_cache.new_block(new.height, new.weight, new.long_term_weight);
                UpdateStage::HardFork
            },
            UpdateStage::HardFork => {
                if !taken {
                    return UpdateStage::Failed;
                }
                self.tip = ChainTip {
                    chain_height: new.height + 1,
                    top_block_hash: new.new_top_hash,
                    already_generated_coins: self.tip.already_generated_coins.saturating_add(
                        new.generated_coins,
                    ),
                };
                UpdateStage::Finished
            },
            UpdateStage::Finished => UpdateStage::Finished,
            UpdateStage::Failed => UpdateStage::Failed,
        }
    }
}

/// The coins that the blocks of `news` minted.
pub open spec fn coins_of(news: Seq<UpdateBlockchainCacheRequest>) -> nat
    decreases news.len(),
{
    if news.len() == 0 {
        0
    } else {
        coins_of(news.drop_last()) + news.last().generated_coins as nat
    }
}

/// The weights of the blocks of `news`.
pub open spec fn weights_of(news: Seq<UpdateBlockchainCacheRequest>) -> Seq<BlockWeights> {
    news.map_values(
        |new: UpdateBlockchainCacheRequest|
            BlockWeights { weight: new.weight, long_term_weight: new.long_term_weight },
    )
}

/// An update finishes exactly where both caches took the block. Where the difficulty cache did not
/// take it, nothing has changed; where the hard fork state did not, only the weights have. The top
/// of the chain moves on only in an update that finishes.
pub proof fn law_update_is_in_order(
    before: ContextView,
    new: UpdateBlockchainCacheRequest,
    difficulty_took: bool,
    hard_fork_took: bool,
)
    ensures
        UpdateStage::Difficulty.next(difficulty_took).next(hard_fork_took) == (if difficulty_took
            && hard_fork_took {
            UpdateStage::Finished
        } else {
            UpdateStage::Failed
        }),
        before.after_update(new, difficulty_took, hard_fork_took) == (if !difficulty_took {
            before
        } else if !hard_fork_took {
            before.with_weights(new)
        } else {
            before.with_weights(new).with_tip(new)
        }),
        !(difficulty_took && hard_fork_took) ==> before.after_update(
            new,
            difficulty_took,
            hard_fork_took,
        ).tip == before.tip,
{
}

/// A context that is read after an update shows the new block: the chain ends with it, its coins
/// have been minted, and it counts among the weights.
pub proof fn law_read_shows_update(
    before: ContextView,
    new: UpdateBlockchainCacheRequest,
    readings: CacheReadings,
)
    requires
        new.height < u64::MAX,
    ensures
        ({
            let context = before.after_update(new, true, true).context(readings);
            &&& context.chain_height == new.height + 1
            &&& context.top_hash == new.new_top_hash
            &&& context.already_generated_coins == coins_after(
                before.tip.already_generated_coins,
                new.generated_coins,
            )
            &&& before.weights.config.long_term_window > 0 ==> context.median_long_term_weight
                == crate::weight::median(
                crate::weight::last_of(
                    before.weights.long_term.push(new.long_term_weight),
                    before.weights.config.long_term_window as int,
                ),
            )
            &&& context.current_hard_fork == readings.current_hard_fork
            &&& context.time_lock_timestamp == readings.time_lock_timestamp
        }),
{
    let after = before.after_update(new, true, true).weights.long_term;
    if before.weights.config.long_term_window > 0 {
        crate::weight::law_median_within_weights(after);
    }
}

/// The amount of minted coins never goes down, whatever becomes of an update.
pub proof fn law_coins_never_decrease(
    before: ContextView,
    new: UpdateBlockchainCacheRequest,
    difficulty_took: bool,
    hard_fork_took: bool,
)
    ensures
        before.after_update(new, difficulty_took, hard_fork_took).tip.already_generated_coins
            >= before.tip.already_generated_coins,
{
}

/// After a run of blocks the minted coins are those from before and those of all the blocks, or as
/// many as can be counted.
pub proof fn law_coins_add_up(before: ContextView, news: Seq<UpdateBlockchainCacheRequest>)
    ensures
        before.after_blocks(news).tip.already_generated_coins == (if before.tip.already_generated_coins
            + coins_of(news) > u64::MAX {
            u64::MAX as int
        } else {
            before.tip.already_generated_coins + coins_of(news)
        }),
    decreases news.len(),
{
    if news.len() > 0 {
        law_coins_add_up(before, news.drop_last());
    }
}

/// Following the chain and setting the context up anew come to the same: the context of a chain,
/// updated with the blocks that come next, holds the weights and the height of the longer chain, and
/// the hash of its top block.
pub proof fn law_updates_follow_the_chain(
    before: ContextView,
    config: BlockWeightsCacheConfig,
    blocks: Seq<BlockWeights>,
    news: Seq<UpdateBlockchainCacheRequest>,
)
    requires
        before.weights == BlockWeightsView::of_chain(before.tip.chain_height as int, config, blocks),
        forall|i: int|
            0 <= i < news.len() ==> (#[trigger] news[i]).height == before.tip.chain_height + i,
        before.tip.chain_height + news.len() <= u64::MAX,
    ensures
        before.after_blocks(news).weights == BlockWeightsView::of_chain(
            before.tip.chain_height + news.len(),
            config,
            blocks + weights_of(news),
        ),
        before.after_blocks(news).tip.chain_height == before.tip.chain_height + news.len(),
        news.len() > 0 ==> before.after_blocks(news).tip.top_block_hash == news.last().new_top_hash,
    decreases news.len(),
{
    if news.len() == 0 {
        assert(blocks + weights_of(news) =~= blocks);
    } else {
        let earlier = news.drop_last();
        let new = news.last();
        let block = BlockWeights { weight: new.weight, long_term_weight: new.long_term_weight };
        law_updates_follow_the_chain(before, config, blocks, earlier);
        assert(blocks + weights_of(news) =~= (blocks + weights_of(earlier)).push(block));
        crate::weight::law_new_block_is_init_of_longer_chain(
            before.tip.chain_height + earlier.len(),
            config,
            blocks + weights_of(earlier),
            block,
        );
    }
}

/// A context is set up after two answers and no others: the height of the chain with the hash of its
/// top block, and then the coins that were minted. It starts from exactly these.
pub proof fn law_init_takes_two_answers(first: ChainAnswer, second: ChainAnswer, tip: ChainTip)
    ensures
        (ContextInit::ChainHeight.next(first) matches Some(init) && init.next(second) == Some(
            ContextInit::Caches(tip),
        )) <==> {
            &&& first == ChainAnswer::ChainHeight(tip.chain_height, tip.top_block_hash)
            &&& second == ChainAnswer::GeneratedCoins(tip.already_generated_coins)
        },
{
}

/// An answer is taken where it is to the question that was asked, whatever it holds, and is refused
/// everywhere else. Once the caches can be loaded there is no question, and no answer is taken.
pub proof fn law_only_the_answer_asked_for_is_taken(init: ContextInit, answer: ChainAnswer)
    ensures
        init is ChainHeight ==> (init.next(answer) is Some <==> answer is ChainHeight),
        init is GeneratedCoins ==> (init.next(answer) is Some <==> answer is GeneratedCoins),
        init is Caches ==> init.next(answer) is None,
        init is ChainHeight && init.next(answer) is Some ==> init.next(answer)->0 is GeneratedCoins,
        init is GeneratedCoins && init.next(answer) is Some ==> init.next(answer)->0 is Caches,
{
}

/// A context shows what it was read from unchanged: each figure of the readings under its own name,
/// the tip of the chain, and the median of the long term weights.
pub proof fn law_context_shows_readings_unchanged(view: ContextView, readings: CacheReadings)
    ensures
        ({
            let context = view.context(readings);
            &&& context.next_difficulty == readings.next_difficulty
            &&& context.cumulative_difficulty == readings.cumulative_difficulty
            &&& context.effective_median_weight == readings.effective_median_weight
            &&& context.median_weight_for_block_reward == readings.median_weight_for_block_reward
            &&& context.time_lock_timestamp == readings.time_lock_timestamp
            &&& context.current_hard_fork == readings.current_hard_fork
            &&& context.already_generated_coins == view.tip.already_generated_coins
            &&& context.chain_height == view.tip.chain_height
            &&& context.top_hash == view.tip.top_block_hash
            &&& view.weights.long_term.len() > 0 ==> context.median_long_term_weight
                == crate::weight::median(view.weights.long_term)
        }),
{
    if view.weights.long_term.len() > 0 {
        crate::weight::law_median_within_weights(view.weights.long_term);
    }
}

/// Two contexts are the same only where they were read with the same readings: nothing that the
/// caches say is lost.
pub proof fn law_context_loses_no_reading(view: ContextView, a: CacheReadings, b: CacheReadings)
    requires
        view.context(a) == view.context(b),
    ensures
        a == b,
{
}

/// Minted coins are added in full as long as the sum can be counted, and no sum is beyond the largest
/// count.
pub proof fn law_coins_are_added_in_full(already: u64, generated: u64)
    ensures
        already + generated <= u64::MAX ==> coins_after(already, generated) == already + generated,
        already + generated > u64::MAX ==> coins_after(already, generated) == u64::MAX,
{
}

/// The coins of a run of blocks are those of each of its parts, and those of one block are what it
/// minted.
pub proof fn law_coins_of_parts(
    a: Seq<UpdateBlockchainCacheRequest>,
    b: Seq<UpdateBlockchainCacheRequest>,
    new: UpdateBlockchainCacheRequest,
)
    ensures
        coins_of(a + b) == coins_of(a) + coins_of(b),
        coins_of(seq![new]) == new.generated_coins,
    decreases b.len(),
{
    assert(seq![new].drop_last() =~= Seq::<UpdateBlockchainCacheRequest>::empty());
    assert(coins_of(seq![new].drop_last()) == 0);
    if b.len() == 0 {
        assert(a + b =~= a);
    } else {
        law_coins_of_parts(a, b.drop_last(), new);
        assert((a + b).drop_last() =~= a + b.drop_last());
    }
}

/// What a finished update leaves: the new block at the end of the weights, and the chain one block
/// higher than it, with its hash, and with its coins on top of those from before. What a cache did
/// not take leaves the tip as it was.
pub proof fn law_update_leaves_the_new_block(
    before: ContextView,
    new: UpdateBlockchainCacheRequest,
    difficulty_took: bool,
    hard_fork_took: bool,
)
    requires
        new.height < u64::MAX,
        before.weights.config.short_term_window > 0,
        before.weights.config.long_term_window > 0,
    ensures
        ({
            let after = before.after_update(new, difficulty_took, hard_fork_took);
            &&& difficulty_took ==> {
                &&& after.weights.tip_height == new.height
                &&& after.weights.config == before.weights.config
                &&& after.weights.short_term.last() == new.weight
                &&& after.weights.long_term.last() == new.long_term_weight
            }
            &&& !difficulty_took ==> after.weights == before.weights
            &&& difficulty_took && hard_fork_took ==> {
                &&& after.tip.chain_height == new.height + 1
                &&& after.tip.top_block_hash == new.new_top_hash
                &&& before.tip.already_generated_coins + new.generated_coins <= u64::MAX
                    ==> after.tip.already_generated_coins == before.tip.already_generated_coins
                    + new.generated_coins
                &&& before.tip.already_generated_coins + new.generated_coins > u64::MAX
                    ==> after.tip.already_generated_coins == u64::MAX
            }
            &&& !(difficulty_took && hard_fork_took) ==> after.tip == before.tip
        }),
{
}

/// An update ends after two outcomes: with the block in place where both caches took it, and else in
/// failure; and it stays so whatever is said afterwards.
pub proof fn law_update_stages_end(a: bool, b: bool, c: bool)
    ensures
        UpdateStage::Difficulty.next(a) is HardFork <==> a,
        UpdateStage::Difficulty.next(a) is Failed <==> !a,
        UpdateStage::Difficulty.next(a).next(b) is Finished <==> a && b,
        UpdateStage::Difficulty.next(a).next(b) is Failed <==> !(a && b),
        UpdateStage::Difficulty.next(a).next(b).next(c) == UpdateStage::Difficulty.next(a).next(b),
{
}

/// The weights of a run of blocks are those of its blocks, one for one.
pub proof fn law_weights_of_each_block(news: Seq<UpdateBlockchainCacheRequest>)
    ensures
        weights_of(news).len() == news.len(),
        forall|i: int|
            0 <= i < news.len() ==> (#[trigger] weights_of(news)[i]).weight == news[i].weight,
        forall|i: int|
            0 <= i < news.len() ==> (#[trigger] weights_of(news)[i]).long_term_weight
                == news[i].long_term_weight,
{
}

/// The caches are given the block in turn: first the difficulty cache its height and timestamp, then
/// the hard fork state its vote and height. Nothing is given once the update is over.
pub proof fn law_caches_are_given_the_block_in_turn(
    new: UpdateBlockchainCacheRequest,
    taken: bool,
    taken_too: bool,
)
    ensures
        UpdateStage::Difficulty.gives(new) matches Some(CacheUpdate::Difficulty {
            height,
            timestamp,
        }) && height == new.height && timestamp == new.timestamp,
        taken ==> (UpdateStage::Difficulty.next(taken).gives(new) matches Some(
            CacheUpdate::HardFork { vote, height },
        ) && vote == new.vote && height == new.height),
        !taken ==> UpdateStage::Difficulty.next(taken).gives(new) is None,
        UpdateStage::Difficulty.next(taken).next(taken_too).gives(new) is None,
{
}

/// Every cache is loaded for the height of the chain, and with its own part of the configuration.
pub proof fn law_caches_are_loaded_for_the_chain_height(config: ContextConfig, tip: ChainTip)
    ensures
        config.loads(tip).difficulty.chain_height == tip.chain_height,
        config.loads(tip).weights.chain_height == tip.chain_height,
        config.loads(tip).hard_fork.chain_height == tip.chain_height,
        config.loads(tip).difficulty.config == config.difficulty_cfg,
        config.loads(tip).weights.config == config.weights_config,
        config.loads(tip).hard_fork.config == config.hard_fork_cfg,
{
}

/// There is a failure exactly where some cache failed to load, and the one that counts is that of the
/// first cache that failed.
pub proof fn law_first_failure_counts<C, E>(
    difficulty: Result<(), E>,
    weights: Result<C, E>,
    hard_fork: Result<(), E>,
)
    ensures
        first_failure(difficulty, weights, hard_fork) is None <==> difficulty is Ok && weights is Ok
            && hard_fork is Ok,
        difficulty is Err ==> first_failure(difficulty, weights, hard_fork) == Some(
            difficulty->Err_0,
        ),
        difficulty is Ok && weights is Err ==> first_failure(difficulty, weights, hard_fork) == Some(
            weights->Err_0,
        ),
        difficulty is Ok && weights is Ok && hard_fork is Err ==> first_failure(
            difficulty,
            weights,
            hard_fork,
        ) == Some(hard_fork->Err_0),
{
}

} // verus!
