//! Scanning a chain: how blocks are prepared, verified one by one, and what each verified block leads
//! to.
use crate::calls::BlockRange;
use crate::context::UpdateBlockchainCacheRequest;
use crate::hardforks::HardFork;
use std::collections::VecDeque;
use vstd::prelude::*;

verus! {

/// How many blocks are prepared for verification at once.
pub const BLOCKS_IN_PREPARATION: usize = 150;

/// How many blocks apart the cache is saved.
pub const SAVE_INTERVAL: u64 = 5000;

/// The height that the chain is scanned to.
pub const SCAN_TO_HEIGHT: u64 = 3_000_000;

/// How many of `waiting` blocks are prepared next.
pub open spec fn next_preparation(waiting: nat) -> int {
    if waiting <= BLOCKS_IN_PREPARATION {
        waiting as int
    } else {
        BLOCKS_IN_PREPARATION as int
    }
}

/// Takes the blocks that are prepared next off the front of those that are waiting.
pub fn take_preparation<B>(waiting: &mut Vec<B>) -> (prepared: Vec<B>)
    ensures
        prepared@ == old(waiting)@.take(next_preparation(old(waiting)@.len())),
        final(waiting)@ == old(waiting)@.skip(next_preparation(old(waiting)@.len())),
        prepared@ + final(waiting)@ == old(waiting)@,
        old(waiting)@.len() <= 150 ==> prepared@.len() == old(waiting)@.len(),
        old(waiting)@.len() > 150 ==> prepared@.len() == 150,
{
    let count: usize = if waiting.len() <= BLOCKS_IN_PREPARATION {
        waiting.len()
    } else {
        BLOCKS_IN_PREPARATION
    };
    let mut taken = waiting.split_off(count);
    std::mem::swap(waiting, &mut taken);
    taken
}

/// The lists that `waiting` blocks are prepared in, until none is left.
pub open spec fn preparations<B>(waiting: Seq<B>) -> Seq<Seq<B>>
    decreases waiting.len(),
{
    if waiting.len() == 0 {
        Seq::empty()
    } else {
        let count = next_preparation(waiting.len());
        seq![waiting.take(count)] + preparations(waiting.skip(count))
    }
}

/// Takes off the blocks to be prepared again and again, until none is left.
pub fn prepare_all<B>(blocks: Vec<B>) -> (lists: Vec<Vec<B>>)
    ensures
        lists@.map_values(|list: Vec<B>| list@) == preparations(blocks@),
        lists@.map_values(|list: Vec<B>| list@).flatten() == blocks@,
        lists@.len() == (blocks@.len() + 149) / 150,
        forall|i: int| 0 <= i < lists@.len() - 1 ==> (#[trigger] lists@[i])@.len() == 150,
        forall|i: int| 0 <= i < lists@.len() ==> 0 < (#[trigger] lists@[i])@.len() <= 150,
{
    let ghost all = blocks@;
    let mut waiting = blocks;
    let mut lists: Vec<Vec<B>> = Vec::new();
    while waiting.len() > 0
        invariant
            preparations(all) == lists@.map_values(|list: Vec<B>| list@) + preparations(waiting@),
        decreases waiting@.len(),
    {
        let ghost before = waiting@;
        let ghost earlier = lists@;
        let list = take_preparation(&mut waiting);
        lists.push(list);
        proof {
            assert(preparations(before) == seq![list@] + preparations(waiting@));
            assert(lists@.map_values(|list: Vec<B>| list@) =~= earlier.map_values(
                |list: Vec<B>| list@,
            ).push(list@));
            assert(preparations(all) =~= lists@.map_values(|list: Vec<B>| list@) + preparations(
                waiting@,
            ));
        }
    }
    assert(preparations(waiting@) =~= Seq::<Seq<B>>::empty());
    assert(lists@.map_values(|list: Vec<B>| list@) =~= preparations(all));
    proof {
        law_every_block_is_prepared(all);
        assert forall|i: int| 0 <= i < lists@.len() implies (#[trigger] lists@[i])@
            == preparations(all)[i] by {
            assert(lists@.map_values(|list: Vec<B>| list@)[i] == lists@[i]@);
        }
    }
    lists
}

/// Every block is prepared, once and in order, in lists of which none is empty or too long, and all
/// but the last are as long as a list can be.
pub proof fn law_every_block_is_prepared<B>(waiting: Seq<B>)
    ensures
        preparations(waiting).flatten() == waiting,
        preparations(waiting).len() == (waiting.len() + BLOCKS_IN_PREPARATION - 1) / (
        BLOCKS_IN_PREPARATION as int),
        forall|i: int|
            0 <= i < preparations(waiting).len() ==> 0 < (#[trigger] preparations(waiting)[i]).len()
                <= BLOCKS_IN_PREPARATION,
        forall|i: int|
            0 <= i < preparations(waiting).len() - 1 ==> (#[trigger] preparations(waiting)[i]).len()
                == BLOCKS_IN_PREPARATION,
    decreases waiting.len(),
{
    if waiting.len() > 0 {
        let count = next_preparation(waiting.len());
        let rest = waiting.skip(count);
        law_every_block_is_prepared(rest);
        assert(preparations(waiting).drop_first() =~= preparations(rest));
        assert(waiting.take(count) + rest =~= waiting);
        assert forall|i: int| 0 <= i < preparations(waiting).len() implies 0 < (
        #[trigger] preparations(waiting)[i]).len() <= BLOCKS_IN_PREPARATION by {
            if i > 0 {
                assert(preparations(waiting)[i] == preparations(rest)[i - 1]);
            }
        }
        assert forall|i: int| 0 <= i < preparations(waiting).len() - 1 implies (
        #[trigger] preparations(waiting)[i]).len() == BLOCKS_IN_PREPARATION by {
            if i > 0 {
                assert(preparations(waiting)[i] == preparations(rest)[i - 1]);
            }
        }
    } else {
        assert(preparations(waiting).flatten() =~= waiting);
    }
}

/// What is known of a block that was verified.
#[derive(Debug, Clone, Copy)]
pub struct VerifiedBlockInformation {
    pub block_hash: [u8; 32],
    pub height: u64,
    pub timestamp: u64,
    pub weight: usize,
    pub long_term_weight: usize,
    pub hf_vote: HardFork,
    pub generated_coins: u64,
    pub cumulative_difficulty: u128,
}

/// A block that was verified, with its miner transaction and its other transactions.
#[derive(Debug)]
pub struct VerifiedBlock<M, V> {
    pub info: VerifiedBlockInformation,
    pub miner_tx: M,
    pub txs: Vec<V>,
}

/// What the chain context is sent of a verified block.
#[derive(Debug, Clone, Copy)]
pub struct UpdateBlockchainCacheData {
    pub new_top_hash: [u8; 32],
    pub height: u64,
    pub timestamp: u64,
    pub weight: usize,
    pub long_term_weight: usize,
    pub vote: HardFork,
    pub generated_coins: u64,
    pub cumulative_difficulty: u128,
}

impl UpdateBlockchainCacheData {
    /// The data on the block of `info`.
    pub open spec fn of(info: VerifiedBlockInformation) -> UpdateBlockchainCacheData {
        UpdateBlockchainCacheData {
            new_top_hash: info.block_hash,
            height: info.height,
            timestamp: info.timestamp,
            weight: info.weight,
            long_term_weight: info.long_term_weight,
            vote: info.hf_vote,
            generated_coins: info.generated_coins,
            cumulative_difficulty: info.cumulative_difficulty,
        }
    }

    /// What the context updates itself from.
    pub open spec fn as_request(self) -> UpdateBlockchainCacheRequest {
        UpdateBlockchainCacheRequest {
            new_top_hash: self.new_top_hash,
            height: self.height,
            timestamp: self.timestamp,
            weight: self.weight,
            long_term_weight: self.long_term_weight,
            generated_coins: self.generated_coins,
            vote: self.vote,
        }
    }

    /// What the context updates itself from. The cumulative difficulty is not among it.
    pub fn request(&self) -> (request: UpdateBlockchainCacheRequest)
        ensures
            request == self.as_request(),
            request == (UpdateBlockchainCacheRequest {
                new_top_hash: self.new_top_hash,
                height: self.height,
                timestamp: self.timestamp,
                weight: self.weight,
                long_term_weight: self.long_term_weight,
                generated_coins: self.generated_coins,
                vote: self.vote,
            }),
    {
        UpdateBlockchainCacheRequest {
            new_top_hash: self.new_top_hash,
            height: self.height,
            timestamp: self.timestamp,
            weight: self.weight,
            long_term_weight: self.long_term_weight,
            generated_coins: self.generated_coins,
            vote: self.vote,
        }
    }
}

/// Something to be done about a verified block.
#[derive(Debug)]
pub enum ScanStep<M, V> {
    /// Save the cache.
    SaveCache,
    /// Add the block to the cache: the coins that it minted, its miner transaction and its other
    /// transactions.
    AddToCache { generated_coins: u64, miner_tx: M, txs: Vec<V> },
    /// Send the chain context the new block.
    UpdateContext(UpdateBlockchainCacheData),
}

/// What adds a verified block to the cache, and then to the chain context.
pub open spec fn update_steps<M, V>(block: VerifiedBlock<M, V>) -> Seq<ScanStep<M, V>> {
    seq![
        ScanStep::AddToCache {
            generated_coins: block.info.generated_coins,
            miner_tx: block.miner_tx,
            txs: block.txs,
        },
        ScanStep::UpdateContext(UpdateBlockchainCacheData::of(block.info)),
    ]
}

/// Whether the cache is saved when the block at `height` has been verified.
pub open spec fn saves_at(height: int) -> bool {
    height % (SAVE_INTERVAL as int) == 0
}

/// All that is to be done about a verified block.
pub open spec fn scan_steps<M, V>(block: VerifiedBlock<M, V>) -> Seq<ScanStep<M, V>> {
    if saves_at(block.info.height as int) {
        seq![ScanStep::SaveCache] + update_steps(block)
    } else {
        update_steps(block)
    }
}

/// Lists what adds a verified block to the cache, and then to the chain context.
pub fn update_cache_and_context<M, V>(block: VerifiedBlock<M, V>) -> (steps: Vec<ScanStep<M, V>>)
    ensures
        steps@ == update_steps(block),
        steps@.len() == 2,
        steps@[0] matches ScanStep::AddToCache { generated_coins, miner_tx, txs } && {
            &&& generated_coins == block.info.generated_coins
            &&& miner_tx == block.miner_tx
            &&& txs == block.txs
        },
        steps@[1] matches ScanStep::UpdateContext(data) && {
            &&& data.new_top_hash == block.info.block_hash
            &&& data.height == block.info.height
            &&& data.timestamp == block.info.timestamp
            &&& data.weight == block.info.weight
            &&& data.long_term_weight == block.info.long_term_weight
            &&& data.vote == block.info.hf_vote
            &&& data.generated_coins == block.info.generated_coins
            &&& data.cumulative_difficulty == block.info.cumulative_difficulty
        },
{
    let info = block.info;
    let update = UpdateBlockchainCacheData {
        new_top_hash: info.block_hash,
        height: info.height,
        timestamp: info.timestamp,
        weight: info.weight,
        long_term_weight: info.long_term_weight,
        vote: info.hf_vote,
        generated_coins: info.generated_coins,
        cumulative_difficulty: info.cumulative_difficulty,
    };
    let mut steps: Vec<ScanStep<M, V>> = Vec::new();
    steps.push(
        ScanStep::AddToCache {
            generated_coins: info.generated_coins,
            miner_tx: block.miner_tx,
            txs: block.txs,
        },
    );
    steps.push(ScanStep::UpdateContext(update));
    assert(steps@ =~= update_steps(block));
    steps
}

/// How far the verification of one list of prepared blocks has come.
#[derive(Debug, Clone, Copy)]
pub struct ScanProgress {
    /// The height of the block that was verified last, or 0.
    pub height: u64,
}

impl ScanProgress {
    /// No block of the list has been verified.
    pub fn new() -> (progress: ScanProgress)
        ensures
            progress.height == 0,
    {
        ScanProgress { height: 0 }
    }

    /// Takes note of a verified block and lists what is to be done about it, in order: every so many
    /// blocks the cache is saved first, as it was before the block.
    pub fn verified<M, V>(&mut self, block: VerifiedBlock<M, V>) -> (steps: Vec<ScanStep<M, V>>)
        ensures
            final(self).height == block.info.height,
            steps@ == scan_steps(block),
            block.info.height % 5000 == 0 ==> steps@.len() == 3 && steps@[0] is SaveCache,
            block.info.height % 5000 != 0 ==> steps@.len() == 2,
            steps@[steps@.len() - 2] is AddToCache,
            steps@[steps@.len() - 1] is UpdateContext,
    {
        self.height = block.info.height;
        let mut steps: Vec<ScanStep<M, V>> = Vec::new();
        if block.info.height % SAVE_INTERVAL == 0 {
            steps.push(ScanStep::SaveCache);
        }
        let mut update = update_cache_and_context(block);
        steps.append(&mut update);
        assert(steps@ =~= scan_steps(block));
        steps
    }

    /// The heights that are reported as verified once the list is done.
    pub fn verified_range(&self) -> (range: BlockRange)
        ensures
            range == (BlockRange { start: 0, end: self.height }),
    {
        BlockRange { start: 0, end: self.height }
    }
}

/// What a scan is waiting for.
#[derive(Debug, Clone, Copy, PartialEq, Eq, Structural)]
pub enum ScanStage {
    /// The next list of prepared blocks.
    List,
    /// The verification of a block.
    Verification,
    /// One of the steps that a verified block leads to.
    Step,
    /// Nothing: all lists have been scanned.
    Finished,
    /// Nothing: something went wrong.
    Failed,
}

/// What came of the last action.
#[derive(Debug)]
pub enum ScanEvent<P, M, V> {
    /// A list of blocks has been prepared.
    ListPrepared(Vec<P>),
    /// There are no more lists.
    NoMoreLists,
    /// The block has been verified.
    Verified(VerifiedBlock<M, V>),
    /// The step has been done.
    StepDone,
    /// The verifier sent an answer to something else.
    WrongAnswer,
    /// The action failed.
    Failed,
}

/// What to do next.
#[derive(Debug)]
pub enum ScanAction<P, M, V> {
    /// Report the heights as verified, and wait for the next list.
    ReportAndWait(BlockRange),
    /// Have the block verified.
    Verify(P),
    /// Do what a verified block leads to.
    Do(ScanStep<M, V>),
    /// All is done.
    Finish,
    /// Give up, with what went wrong.
    Stop,
    /// Give up: what came was not what the last action asked for.
    Refuse,
}

/// What a [`Scan`] holds.
#[verifier::ext_equal]
pub struct ScanState<P, M, V> {
    pub stage: ScanStage,
    /// The height of the block of the list that was verified last, or 0.
    pub height: u64,
    /// The blocks of the list that are still to be verified.
    pub waiting: Seq<P>,
    /// The steps that are still to be done about the last block.
    pub steps: Seq<ScanStep<M, V>>,
}

impl<P, M, V> ScanState<P, M, V> {
    /// Where the scan waits for a list, or is over, there are no blocks left of the list before;
    /// where it waits for anything but a step, there are no steps left of the block before.
    pub open spec fn wf(self) -> bool {
        &&& self.stage is List || self.stage is Finished ==> self.waiting.len() == 0
        &&& self.stage is Step || self.stage is Failed || self.steps.len() == 0
    }

    /// With another stage.
    pub open spec fn at(self, stage: ScanStage) -> ScanState<P, M, V> {
        ScanState { stage, ..self }
    }

    /// What comes once there is no step left: the next block of the list, or the next list.
    pub open spec fn next_block(self) -> (ScanState<P, M, V>, ScanAction<P, M, V>) {
        if self.waiting.len() > 0 {
            (
                ScanState {
                    stage: ScanStage::Verification,
                    waiting: self.waiting.drop_first(),
                    ..self
                },
                ScanAction::Verify(self.waiting.first()),
            )
        } else {
            (
                self.at(ScanStage::List),
                ScanAction::ReportAndWait(BlockRange { start: 0, end: self.height }),
            )
        }
    }

    /// What comes once a step is done: the next step, or the next block.
    pub open spec fn next_step(self) -> (ScanState<P, M, V>, ScanAction<P, M, V>) {
        if self.steps.len() > 0 {
            (
                ScanState { stage: ScanStage::Step, steps: self.steps.drop_first(), ..self },
                ScanAction::Do(self.steps.first()),
            )
        } else {
            self.next_block()
        }
    }
}

/// What comes of `event`, and what to do next.
pub open spec fn scan_next<P, M, V>(state: ScanState<P, M, V>, event: ScanEvent<P, M, V>) -> (
    ScanState<P, M, V>,
    ScanAction<P, M, V>,
) {
    match (state.stage, event) {
        (ScanStage::Finished, _) => (state, ScanAction::Finish),
        (ScanStage::Failed, _) => (state, ScanAction::Stop),
        (_, ScanEvent::Failed) => (state.at(ScanStage::Failed), ScanAction::Stop),
        (ScanStage::List, ScanEvent::ListPrepared(list)) => ScanState {
            height: 0,
            waiting: list@,
            ..state
        }.next_block(),
        (ScanStage::List, ScanEvent::NoMoreLists) => (
            state.at(ScanStage::Finished),
            ScanAction::Finish,
        ),
        (ScanStage::Verification, ScanEvent::Verified(block)) => ScanState {
            height: block.info.height,
            steps: scan_steps(block),
            ..state
        }.next_step(),
        (ScanStage::Step, ScanEvent::StepDone) => state.next_step(),
        _ => (state.at(ScanStage::Failed), ScanAction::Refuse),
    }
}

/// A scan of lists of prepared blocks: one block after the other is verified and then taken up into
/// the cache and the chain context.
pub struct Scan<P, M, V> {
    stage: ScanStage,
    progress: ScanProgress,
    waiting: VecDeque<P>,
    steps: VecDeque<ScanStep<M, V>>,
}

impl<P, M, V> View for Scan<P, M, V> {
    type V = ScanState<P, M, V>;

    closed spec fn view(&self) -> ScanState<P, M, V> {
        ScanState {
            stage: self.stage,
            height: self.progress.height,
            waiting: self.waiting@,
            steps: self.steps@,
        }
    }
}

/// Puts the items of a list into a queue, in order.
fn queue<A>(list: Vec<A>) -> (items: VecDeque<A>)
    ensures
        items@ == list@,
{
    let ghost all = list@;
    let mut items: VecDeque<A> = VecDeque::new();
    for item in iter: list
        invariant
            iter.seq() == all,
            items@ == all.take(iter.index()),
    {
        assert(all.take(iter.index() + 1) =~= all.take(iter.index()).push(item));
        items.push_back(item);
    }
    assert(all.take(all.len() as int) =~= all);
    items
}

impl<P, M, V> Scan<P, M, V> {
    /// Starts a scan: the first list is to be waited for.
    pub fn new() -> (scan: Scan<P, M, V>)
        ensures
            scan@ == (ScanState {
                stage: ScanStage::List,
                height: 0,
                waiting: Seq::<P>::empty(),
                steps: Seq::<ScanStep<M, V>>::empty(),
            }),
            scan@.wf(),
    {
        Scan {
            stage: ScanStage::List,
            progress: ScanProgress::new(),
            waiting: VecDeque::new(),
            steps: VecDeque::new(),
        }
    }

    fn next_block(&mut self) -> (action: ScanAction<P, M, V>)
        ensures
            (final(self)@, action) == old(self)@.next_block(),
    {
        match self.waiting.pop_front() {
            Some(block) => {
                self.stage = ScanStage::Verification;
                assert(self.waiting@ =~= old(self).waiting@.drop_first());
                ScanAction::Verify(block)
            },
            None => {
                self.stage = ScanStage::List;
                ScanAction::ReportAndWait(self.progress.verified_range())
            },
        }
    }

    fn next_step(&mut self) -> (action: ScanAction<P, M, V>)
        ensures
            (final(self)@, action) == old(self)@.next_step(),
    {
        match self.steps.pop_front() {
            Some(step) => {
                self.stage = ScanStage::Step;
                assert(self.steps@ =~= old(self).steps@.drop_first());
                ScanAction::Do(step)
            },
            None => self.next_block(),
        }
    }

    /// Takes what came of the last action, and says what to do next.
    pub fn step(&mut self, event: ScanEvent<P, M, V>) -> (action: ScanAction<P, M, V>)
        ensures
            (final(self)@, action) == scan_next(old(self)@, event),
            old(self)@.wf() ==> final(self)@.wf(),
            old(self)@.stage is List ==> (event matches ScanEvent::ListPrepared(list) ==> {
                &&& list@.len() > 0 ==> {
                    &&& action == ScanAction::<P, M, V>::Verify(list@[0])
                    &&& final(self)@.stage is Verification
                    &&& final(self)@.waiting == list@.subrange(1, list@.len() as int)
                    &&& final(self)@.height == 0
                }
                &&& list@.len() == 0 ==> {
                    &&& action matches ScanAction::ReportAndWait(range) && range.start == 0
                        && range.end == 0
                    &&& final(self)@.stage is List
                }
            }),
            action is Finish && !(old(self)@.stage is Finished) ==> old(self)@.stage is List
                && event is NoMoreLists,
            old(self)@.stage is List && event is NoMoreLists ==> action is Finish && final(self)@.stage is Finished,
            old(self)@.stage is Verification ==> (event matches ScanEvent::Verified(block) ==> {
                &&& final(self)@.stage is Step
                &&& final(self)@.height == block.info.height
                &&& final(self)@.waiting == old(self)@.waiting
                &&& action matches ScanAction::Do(step) && seq![step] + final(self)@.steps
                    == scan_steps(block)
            }),
            old(self)@.stage is Step && event is StepDone && old(self)@.steps.len() > 0 ==> {
                &&& final(self)@.stage is Step
                &&& final(self)@.height == old(self)@.height
                &&& final(self)@.waiting == old(self)@.waiting
                &&& action matches ScanAction::Do(step) && seq![step] + final(self)@.steps == old(self)@.steps
            },
            old(self)@.stage is Step && event is StepDone && old(self)@.steps.len() == 0 && old(self)@.waiting.len() > 0 ==> {
                &&& final(self)@.stage is Verification
                &&& final(self)@.height == old(self)@.height
                &&& action matches ScanAction::Verify(block) && seq![block] + final(self)@.waiting
                    == old(self)@.waiting
            },
            old(self)@.stage is Step && event is StepDone && old(self)@.steps.len() == 0 && old(self)@.waiting.len() == 0 ==> {
                &&& final(self)@.stage is List
                &&& action matches ScanAction::ReportAndWait(range) && range.start == 0 && range.end
                    == old(self)@.height
            },
            event is Failed && !(old(self)@.stage is Finished) ==> action is Stop && final(self)@.stage is Failed,
            event is WrongAnswer && !(old(self)@.stage is Finished) && !(old(self)@.stage is Failed) ==> action is Refuse && final(self)@.stage is Failed,
    {
        proof {
            law_scan_goes_on(old(self)@, event);
        }
        match (self.stage, event) {
            (ScanStage::Finished, _) => ScanAction::Finish,
            (ScanStage::Failed, _) => ScanAction::Stop,
            (_, ScanEvent::Failed) => {
                self.stage = ScanStage::Failed;
                ScanAction::Stop
            },
            (ScanStage::List, ScanEvent::ListPrepared(list)) => {
                self.progress = ScanProgress::new();
                self.waiting = queue(list);
                self.next_block()
            },
            (ScanStage::List, ScanEvent::NoMoreLists) => {
                self.stage = ScanStage::Finished;
                ScanAction::Finish
            },
            (ScanStage::Verification, ScanEvent::Verified(block)) => {
                let steps = self.progress.verified(block);
                self.steps = queue(steps);
                self.next_step()
            },
            (ScanStage::Step, ScanEvent::StepDone) => self.next_step(),
            _ => {
                self.stage = ScanStage::Failed;
                ScanAction::Refuse
            },
        }
    }
}

/// Of any `SAVE_INTERVAL` heights in a row, the cache is saved at one, and only at that one.
pub proof fn law_cache_is_saved_once_an_interval(first: int)
    ensures
        exists|height: int|
            first <= height < first + SAVE_INTERVAL && #[trigger] saves_at(height),
        forall|a: int, b: int|
            first <= a < first + SAVE_INTERVAL && first <= b < first + SAVE_INTERVAL
                && #[trigger] saves_at(a) && #[trigger] saves_at(b) ==> a == b,
{
    let height = ((first + 4999) / 5000) * 5000;
    assert(saves_at(height));
}

/// Whatever the height of a verified block, it is added to the cache once and then to the context
/// once, and these come last. Where the cache is saved, it is saved before.
pub proof fn law_every_block_reaches_cache_then_context<M, V>(block: VerifiedBlock<M, V>)
    ensures
        scan_steps(block).len() >= 2,
        scan_steps(block)[scan_steps(block).len() - 2] == (ScanStep::AddToCache {
            generated_coins: block.info.generated_coins,
            miner_tx: block.miner_tx,
            txs: block.txs,
        }),
        scan_steps(block).last() == ScanStep::<M, V>::UpdateContext(
            UpdateBlockchainCacheData::of(block.info),
        ),
        saves_at(block.info.height as int) ==> scan_steps(block).len() == 3 && scan_steps(block)[0]
            == ScanStep::<M, V>::SaveCache,
        !saves_at(block.info.height as int) ==> scan_steps(block).len() == 2,
{
}

/// What is done in a run of the scan, event by event.
pub open spec fn scan_actions<P, M, V>(
    state: ScanState<P, M, V>,
    events: Seq<ScanEvent<P, M, V>>,
) -> Seq<ScanAction<P, M, V>>
    decreases events.len(),
{
    if events.len() == 0 {
        Seq::empty()
    } else {
        let (next, action) = scan_next(state, events.first());
        seq![action] + scan_actions(next, events.drop_first())
    }
}

/// Each action of a run is the answer to the event before it.
proof fn lemma_scan_actions<P, M, V>(state: ScanState<P, M, V>, events: Seq<ScanEvent<P, M, V>>)
    ensures
        scan_actions(state, events).len() == events.len(),
        events.len() > 0 ==> {
            &&& scan_actions(state, events)[0] == scan_next(state, events[0]).1
            &&& scan_actions(state, events).drop_first() == scan_actions(
                scan_next(state, events[0]).0,
                events.drop_first(),
            )
        },
    decreases events.len(),
{
    if events.len() > 0 {
        lemma_scan_actions(scan_next(state, events[0]).0, events.drop_first());
        assert(scan_actions(state, events).drop_first() =~= scan_actions(
            scan_next(state, events[0]).0,
            events.drop_first(),
        ));
    }
}

/// The scan stops at the first failure: once it has failed, nothing more is done.
pub proof fn law_scan_stops_at_first_failure<P, M, V>(
    state: ScanState<P, M, V>,
    events: Seq<ScanEvent<P, M, V>>,
    k: int,
)
    requires
        state.stage is Failed,
        0 <= k < events.len(),
    ensures
        scan_actions(state, events)[k] is Stop,
    decreases events.len(),
{
    lemma_scan_actions(state, events);
    if k > 0 {
        law_scan_stops_at_first_failure(
            scan_next(state, events[0]).0,
            events.drop_first(),
            k - 1,
        );
        assert(scan_actions(state, events)[k] == scan_actions(state, events).drop_first()[k - 1]);
    }
}

/// A failure, or an answer to something else, ends a scan that is not over.
pub proof fn law_failure_ends_the_scan<P, M, V>(
    state: ScanState<P, M, V>,
    event: ScanEvent<P, M, V>,
)
    requires
        !(state.stage is Finished),
        event is Failed || event is WrongAnswer,
    ensures
        scan_next(state, event).0.stage is Failed,
        event is Failed ==> scan_next(state, event).1 is Stop,
        event is WrongAnswer && !(state.stage is Failed) ==> scan_next(state, event).1 is Refuse,
{
}

/// Whatever happens while steps are left: the scan goes on to another block, to another list or to
/// its end only once each of them has been set out, in order, and has been done, and so has the one
/// before them.
proof fn lemma_steps_come_first<P, M, V>(
    state: ScanState<P, M, V>,
    events: Seq<ScanEvent<P, M, V>>,
    k: int,
)
    requires
        state.stage is Step,
        0 <= k < events.len(),
        ({
            let action = scan_actions(state, events)[k];
            action is Verify || action is ReportAndWait || action is Finish
        }),
    ensures
        k >= state.steps.len(),
        forall|i: int| 0 <= i <= state.steps.len() ==> (#[trigger] events[i]) is StepDone,
        forall|i: int|
            0 <= i < state.steps.len() ==> #[trigger] scan_actions(state, events)[i]
                == ScanAction::<P, M, V>::Do(state.steps[i]),
    decreases events.len(),
{
    lemma_scan_actions(state, events);
    let actions = scan_actions(state, events);
    let (next, action) = scan_next(state, events[0]);
    let rest = events.drop_first();
    if k > 0 {
        assert(actions[k] == actions.drop_first()[k - 1]);
    }
    if !(events[0] is StepDone) {
        if k > 0 {
            law_scan_stops_at_first_failure(next, rest, k - 1);
        }
        assert(false);
    }
    if state.steps.len() > 0 {
        assert(k > 0);
        lemma_steps_come_first(next, rest, k - 1);
        assert forall|i: int| 0 <= i <= state.steps.len() implies (
        #[trigger] events[i]) is StepDone by {
            if i > 0 {
                assert(events[i] == rest[i - 1]);
            }
        }
        assert forall|i: int| 0 <= i < state.steps.len() implies #[trigger] actions[i]
            == ScanAction::<P, M, V>::Do(state.steps[i]) by {
            if i > 0 {
                assert(actions[i] == actions.drop_first()[i - 1]);
                assert(state.steps[i] == next.steps[i - 1]);
            }
        }
    }
}

/// Whatever happens after a block has been verified: the scan goes on to another block, to another
/// list or to its end only once all that the block leads to has been set out, in order, and each of
/// these steps has been done.
pub proof fn law_next_block_waits_for_the_steps<P, M, V>(
    state: ScanState<P, M, V>,
    block: VerifiedBlock<M, V>,
    events: Seq<ScanEvent<P, M, V>>,
    k: int,
)
    requires
        state.stage is Verification,
        0 <= k < events.len(),
        ({
            let after = scan_next(state, ScanEvent::<P, M, V>::Verified(block)).0;
            let action = scan_actions(after, events)[k];
            action is Verify || action is ReportAndWait || action is Finish
        }),
    ensures
        ({
            let (after, first) = scan_next(state, ScanEvent::<P, M, V>::Verified(block));
            let steps = scan_steps(block);
            &&& first == ScanAction::<P, M, V>::Do(steps[0])
            &&& k >= steps.len() - 1
            &&& forall|i: int|
                0 <= i < steps.len() - 1 ==> #[trigger] scan_actions(after, events)[i]
                    == ScanAction::<P, M, V>::Do(steps[i + 1])
            &&& forall|i: int| 0 <= i < steps.len() ==> (#[trigger] events[i]) is StepDone
        }),
{
    let (after, first) = scan_next(state, ScanEvent::<P, M, V>::Verified(block));
    assert(scan_steps(block).len() >= 2);
    lemma_steps_come_first(after, events, k);
}

/// The blocks that are sent to be verified in a run, in order.
pub open spec fn sent_to_verification<P, M, V>(actions: Seq<ScanAction<P, M, V>>) -> Seq<P>
    decreases actions.len(),
{
    if actions.len() == 0 {
        Seq::empty()
    } else {
        (match actions.first() {
            ScanAction::Verify(block) => seq![block],
            _ => Seq::empty(),
        }) + sent_to_verification(actions.drop_first())
    }
}

/// The steps that are set out in a run, in order.
pub open spec fn steps_set_out<P, M, V>(actions: Seq<ScanAction<P, M, V>>) -> Seq<ScanStep<M, V>>
    decreases actions.len(),
{
    if actions.len() == 0 {
        Seq::empty()
    } else {
        (match actions.first() {
            ScanAction::Do(step) => seq![step],
            _ => Seq::empty(),
        }) + steps_set_out(actions.drop_first())
    }
}

/// The blocks that come in prepared, in order.
pub open spec fn prepared<P, M, V>(events: Seq<ScanEvent<P, M, V>>) -> Seq<P>
    decreases events.len(),
{
    if events.len() == 0 {
        Seq::empty()
    } else {
        (match events.first() {
            ScanEvent::ListPrepared(list) => list@,
            _ => Seq::empty(),
        }) + prepared(events.drop_first())
    }
}

/// What the blocks that come in verified lead to, block after block.
pub open spec fn steps_called_for<P, M, V>(events: Seq<ScanEvent<P, M, V>>) -> Seq<ScanStep<M, V>>
    decreases events.len(),
{
    if events.len() == 0 {
        Seq::empty()
    } else {
        (match events.first() {
            ScanEvent::Verified(block) => scan_steps(block),
            _ => Seq::empty(),
        }) + steps_called_for(events.drop_first())
    }
}

proof fn lemma_nothing_after_the_end<P, M, V>(
    state: ScanState<P, M, V>,
    events: Seq<ScanEvent<P, M, V>>,
)
    requires
        state.stage is Failed || state.stage is Finished,
    ensures
        sent_to_verification(scan_actions(state, events)) == Seq::<P>::empty(),
        steps_set_out(scan_actions(state, events)) == Seq::<ScanStep<M, V>>::empty(),
    decreases events.len(),
{
    lemma_scan_actions(state, events);
    if events.len() > 0 {
        lemma_nothing_after_the_end(scan_next(state, events[0]).0, events.drop_first());
    }
    assert(sent_to_verification(scan_actions(state, events)) =~= Seq::<P>::empty());
    assert(steps_set_out(scan_actions(state, events)) =~= Seq::<ScanStep<M, V>>::empty());
}

/// In any run, blocks are sent to be verified one by one in the order in which they were prepared,
/// and none is left out or sent twice, as far as the run has come.
pub proof fn law_blocks_are_verified_in_order<P, M, V>(
    state: ScanState<P, M, V>,
    events: Seq<ScanEvent<P, M, V>>,
)
    requires
        state.wf(),
    ensures
        sent_to_verification(scan_actions(state, events)).is_prefix_of(
            state.waiting + prepared(events),
        ),
    decreases events.len(),
{
    let actions = scan_actions(state, events);
    lemma_scan_actions(state, events);
    if events.len() == 0 {
        assert(sent_to_verification(actions) =~= Seq::<P>::empty());
    } else {
        let (next, action) = scan_next(state, events[0]);
        let rest = events.drop_first();
        if next.stage is Failed || next.stage is Finished {
            lemma_nothing_after_the_end(next, rest);
            assert(sent_to_verification(actions) =~= Seq::<P>::empty());
        } else {
            law_blocks_are_verified_in_order(next, rest);
            let later = sent_to_verification(scan_actions(next, rest));
            let this: Seq<P> = match action {
                ScanAction::Verify(block) => seq![block],
                _ => Seq::empty(),
            };
            assert(sent_to_verification(actions) =~= this + later);
            assert(state.waiting + prepared(events) =~= this + (next.waiting + prepared(rest)));
        }
    }
}

/// In any run, what is set out to be done is what the verified blocks lead to, block after block:
/// each is saved, added to the cache and sent to the context as it should be, and no more than once,
/// as far as the run has come.
pub proof fn law_steps_follow_the_verified_blocks<P, M, V>(
    state: ScanState<P, M, V>,
    events: Seq<ScanEvent<P, M, V>>,
)
    requires
        state.wf(),
    ensures
        steps_set_out(scan_actions(state, events)).is_prefix_of(
            state.steps + steps_called_for(events),
        ),
    decreases events.len(),
{
    let actions = scan_actions(state, events);
    lemma_scan_actions(state, events);
    if events.len() == 0 {
        assert(steps_set_out(actions) =~= Seq::<ScanStep<M, V>>::empty());
    } else {
        let (next, action) = scan_next(state, events[0]);
        let rest = events.drop_first();
        if next.stage is Failed || next.stage is Finished {
            lemma_nothing_after_the_end(next, rest);
            assert(steps_set_out(actions) =~= Seq::<ScanStep<M, V>>::empty());
        } else {
            law_steps_follow_the_verified_blocks(next, rest);
            let later = steps_set_out(scan_actions(next, rest));
            let this: Seq<ScanStep<M, V>> = match action {
                ScanAction::Do(step) => seq![step],
                _ => Seq::empty(),
            };
            assert(steps_set_out(actions) =~= this + later);
            assert(state.steps + steps_called_for(events) =~= this + (next.steps
                + steps_called_for(rest)));
        }
    }
}

/// How the scan goes on. A list that comes in is verified from its first block on. What a verified
/// block leads to is set out from the first step on, and then, as long as blocks of the list are
/// left, the first of them is verified; only where none is left is the list reported, up to the height
/// of the last block. Nothing that waits is dropped on the way.
pub proof fn law_scan_goes_on<P, M, V>(state: ScanState<P, M, V>, event: ScanEvent<P, M, V>)
    ensures
        ({
            let (next, action) = scan_next(state, event);
            &&& state.stage is List ==> (event matches ScanEvent::ListPrepared(list) ==> {
                &&& list@.len() > 0 ==> {
                    &&& action == ScanAction::<P, M, V>::Verify(list@[0])
                    &&& next.stage is Verification
                    &&& next.waiting == list@.subrange(1, list@.len() as int)
                    &&& next.height == 0
                }
                &&& list@.len() == 0 ==> {
                    &&& action matches ScanAction::ReportAndWait(range) && range.start == 0
                        && range.end == 0
                    &&& next.stage is List
                }
            })
            &&& state.stage is Verification ==> (event matches ScanEvent::Verified(block) ==> {
                &&& next.stage is Step
                &&& next.height == block.info.height
                &&& next.waiting == state.waiting
                &&& action matches ScanAction::Do(step) && seq![step] + next.steps == scan_steps(
                    block,
                )
            })
            &&& state.stage is Step && event is StepDone && state.steps.len() > 0 ==> {
                &&& next.stage is Step
                &&& next.height == state.height
                &&& next.waiting == state.waiting
                &&& action matches ScanAction::Do(step) && seq![step] + next.steps == state.steps
            }
            &&& state.stage is Step && event is StepDone && state.steps.len() == 0
                && state.waiting.len() > 0 ==> {
                &&& next.stage is Verification
                &&& next.height == state.height
                &&& action matches ScanAction::Verify(block) && seq![block] + next.waiting
                    == state.waiting
            }
            &&& state.stage is Step && event is StepDone && state.steps.len() == 0
                && state.waiting.len() == 0 ==> {
                &&& next.stage is List
                &&& action matches ScanAction::ReportAndWait(range) && range.start == 0
                    && range.end == state.height
            }
        }),
{
    let (next, action) = scan_next(state, event);
    match event {
        ScanEvent::ListPrepared(list) => {
            if state.stage is List && list@.len() > 0 {
                assert(next.waiting =~= list@.subrange(1, list@.len() as int));
            }
        },
        ScanEvent::Verified(block) => {
            if state.stage is Verification {
                assert(seq![scan_steps(block)[0]] + next.steps =~= scan_steps(block));
            }
        },
        ScanEvent::StepDone => {
            if state.stage is Step && state.steps.len() > 0 {
                assert(seq![state.steps[0]] + next.steps =~= state.steps);
            } else if state.stage is Step && state.waiting.len() > 0 {
                assert(seq![state.waiting[0]] + next.waiting =~= state.waiting);
            }
        },
        _ => {},
    }
}

/// What goes right is never taken for a failure, and what goes wrong always ends the scan.
pub proof fn law_scan_fails_only_on_failure<P, M, V>(
    state: ScanState<P, M, V>,
    event: ScanEvent<P, M, V>,
)
    requires
        !(state.stage is Finished),
        !(state.stage is Failed),
    ensures
        (scan_next(state, event).0.stage is Failed) <==> !{
            ||| state.stage is List && (event is ListPrepared || event is NoMoreLists)
            ||| state.stage is Verification && event is Verified
            ||| state.stage is Step && event is StepDone
        },
        scan_next(state, event).1 is Stop <==> event is Failed,
        scan_next(state, event).1 is Refuse <==> (scan_next(state, event).0.stage is Failed
            && !(event is Failed)),
        scan_next(state, event).1 is Finish <==> state.stage is List && event is NoMoreLists,
        scan_next(state, event).0.stage is Finished <==> state.stage is List
            && event is NoMoreLists,
{
}

/// The scan finishes only once there are no more lists. By then every block that came in prepared has
/// been sent to be verified, in order and none left out, and all that the verified blocks lead to has
/// been set out.
pub proof fn law_scan_finishes_with_every_block_verified<P, M, V>(
    state: ScanState<P, M, V>,
    events: Seq<ScanEvent<P, M, V>>,
)
    requires
        state.wf(),
        !(state.stage is Finished),
        events.len() > 0,
        scan_actions(state, events).last() is Finish,
        forall|k: int|
            0 <= k < events.len() - 1 ==> !((#[trigger] scan_actions(state, events)[k]) is Finish),
    ensures
        events.last() is NoMoreLists,
        sent_to_verification(scan_actions(state, events)) == state.waiting + prepared(events),
        steps_set_out(scan_actions(state, events)) == state.steps + steps_called_for(events),
    decreases events.len(),
{
    let actions = scan_actions(state, events);
    lemma_scan_actions(state, events);
    let (next, action) = scan_next(state, events[0]);
    let rest = events.drop_first();
    lemma_scan_actions(next, rest);
    let sent: Seq<P> = match action {
        ScanAction::Verify(block) => seq![block],
        _ => Seq::empty(),
    };
    let set_out: Seq<ScanStep<M, V>> = match action {
        ScanAction::Do(step) => seq![step],
        _ => Seq::empty(),
    };
    assert(sent_to_verification(actions) =~= sent + sent_to_verification(actions.drop_first()));
    assert(steps_set_out(actions) =~= set_out + steps_set_out(actions.drop_first()));
    if events.len() == 1 {
        assert(actions.last() == action);
        assert(sent_to_verification(scan_actions(next, rest)) =~= Seq::<P>::empty());
        assert(steps_set_out(scan_actions(next, rest)) =~= Seq::<ScanStep<M, V>>::empty());
        assert(prepared(rest) =~= Seq::<P>::empty());
        assert(steps_called_for(rest) =~= Seq::<ScanStep<M, V>>::empty());
        assert(sent_to_verification(actions) =~= state.waiting + prepared(events));
        assert(steps_set_out(actions) =~= state.steps + steps_called_for(events));
    } else {
        assert(!(actions[0] is Finish));
        assert(actions.last() == actions.drop_first().last());
        if next.stage is Failed {
            law_scan_stops_at_first_failure(next, rest, rest.len() - 1);
            assert(false);
        }
        assert forall|k: int| 0 <= k < rest.len() - 1 implies !((#[trigger] scan_actions(
            next,
            rest,
        )[k]) is Finish) by {
            assert(actions[k + 1] == actions.drop_first()[k]);
        }
        law_scan_finishes_with_every_block_verified(next, rest);
        assert(state.waiting + prepared(events) =~= sent + (next.waiting + prepared(rest)));
        assert(state.steps + steps_called_for(events) =~= set_out + (next.steps
            + steps_called_for(rest)));
        assert(events.last() == rest.last());
    }
}

/// The cache is saved exactly at the heights that are a multiple of 5000.
pub proof fn law_cache_is_saved_at_multiples(height: int)
    ensures
        saves_at(height) <==> height % 5000 == 0,
        saves_at(height) <==> saves_at(height + 5000),
        saves_at(0),
{
}

/// All that is known of a verified block reaches the cache or the context unchanged: the coins and
/// the transactions the cache, each figure under its own name the context.
pub proof fn law_verified_block_is_passed_on_unchanged<M, V>(block: VerifiedBlock<M, V>)
    ensures
        ({
            let steps = scan_steps(block);
            let n = steps.len() as int;
            &&& n == (if block.info.height % 5000 == 0 {
                3int
            } else {
                2
            })
            &&& n == 3 ==> steps[0] is SaveCache
            &&& steps[n - 2] matches ScanStep::AddToCache { generated_coins, miner_tx, txs } && {
                &&& generated_coins == block.info.generated_coins
                &&& miner_tx == block.miner_tx
                &&& txs == block.txs
            }
            &&& steps[n - 1] matches ScanStep::UpdateContext(data) && {
                &&& data.new_top_hash == block.info.block_hash
                &&& data.height == block.info.height
                &&& data.timestamp == block.info.timestamp
                &&& data.weight == block.info.weight
                &&& data.long_term_weight == block.info.long_term_weight
                &&& data.vote == block.info.hf_vote
                &&& data.generated_coins == block.info.generated_coins
                &&& data.cumulative_difficulty == block.info.cumulative_difficulty
            }
            &&& update_steps(block) == steps.subrange(n - 2, n)
        }),
{
    let steps = scan_steps(block);
    assert(update_steps(block) =~= steps.subrange(steps.len() - 2, steps.len() as int));
}

/// Of the blocks that wait, as many as 150 are prepared at once, and all where there are no more.
pub proof fn law_preparation_takes_up_to_150(waiting: nat)
    ensures
        next_preparation(waiting) <= 150,
        next_preparation(waiting) <= waiting,
        next_preparation(waiting) == 150 || next_preparation(waiting) == waiting,
{
}

/// What the context updates itself from is what is known of the verified block, each figure unchanged
/// under its own name: two blocks give the same request only where they are the same in all of these.
pub proof fn law_request_keeps_each_figure(
    a: VerifiedBlockInformation,
    b: VerifiedBlockInformation,
)
    ensures
        ({
            let request = UpdateBlockchainCacheData::of(a).as_request();
            &&& request.new_top_hash == a.block_hash
            &&& request.height == a.height
            &&& request.timestamp == a.timestamp
            &&& request.weight == a.weight
            &&& request.long_term_weight == a.long_term_weight
            &&& request.generated_coins == a.generated_coins
            &&& request.vote == a.hf_vote
        }),
        UpdateBlockchainCacheData::of(a) == UpdateBlockchainCacheData::of(b) ==> a == b,
{
}

/// The limits of a scan.
pub proof fn law_limits_of_a_scan()
    ensures
        BLOCKS_IN_PREPARATION == 150,
        SAVE_INTERVAL == 5000,
        SCAN_TO_HEIGHT == 3_000_000,
{
}

} // verus!
