//! Calling for the blocks of a scan, batch by batch, and handing them on.
use vstd::prelude::*;

verus! {

/// How many blocks a node is asked for at once.
pub const MAX_BLOCKS_IN_RANGE: u64 = 1000;

/// How many block headers a node is asked for at once.
pub const MAX_BLOCKS_HEADERS_IN_RANGE: u64 = 1000;

/// How many blocks are called for in one batch.
pub const BLOCKS_IN_BATCH: u64 = MAX_BLOCKS_IN_RANGE * 3;

/// The heights from `start` on, below `end`.
#[derive(Debug, Clone, Copy, PartialEq, Eq, Structural)]
pub struct BlockRange {
    pub start: u64,
    pub end: u64,
}

impl BlockRange {
    pub open spec fn contains(self, height: int) -> bool {
        self.start <= height < self.end
    }
}

/// The height that batch `i` of a scan from `start_height` starts at.
pub open spec fn batch_start(start_height: int, i: int) -> int {
    start_height + BLOCKS_IN_BATCH * i
}

/// How many batches it takes to come from `start_height` to `chain_height`.
pub open spec fn batch_count(start_height: int, chain_height: int) -> int {
    if start_height < chain_height {
        (chain_height - start_height + BLOCKS_IN_BATCH - 1) / (BLOCKS_IN_BATCH as int)
    } else {
        0
    }
}

/// The heights of batch `i`: as many as go into a batch, but none from `chain_height` on.
pub open spec fn batch(start_height: int, chain_height: int, i: int) -> BlockRange {
    let start = batch_start(start_height, i);
    BlockRange {
        start: start as u64,
        end: if start + BLOCKS_IN_BATCH <= chain_height {
            (start + BLOCKS_IN_BATCH) as u64
        } else {
            chain_height as u64
        },
    }
}

/// Whether the heights that a scan counts up to can all be held: those at which its batches would
/// end if each were full, that of the first batch also where there is nothing to scan.
pub open spec fn heights_fit(start_height: int, chain_height: int) -> bool {
    &&& start_height + BLOCKS_IN_BATCH <= u64::MAX
    &&& start_height < chain_height ==> batch_start(
        start_height,
        batch_count(start_height, chain_height),
    ) <= u64::MAX
}

/// Tells whether the heights that a scan counts up to can all be held.
pub fn check_heights(start_height: u64, chain_height: u64) -> (fit: bool)
    ensures
        fit == heights_fit(start_height as int, chain_height as int),
        fit <==> start_height + 3000 <= u64::MAX && (start_height < chain_height ==> start_height
            + 3000 * ((chain_height - start_height + 2999) / 3000) <= u64::MAX),
{
    if start_height > u64::MAX - BLOCKS_IN_BATCH {
        return false;
    }
    if start_height >= chain_height {
        return true;
    }
    let remaining: u128 = chain_height as u128 - start_height as u128;
    let count: u128 = (remaining + 2999) / 3000;
    start_height as u128 + count * 3000 <= u64::MAX as u128
}

/// The transactions of a batch of blocks, block by block.
pub open spec fn transactions_of<B, T>(batch: Seq<(B, Vec<T>)>) -> Seq<Seq<T>> {
    batch.map_values(|block: (B, Vec<T>)| block.1@)
}

/// The blocks of a batch, and all their transactions in one list, both in the order of the batch.
pub fn split_batch<B, T>(batch: Vec<(B, Vec<T>)>) -> (split: (Vec<B>, Vec<T>))
    ensures
        split.0@ == blocks_of(batch@),
        split.0@.len() == batch@.len(),
        forall|i: int| 0 <= i < batch@.len() ==> #[trigger] split.0@[i] == batch@[i].0,
        split.1@ == batch@.map_values(|block: (B, Vec<T>)| block.1@).flatten(),
        split.1@ == transactions_of(batch@).flatten(),
{
    let ghost all = batch@;
    let mut blocks: Vec<B> = Vec::new();
    let mut txs: Vec<T> = Vec::new();
    for entry in iter: batch
        invariant
            iter.seq() == all,
            blocks@ == all.take(iter.index()).map_values(|block: (B, Vec<T>)| block.0),
            txs@ == transactions_of(all.take(iter.index())).flatten(),
    {
        proof {
            let seen = all.take(iter.index());
            let next = all.take(iter.index() + 1);
            assert(next =~= seen.push(entry));
            assert(next.map_values(|block: (B, Vec<T>)| block.0) =~= seen.map_values(
                |block: (B, Vec<T>)| block.0,
            ).push(entry.0));
            assert(transactions_of(next) =~= transactions_of(seen).push(entry.1@));
            transactions_of(seen).lemma_flatten_push(entry.1@);
        }
        let (block, mut block_txs) = entry;
        blocks.push(block);
        txs.append(&mut block_txs);
    }
    assert(all.take(all.len() as int) =~= all);
    (blocks, txs)
}

/// The blocks of a batch.
pub open spec fn blocks_of<B, T>(batch: Seq<(B, Vec<T>)>) -> Seq<B> {
    batch.map_values(|block: (B, Vec<T>)| block.0)
}

/// How far the calls of a scan have come.
#[derive(Debug, Clone, Copy, PartialEq, Eq, Structural)]
pub enum CallStage {
    /// The first batch is being called for.
    First,
    /// A batch is being waited for.
    Retrieve,
    /// The transactions of the batch are being sent off, to be taken.
    Transactions,
    /// The blocks of the batch are being handed on.
    Blocks,
    /// There is no batch left to handle.
    Finished,
    /// Something went wrong, and the calls have stopped.
    Failed,
}

/// What came of the last action.
#[derive(Debug)]
pub enum CallEvent<B, T> {
    /// The first batch has been called for.
    FirstCalled,
    /// The batch that was waited for is there.
    Retrieved(Vec<(B, Vec<T>)>),
    /// The transactions have been taken.
    TransactionsTaken,
    /// The blocks have been handed on.
    BlocksHandedOn,
    /// The database sent an answer to something else.
    WrongAnswer,
    /// The action failed.
    Failed,
}

/// What to do next.
#[derive(Debug)]
pub enum CallAction<Blocks, Txs> {
    /// Call for one batch, and then wait for the one that was called for before it.
    CallAndRetrieve { call: BlockRange, retrieve: BlockRange },
    /// Send the transactions off, and wait until they have been taken.
    SendTransactions(Txs),
    /// Hand the blocks on.
    HandOnBlocks(Blocks),
    /// All is done.
    Finish,
    /// Give up, with what went wrong.
    Stop,
    /// Give up: what came was not what the last action asked for.
    Refuse,
}

impl<B, T> View for CallAction<Vec<B>, Vec<T>> {
    type V = CallAction<Seq<B>, Seq<T>>;

    open spec fn view(&self) -> CallAction<Seq<B>, Seq<T>> {
        match *self {
            CallAction::CallAndRetrieve { call, retrieve } => CallAction::CallAndRetrieve {
                call,
                retrieve,
            },
            CallAction::SendTransactions(txs) => CallAction::SendTransactions(txs@),
            CallAction::HandOnBlocks(blocks) => CallAction::HandOnBlocks(blocks@),
            CallAction::Finish => CallAction::Finish,
            CallAction::Stop => CallAction::Stop,
            CallAction::Refuse => CallAction::Refuse,
        }
    }
}

/// What a [`BlockCalls`] holds.
#[verifier::ext_equal]
pub struct CallState<B> {
    pub start_height: u64,
    pub chain_height: u64,
    /// The number of the batch that was called for last.
    pub called: u64,
    pub stage: CallStage,
    /// The blocks that wait for their transactions to be taken.
    pub blocks: Seq<B>,
}

impl<B> CallState<B> {
    /// The number of batches of the scan.
    pub open spec fn count(self) -> int {
        batch_count(self.start_height as int, self.chain_height as int)
    }

    /// The heights of batch `i` of the scan.
    pub open spec fn batch(self, i: int) -> BlockRange {
        batch(self.start_height as int, self.chain_height as int, i)
    }

    pub open spec fn wf(self) -> bool {
        &&& heights_fit(self.start_height as int, self.chain_height as int)
        &&& self.called == 0 || self.called < self.count()
    }

    /// With another stage.
    pub open spec fn at(self, stage: CallStage) -> CallState<B> {
        CallState { stage, ..self }
    }

    /// What comes once there is no batch in hand: the next batch is called for and the one before it
    /// is handled. The last batch is called for, but none comes after it to have it handled.
    pub open spec fn advance<T>(self) -> (CallState<B>, CallAction<Seq<B>, Seq<T>>) {
        if self.called + 1 < self.count() {
            (
                CallState { called: (self.called + 1) as u64, stage: CallStage::Retrieve, ..self },
                CallAction::CallAndRetrieve {
                    call: self.batch(self.called + 1),
                    retrieve: self.batch(self.called as int),
                },
            )
        } else {
            (self.at(CallStage::Finished), CallAction::Finish)
        }
    }

    /// What comes of `event`, and what to do next.
    pub open spec fn next<T>(self, event: CallEvent<B, T>) -> (
        CallState<B>,
        CallAction<Seq<B>, Seq<T>>,
    ) {
        match (self.stage, event) {
            (CallStage::Finished, _) => (self, CallAction::Finish),
            (CallStage::Failed, _) => (self, CallAction::Stop),
            (_, CallEvent::Failed) => (self.at(CallStage::Failed), CallAction::Stop),
            (CallStage::First, CallEvent::FirstCalled) => self.advance(),
            (CallStage::Retrieve, CallEvent::Retrieved(batch)) => (
                CallState { stage: CallStage::Transactions, blocks: blocks_of(batch@), ..self },
                CallAction::SendTransactions(transactions_of(batch@).flatten()),
            ),
            (CallStage::Transactions, CallEvent::TransactionsTaken) => (
                CallState { stage: CallStage::Blocks, blocks: Seq::empty(), ..self },
                CallAction::HandOnBlocks(self.blocks),
            ),
            (CallStage::Blocks, CallEvent::BlocksHandedOn) => self.advance(),
            _ => (self.at(CallStage::Failed), CallAction::Refuse),
        }
    }
}

/// The calls of a scan: a batch is called for while the one before it is handled.
pub struct BlockCalls<B> {
    start_height: u64,
    chain_height: u64,
    called: u64,
    stage: CallStage,
    blocks: Vec<B>,
}

impl<B> View for BlockCalls<B> {
    type V = CallState<B>;

    closed spec fn view(&self) -> CallState<B> {
        CallState {
            start_height: self.start_height,
            chain_height: self.chain_height,
            called: self.called,
            stage: self.stage,
            blocks: self.blocks@,
        }
    }
}

impl<B> BlockCalls<B> {
    /// Starts the calls of a scan of the blocks from `start_height` on, below `chain_height`.
    pub fn new(start_height: u64, chain_height: u64) -> (calls: BlockCalls<B>)
        requires
            heights_fit(start_height as int, chain_height as int),
        ensures
            calls@.wf(),
            calls@ == (CallState {
                start_height,
                chain_height,
                called: 0,
                stage: CallStage::First,
                blocks: Seq::<B>::empty(),
            }),
    {
        BlockCalls { start_height, chain_height, called: 0, stage: CallStage::First, blocks: Vec::new() }
    }

    /// The batch that was called for last, or, at the start, the first one, which is to be called for
    /// at once.
    pub fn current(&self) -> (range: BlockRange)
        requires
            self@.wf(),
        ensures
            range == self@.batch(self@.called as int),
            range.start == self@.start_height + 3000 * self@.called,
            range.end == (if range.start + 3000 <= self@.chain_height {
                range.start + 3000
            } else {
                self@.chain_height as int
            }),
    {
        let start: u64 = self.start_height + BLOCKS_IN_BATCH * self.called;
        let full: u64 = start + BLOCKS_IN_BATCH;
        if full <= self.chain_height {
            BlockRange { start, end: full }
        } else {
            BlockRange { start, end: self.chain_height }
        }
    }

    /// Goes on to the next batch, where there is one.
    fn advance<T>(&mut self) -> (action: CallAction<Vec<B>, Vec<T>>)
        requires
            old(self)@.wf(),
        ensures
            final(self)@.wf(),
            (final(self)@, action@) == old(self)@.advance::<T>(),
    {
        let retrieve = self.current();
        let next_batch_start: u64 = retrieve.start + BLOCKS_IN_BATCH;
        if next_batch_start < self.chain_height {
            self.called = self.called + 1;
            self.stage = CallStage::Retrieve;
            let call = self.current();
            CallAction::CallAndRetrieve { call, retrieve }
        } else {
            self.stage = CallStage::Finished;
            CallAction::Finish
        }
    }

    /// Takes what came of the last action, and says what to do next.
    pub fn step<T>(&mut self, event: CallEvent<B, T>) -> (action: CallAction<Vec<B>, Vec<T>>)
        requires
            old(self)@.wf(),
        ensures
            final(self)@.wf(),
            (final(self)@, action@) == old(self)@.next(event),
            final(self)@.start_height == old(self)@.start_height,
            final(self)@.chain_height == old(self)@.chain_height,
            old(self)@.stage is First && event is FirstCalled || old(self)@.stage is Blocks
                && event is BlocksHandedOn ==> {
                let next_start = old(self)@.start_height + 3000 * (old(self)@.called + 1);
                if next_start < old(self)@.chain_height {
                    &&& final(self)@.called == old(self)@.called + 1
                    &&& final(self)@.stage is Retrieve
                    &&& action matches CallAction::CallAndRetrieve { call, retrieve } && {
                        &&& retrieve.start == next_start - 3000
                        &&& retrieve.end == next_start
                        &&& call.start == next_start
                        &&& call.end == (if next_start + 3000 <= old(self)@.chain_height {
                            next_start + 3000
                        } else {
                            old(self)@.chain_height as int
                        })
                    }
                } else {
                    &&& final(self)@.called == old(self)@.called
                    &&& final(self)@.stage is Finished
                    &&& action is Finish
                }
            },
            old(self)@.stage is Retrieve ==> (event matches CallEvent::Retrieved(batch) ==> {
                &&& final(self)@.stage is Transactions
                &&& final(self)@.called == old(self)@.called
                &&& final(self)@.blocks.len() == batch@.len()
                &&& forall|i: int|
                    0 <= i < batch@.len() ==> #[trigger] final(self)@.blocks[i] == batch@[i].0
                &&& action matches CallAction::SendTransactions(txs) && txs@ == batch@.map_values(
                    |block: (B, Vec<T>)| block.1@,
                ).flatten()
            }),
            old(self)@.stage is Transactions && event is TransactionsTaken ==> {
                &&& final(self)@.stage is Blocks
                &&& final(self)@.called == old(self)@.called
                &&& action matches CallAction::HandOnBlocks(blocks) && blocks@
                    == old(self)@.blocks
            },
            old(self)@.stage is Finished ==> final(self)@.stage is Finished && action is Finish,
            old(self)@.stage is Failed ==> final(self)@.stage is Failed && action is Stop,
            event is Failed && !(old(self)@.stage is Finished) ==> final(self)@.stage is Failed
                && action is Stop,
            event is WrongAnswer && !(old(self)@.stage is Finished) && !(old(self)@.stage is Failed) ==> final(self)@.stage is Failed && action is Refuse,
    {
        match (self.stage, event) {
            (CallStage::Finished, _) => CallAction::Finish,
            (CallStage::Failed, _) => CallAction::Stop,
            (_, CallEvent::Failed) => {
                self.stage = CallStage::Failed;
                CallAction::Stop
            },
            (CallStage::First, CallEvent::FirstCalled) => self.advance(),
            (CallStage::Retrieve, CallEvent::Retrieved(batch)) => {
                let (blocks, txs) = split_batch(batch);
                self.stage = CallStage::Transactions;
                self.blocks = blocks;
                CallAction::SendTransactions(txs)
            },
            (CallStage::Transactions, CallEvent::TransactionsTaken) => {
                let mut blocks: Vec<B> = Vec::new();
                std::mem::swap(&mut blocks, &mut self.blocks);
                self.stage = CallStage::Blocks;
                CallAction::HandOnBlocks(blocks)
            },
            (CallStage::Blocks, CallEvent::BlocksHandedOn) => self.advance(),
            _ => {
                self.stage = CallStage::Failed;
                CallAction::Refuse
            },
        }
    }
}

/// Every height of the scan is called for in one batch, and in no other.
pub proof fn law_each_height_is_called_for_once(start_height: u64, chain_height: u64, height: int)
    requires
        heights_fit(start_height as int, chain_height as int),
        start_height <= height < chain_height,
    ensures
        exists|i: int|
            0 <= i < batch_count(start_height as int, chain_height as int) && (#[trigger] batch(
                start_height as int,
                chain_height as int,
                i,
            )).contains(height),
        forall|i: int, j: int|
            0 <= i < batch_count(start_height as int, chain_height as int) && 0 <= j < batch_count(
                start_height as int,
                chain_height as int,
            ) && (#[trigger] batch(start_height as int, chain_height as int, i)).contains(height) && (
            #[trigger] batch(start_height as int, chain_height as int, j)).contains(height) ==> i == j,
{
    let i = (height - start_height) / 3000;
    assert(i < batch_count(start_height as int, chain_height as int));
    assert(batch_start(start_height as int, i) <= height < batch_start(start_height as int, i + 1));
    assert(batch(start_height as int, chain_height as int, i).contains(height));
}

/// The batches that are called for lie within the scan, follow on one another, and none is empty:
/// the first starts where the scan does and the last ends where it does.
pub proof fn law_batches_follow_on(start_height: u64, chain_height: u64, i: int)
    requires
        heights_fit(start_height as int, chain_height as int),
        0 <= i < batch_count(start_height as int, chain_height as int),
    ensures
        ({
            let count = batch_count(start_height as int, chain_height as int);
            let range = batch(start_height as int, chain_height as int, i);
            &&& start_height <= range.start < range.end <= chain_height
            &&& i == 0 ==> range.start == start_height
            &&& i + 1 < count ==> range.end == batch(
                start_height as int,
                chain_height as int,
                i + 1,
            ).start
            &&& i + 1 == count ==> range.end == chain_height
        }),
{
}

/// A batch that is handled is a full one: as long as there is a next batch, the one before it holds
/// as many blocks as go into a batch. So the heights that are handled are those from the start of
/// the scan up to where its last batch starts.
pub proof fn law_handled_batches_are_full(start_height: u64, chain_height: u64, i: int)
    requires
        heights_fit(start_height as int, chain_height as int),
        0 <= i,
        i + 1 < batch_count(start_height as int, chain_height as int),
    ensures
        batch(start_height as int, chain_height as int, i).end - batch(
            start_height as int,
            chain_height as int,
            i,
        ).start == BLOCKS_IN_BATCH,
        batch(start_height as int, chain_height as int, i).end <= batch(
            start_height as int,
            chain_height as int,
            batch_count(start_height as int, chain_height as int) - 1,
        ).start,
{
}

/// What is done in a run of the calls, event by event.
pub open spec fn call_actions<B, T>(state: CallState<B>, events: Seq<CallEvent<B, T>>) -> Seq<
    CallAction<Seq<B>, Seq<T>>,
>
    decreases events.len(),
{
    if events.len() == 0 {
        Seq::empty()
    } else {
        let (next, action) = state.next(events.first());
        seq![action] + call_actions(next, events.drop_first())
    }
}

/// Each action of a run is the answer to the event before it.
proof fn lemma_call_actions<B, T>(state: CallState<B>, events: Seq<CallEvent<B, T>>)
    ensures
        call_actions(state, events).len() == events.len(),
        events.len() > 0 ==> {
            &&& call_actions(state, events)[0] == state.next(events[0]).1
            &&& forall|k: int|
                0 < k < events.len() ==> #[trigger] call_actions(state, events)[k] == call_actions(
                    state.next(events[0]).0,
                    events.drop_first(),
                )[k - 1]
        },
    decreases events.len(),
{
    if events.len() > 0 {
        lemma_call_actions(state.next(events[0]).0, events.drop_first());
    }
}

/// Once the calls have failed or finished, nothing more is done.
pub proof fn law_calls_stay_over<B, T>(state: CallState<B>, events: Seq<CallEvent<B, T>>, k: int)
    requires
        state.stage is Failed || state.stage is Finished,
        0 <= k < events.len(),
    ensures
        call_actions(state, events)[k] is Stop || call_actions(state, events)[k] is Finish,
    decreases events.len(),
{
    lemma_call_actions(state, events);
    if k > 0 {
        law_calls_stay_over(state.next(events[0]).0, events.drop_first(), k - 1);
    }
}

/// Whatever happens after a batch has been retrieved: first its transactions are sent off; its blocks
/// are handed on only once these have been taken; and only once the blocks have been handed on does
/// the scan go on, to the next batch or to its end, so that no transactions of another batch are sent
/// off before.
pub proof fn law_blocks_are_handed_on_between_transactions<B, T>(
    state: CallState<B>,
    batch: Vec<(B, Vec<T>)>,
    events: Seq<CallEvent<B, T>>,
    k: int,
)
    requires
        state.stage is Retrieve,
        0 <= k < events.len(),
    ensures
        ({
            let (after, first) = state.next(CallEvent::<B, T>::Retrieved(batch));
            let actions = call_actions(after, events);
            &&& first == CallAction::<Seq<B>, Seq<T>>::SendTransactions(
                transactions_of(batch@).flatten(),
            )
            &&& actions[k] is HandOnBlocks ==> {
                &&& events[0] is TransactionsTaken
                &&& actions[0] == CallAction::<Seq<B>, Seq<T>>::HandOnBlocks(blocks_of(batch@))
            }
            &&& (actions[k] is CallAndRetrieve || actions[k] is Finish
                || actions[k] is SendTransactions) ==> {
                &&& k >= 1
                &&& events[0] is TransactionsTaken
                &&& actions[0] == CallAction::<Seq<B>, Seq<T>>::HandOnBlocks(blocks_of(batch@))
                &&& events[1] is BlocksHandedOn
            }
        }),
{
    let (after, first) = state.next(CallEvent::<B, T>::Retrieved(batch));
    lemma_call_actions(after, events);
    let (handing, second) = after.next(events[0]);
    let rest = events.drop_first();
    if k > 0 {
        lemma_call_actions(handing, rest);
        if handing.stage is Failed {
            lemma_no_finish_after_failure(handing, rest, k - 1);
        } else {
            assert(events[0] is TransactionsTaken);
            assert(rest[0] == events[1]);
            if !(events[1] is BlocksHandedOn) {
                let (stopped, third) = handing.next(rest[0]);
                if k > 1 {
                    lemma_no_finish_after_failure(stopped, rest.drop_first(), k - 2);
                }
            }
        }
    }
}

proof fn lemma_no_finish_after_failure<B, T>(
    state: CallState<B>,
    events: Seq<CallEvent<B, T>>,
    k: int,
)
    requires
        state.stage is Failed,
        0 <= k < events.len(),
    ensures
        call_actions(state, events)[k] is Stop,
    decreases events.len(),
{
    lemma_call_actions(state, events);
    if k > 0 {
        lemma_no_finish_after_failure(state.next(events[0]).0, events.drop_first(), k - 1);
    }
}

/// The lists of blocks that are handed on in a run, in order.
pub open spec fn handed_on<B, T>(actions: Seq<CallAction<Seq<B>, Seq<T>>>) -> Seq<Seq<B>>
    decreases actions.len(),
{
    if actions.len() == 0 {
        Seq::empty()
    } else {
        (match actions.first() {
            CallAction::HandOnBlocks(blocks) => seq![blocks],
            _ => Seq::empty(),
        }) + handed_on(actions.drop_first())
    }
}

/// The lists of blocks of the batches that come in, in order.
pub open spec fn retrieved<B, T>(events: Seq<CallEvent<B, T>>) -> Seq<Seq<B>>
    decreases events.len(),
{
    if events.len() == 0 {
        Seq::empty()
    } else {
        (match events.first() {
            CallEvent::Retrieved(batch) => seq![blocks_of(batch@)],
            _ => Seq::empty(),
        }) + retrieved(events.drop_first())
    }
}

impl<B> CallState<B> {
    /// The list of blocks that is still to be handed on, where there is one.
    pub open spec fn in_hand(self) -> Seq<Seq<B>> {
        if self.stage is Transactions {
            seq![self.blocks]
        } else {
            Seq::empty()
        }
    }
}

proof fn lemma_nothing_handed_on_after_the_end<B, T>(
    state: CallState<B>,
    events: Seq<CallEvent<B, T>>,
)
    requires
        state.stage is Failed || state.stage is Finished,
    ensures
        handed_on(call_actions(state, events)) == Seq::<Seq<B>>::empty(),
    decreases events.len(),
{
    if events.len() > 0 {
        lemma_nothing_handed_on_after_the_end(state.next(events[0]).0, events.drop_first());
        assert(call_actions(state, events).drop_first() =~= call_actions(
            state.next(events[0]).0,
            events.drop_first(),
        ));
    }
    assert(handed_on(call_actions(state, events)) =~= Seq::<Seq<B>>::empty());
}

/// In any run, the blocks that are handed on are those of the batches that came in: each batch once,
/// whole, and in order, as far as the run has come.
pub proof fn law_batches_are_handed_on_in_order<B, T>(
    state: CallState<B>,
    events: Seq<CallEvent<B, T>>,
)
    ensures
        handed_on(call_actions(state, events)).is_prefix_of(state.in_hand() + retrieved(events)),
    decreases events.len(),
{
    let actions = call_actions(state, events);
    if events.len() == 0 {
        assert(handed_on(actions) =~= Seq::<Seq<B>>::empty());
    } else {
        let (next, action) = state.next(events[0]);
        let rest = events.drop_first();
        assert(actions.drop_first() =~= call_actions(next, rest));
        let later = handed_on(call_actions(next, rest));
        if next.stage is Failed || next.stage is Finished {
            lemma_nothing_handed_on_after_the_end(next, rest);
            assert(handed_on(actions) =~= Seq::<Seq<B>>::empty());
        } else {
            law_batches_are_handed_on_in_order(next, rest);
            let this: Seq<Seq<B>> = match action {
                CallAction::HandOnBlocks(blocks) => seq![blocks],
                _ => Seq::empty(),
            };
            assert(handed_on(actions) =~= this + later);
            assert(state.in_hand() + retrieved(events) =~= this + (next.in_hand() + retrieved(
                rest,
            )));
        }
    }
}

/// The batches that are called for in a run after the first, each with the one that is handled
/// meanwhile.
pub open spec fn called_for<B, T>(actions: Seq<CallAction<Seq<B>, Seq<T>>>) -> Seq<
    (BlockRange, BlockRange),
>
    decreases actions.len(),
{
    if actions.len() == 0 {
        Seq::empty()
    } else {
        (match actions.first() {
            CallAction::CallAndRetrieve { call, retrieve } => seq![(call, retrieve)],
            _ => Seq::empty(),
        }) + called_for(actions.drop_first())
    }
}

impl<B> CallState<B> {
    /// Whether `pair` is the batch that is called for after `i` others, and the batch before it.
    pub open spec fn calls_next(self, pair: (BlockRange, BlockRange), i: int) -> bool {
        &&& self.called + 1 + i < self.count()
        &&& pair.0 == self.batch(self.called + 1 + i)
        &&& pair.1 == self.batch(self.called + i)
    }
}

/// In any run, the batches are called for one after the other, none is left out, and while one is
/// called for, the one just before it is handled.
pub proof fn law_batches_are_called_for_in_order<B, T>(
    state: CallState<B>,
    events: Seq<CallEvent<B, T>>,
)
    requires
        state.wf(),
    ensures
        ({
            let pairs = called_for(call_actions(state, events));
            forall|i: int|
                0 <= i < pairs.len() ==> state.calls_next(#[trigger] pairs[i], i)
        }),
    decreases events.len(),
{
    let actions = call_actions(state, events);
    let pairs = called_for(actions);
    if events.len() == 0 {
        assert(actions.len() == 0);
        assert(pairs =~= Seq::<(BlockRange, BlockRange)>::empty());
    } else {
        let (next, action) = state.next(events[0]);
        let rest = events.drop_first();
        assert(actions.drop_first() =~= call_actions(next, rest));
        law_batches_are_called_for_in_order(next, rest);
        let later = called_for(call_actions(next, rest));
        let this: Seq<(BlockRange, BlockRange)> = match action {
            CallAction::CallAndRetrieve { call, retrieve } => seq![(call, retrieve)],
            _ => Seq::empty(),
        };
        assert(pairs =~= this + later);
        assert(next.called == state.called + this.len());
        assert forall|i: int| 0 <= i < pairs.len() implies state.calls_next(
            #[trigger] pairs[i],
            i,
        ) by {
            if i >= this.len() {
                assert(pairs[i] == later[i - this.len()]);
                assert(next.calls_next(later[i - this.len()], i - this.len()));
            }
        }
    }
}

/// The heights of a scan can be counted exactly where a full first batch ends within what can be held,
/// and so do as many full batches as it takes to come to the height of the chain.
pub proof fn law_heights_fit_where_full_batches_do(start_height: int, chain_height: int)
    ensures
        heights_fit(start_height, chain_height) <==> start_height + 3000 <= u64::MAX && (start_height
            < chain_height ==> start_height + 3000 * ((chain_height - start_height + 2999) / 3000)
            <= u64::MAX),
{
}

/// There are as many batches as it takes, and no more: with one batch less, full ones would not come
/// to the height of the chain.
pub proof fn law_batch_count_is_least(start_height: int, chain_height: int)
    ensures
        batch_count(start_height, chain_height) >= 0,
        start_height >= chain_height ==> batch_count(start_height, chain_height) == 0,
        start_height < chain_height ==> {
            &&& start_height + 3000 * batch_count(start_height, chain_height) >= chain_height
            &&& start_height + 3000 * (batch_count(start_height, chain_height) - 1) < chain_height
        },
{
}

/// Every batch starts a full batch after the one before it, and ends a full batch after its start or
/// at the height of the chain, whichever comes first.
pub proof fn law_batches_are_full_or_end_the_scan(start_height: u64, chain_height: u64, i: int)
    requires
        heights_fit(start_height as int, chain_height as int),
        i == 0 || 0 <= i < batch_count(start_height as int, chain_height as int),
    ensures
        ({
            let range = batch(start_height as int, chain_height as int, i);
            &&& range.start == start_height + 3000 * i
            &&& range.end <= chain_height
            &&& range.start <= chain_height ==> range.start <= range.end <= range.start + 3000
            &&& range.end == chain_height || range.end == range.start + 3000
        }),
{
}

/// What comes out of a batch are its blocks and the transactions of each of them, one for one and in
/// their places.
pub proof fn law_batch_comes_apart_one_for_one<B, T>(batch: Seq<(B, Vec<T>)>)
    ensures
        blocks_of(batch).len() == batch.len(),
        transactions_of(batch).len() == batch.len(),
        forall|i: int| 0 <= i < batch.len() ==> #[trigger] blocks_of(batch)[i] == batch[i].0,
        forall|i: int| 0 <= i < batch.len() ==> #[trigger] transactions_of(batch)[i] == batch[i].1@,
{
}

/// Taking two batches apart and putting the parts together comes to the same as taking apart the two
/// batches together: no block and no transaction depends on what else is in its batch.
pub proof fn law_batches_come_apart_separately<B, T>(a: Seq<(B, Vec<T>)>, b: Seq<(B, Vec<T>)>)
    ensures
        blocks_of(a + b) == blocks_of(a) + blocks_of(b),
        transactions_of(a + b).flatten() == transactions_of(a).flatten()
            + transactions_of(b).flatten(),
{
    assert(blocks_of(a + b) =~= blocks_of(a) + blocks_of(b));
    assert(transactions_of(a + b) =~= transactions_of(a) + transactions_of(b));
    vstd::seq_lib::lemma_flatten_concat(transactions_of(a), transactions_of(b));
}

/// For a batch that was retrieved, all its transactions are sent off; and once they have been taken,
/// all its blocks are handed on: as many as are in the batch, each in its place.
pub proof fn law_whole_batch_is_handed_on<B, T>(state: CallState<B>, batch: Vec<(B, Vec<T>)>)
    requires
        state.stage is Retrieve,
    ensures
        ({
            let (sending, first) = state.next(CallEvent::<B, T>::Retrieved(batch));
            let (handing, second) = sending.next(CallEvent::<B, T>::TransactionsTaken);
            &&& first matches CallAction::SendTransactions(txs) && txs == batch@.map_values(
                |block: (B, Vec<T>)| block.1@,
            ).flatten()
            &&& second matches CallAction::HandOnBlocks(blocks) && {
                &&& blocks.len() == batch@.len()
                &&& forall|i: int| 0 <= i < batch@.len() ==> #[trigger] blocks[i] == batch@[i].0
            }
            &&& handing.stage is Blocks
        }),
{
    assert(transactions_of(batch@) =~= batch@.map_values(|block: (B, Vec<T>)| block.1@));
}

/// Once a batch has been handled, the next one is retrieved as long as another comes after it below
/// the height of the chain; only where none does are the calls finished.
pub proof fn law_calls_go_on_to_the_chain_height<B, T>(state: CallState<B>, event: CallEvent<B, T>)
    requires
        state.wf(),
        state.stage is First && event is FirstCalled || state.stage is Blocks
            && event is BlocksHandedOn,
    ensures
        ({
            let (next, action) = state.next(event);
            let next_start = state.start_height + 3000 * (state.called + 1);
            &&& next.start_height == state.start_height
            &&& next.chain_height == state.chain_height
            &&& next_start < state.chain_height <==> action is CallAndRetrieve
            &&& next_start >= state.chain_height <==> action is Finish
            &&& action matches CallAction::CallAndRetrieve { call, retrieve } ==> {
                &&& next.stage is Retrieve
                &&& next.called == state.called + 1
                &&& retrieve.start + 3000 == next_start
                &&& retrieve.end == next_start
                &&& call.start == next_start
                &&& call.end <= next_start + 3000
                &&& call.end == next_start + 3000 || call.end == state.chain_height
                &&& call.end <= state.chain_height
            }
            &&& action is Finish ==> next.stage is Finished
        }),
{
}

/// What goes right is never taken for a failure, and what goes wrong always ends the calls.
pub proof fn law_calls_fail_only_on_failure<B, T>(state: CallState<B>, event: CallEvent<B, T>)
    requires
        !(state.stage is Finished),
        !(state.stage is Failed),
    ensures
        (state.next(event).0.stage is Failed) <==> !{
            ||| state.stage is First && event is FirstCalled
            ||| state.stage is Retrieve && event is Retrieved
            ||| state.stage is Transactions && event is TransactionsTaken
            ||| state.stage is Blocks && event is BlocksHandedOn
        },
        state.next(event).1 is Stop <==> event is Failed,
        state.next(event).1 is Refuse <==> (state.next(event).0.stage is Failed
            && !(event is Failed)),
{
}

/// A run that comes to its end has gone through the whole scan: counting from where it began, the
/// last batch has been called for and every batch before it retrieved, and the blocks of all batches
/// that came in have been handed on, whole and in order.
proof fn lemma_finish_is_the_end<B, T>(state: CallState<B>, events: Seq<CallEvent<B, T>>)
    requires
        state.wf(),
        !(state.stage is Finished),
        events.len() > 0,
        call_actions(state, events).last() is Finish,
        forall|k: int|
            0 <= k < events.len() - 1 ==> !((#[trigger] call_actions(state, events)[k]) is Finish),
    ensures
        ({
            let n = called_for(call_actions(state, events)).len();
            &&& state.start_height + 3000 * (state.called + n + 1) >= state.chain_height
            &&& n > 0 ==> state.start_height + 3000 * (state.called + n) < state.chain_height
            &&& handed_on(call_actions(state, events)) == state.in_hand() + retrieved(events)
            &&& events.last() is FirstCalled || events.last() is BlocksHandedOn
        }),
    decreases events.len(),
{
    let actions = call_actions(state, events);
    lemma_call_actions(state, events);
    let (next, action) = state.next(events[0]);
    let rest = events.drop_first();
    lemma_call_actions(next, rest);
    assert(actions.drop_first() =~= call_actions(next, rest));
    let pairs: Seq<(BlockRange, BlockRange)> = match action {
        CallAction::CallAndRetrieve { call, retrieve } => seq![(call, retrieve)],
        _ => Seq::empty(),
    };
    let handed: Seq<Seq<B>> = match action {
        CallAction::HandOnBlocks(blocks) => seq![blocks],
        _ => Seq::empty(),
    };
    assert(called_for(actions) =~= pairs + called_for(actions.drop_first()));
    assert(handed_on(actions) =~= handed + handed_on(actions.drop_first()));
    if events.len() == 1 {
        assert(actions.last() == action);
        assert(called_for(call_actions(next, rest)) =~= Seq::empty());
        assert(handed_on(call_actions(next, rest)) =~= Seq::empty());
        assert(retrieved(rest) =~= Seq::<Seq<B>>::empty());
        assert(handed_on(actions) =~= state.in_hand() + retrieved(events));
    } else {
        assert(!(actions[0] is Finish));
        assert(actions.last() == call_actions(next, rest).last());
        if next.stage is Failed {
            lemma_no_finish_after_failure(next, rest, rest.len() - 1);
            assert(false);
        }
        assert forall|k: int| 0 <= k < rest.len() - 1 implies !((#[trigger] call_actions(
            next,
            rest,
        )[k]) is Finish) by {
            assert(actions[k + 1] == call_actions(next, rest)[k]);
        }
        lemma_finish_is_the_end(next, rest);
        assert(state.in_hand() + retrieved(events) =~= handed + (next.in_hand() + retrieved(rest)));
        assert(events.last() == rest.last());
    }
}

/// The calls finish only once the last batch of the scan has been called for. By then every batch
/// before it has been retrieved: the number of them is the least that brings the next start to the
/// height of the chain. And all blocks that came in have been handed on.
pub proof fn law_calls_finish_at_the_chain_height<B, T>(
    state: CallState<B>,
    events: Seq<CallEvent<B, T>>,
)
    requires
        state.wf(),
        state.stage is First,
        state.called == 0,
        events.len() > 0,
        call_actions(state, events).last() is Finish,
        forall|k: int|
            0 <= k < events.len() - 1 ==> !((#[trigger] call_actions(state, events)[k]) is Finish),
    ensures
        ({
            let n = called_for(call_actions(state, events)).len();
            &&& state.start_height + 3000 * (n + 1) >= state.chain_height
            &&& n > 0 ==> state.start_height + 3000 * n < state.chain_height
            &&& state.start_height < state.chain_height ==> n == batch_count(
                state.start_height as int,
                state.chain_height as int,
            ) - 1
            &&& state.start_height >= state.chain_height ==> n == 0
            &&& handed_on(call_actions(state, events)) == retrieved(events)
        }),
{
    lemma_finish_is_the_end(state, events);
    assert(state.in_hand() + retrieved(events) =~= retrieved(events));
}

/// The limits of the calls.
pub proof fn law_limits_of_the_calls()
    ensures
        MAX_BLOCKS_IN_RANGE == 1000,
        MAX_BLOCKS_HEADERS_IN_RANGE == 1000,
        BLOCKS_IN_BATCH == 3000,
{
}

/// The batch that was called for last starts as many full batches after the start of the scan as were
/// called for before it, and ends a full batch later or at the height of the chain.
pub proof fn law_called_batch_lies_in_the_scan<B>(state: CallState<B>)
    requires
        state.wf(),
    ensures
        state.batch(state.called as int).start == state.start_height + 3000 * state.called,
        state.start_height + 3000 * (state.called + 1) <= state.chain_height ==> state.batch(
            state.called as int,
        ).end == state.start_height + 3000 * (state.called + 1),
        state.start_height + 3000 * (state.called + 1) > state.chain_height ==> state.batch(
            state.called as int,
        ).end == state.chain_height,
        state.called > 0 ==> state.start_height + 3000 * state.called < state.chain_height,
{
}

/// What is seen of an action is all that it holds.
pub proof fn law_action_is_seen_whole<B, T>(action: CallAction<Vec<B>, Vec<T>>)
    ensures
        action matches CallAction::SendTransactions(txs) ==> action@ == CallAction::<
            Seq<B>,
            Seq<T>,
        >::SendTransactions(txs@),
        action matches CallAction::HandOnBlocks(blocks) ==> action@ == CallAction::<
            Seq<B>,
            Seq<T>,
        >::HandOnBlocks(blocks@),
        action matches CallAction::CallAndRetrieve { call, retrieve } ==> action@ == (CallAction::<
            Seq<B>,
            Seq<T>,
        >::CallAndRetrieve { call, retrieve }),
        action is Finish <==> action@ is Finish,
        action is Stop <==> action@ is Stop,
        action is Refuse <==> action@ is Refuse,
{
}

} // verus!
