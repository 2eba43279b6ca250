use monero_consensus::calls::{
    check_heights, split_batch, BlockCalls, BlockRange, CallAction, CallEvent, BLOCKS_IN_BATCH,
    MAX_BLOCKS_HEADERS_IN_RANGE, MAX_BLOCKS_IN_RANGE,
};

type Calls = BlockCalls<&'static str>;
type Event = CallEvent<&'static str, u32>;
type Action = CallAction<Vec<&'static str>, Vec<u32>>;

fn range(start: u64, end: u64) -> BlockRange {
    BlockRange { start, end }
}

fn batch() -> Vec<(&'static str, Vec<u32>)> {
    vec![("a", vec![1, 2]), ("b", vec![]), ("c", vec![3])]
}

fn expect_call(action: Action, call: BlockRange, retrieve: BlockRange) {
    match action {
        CallAction::CallAndRetrieve { call: c, retrieve: r } => {
            assert_eq!(c, call);
            assert_eq!(r, retrieve);
        }
        _ => panic!("no batch is called for"),
    }
}

/// Handles the batch that is being waited for.
fn handle(calls: &mut Calls) -> Action {
    match calls.step(Event::Retrieved(batch())) {
        CallAction::SendTransactions(txs) => assert_eq!(txs, vec![1, 2, 3]),
        _ => panic!("no transactions are sent"),
    }
    match calls.step(Event::TransactionsTaken) {
        CallAction::HandOnBlocks(blocks) => assert_eq!(blocks, vec!["a", "b", "c"]),
        _ => panic!("no blocks are handed on"),
    }
    calls.step(Event::BlocksHandedOn)
}

#[test]
fn limits_of_the_calls() {
    assert_eq!(MAX_BLOCKS_IN_RANGE, 1000);
    assert_eq!(MAX_BLOCKS_HEADERS_IN_RANGE, 1000);
    assert_eq!(BLOCKS_IN_BATCH, 3000);
}

#[test]
fn batches_are_called_for_ahead() {
    let mut calls = Calls::new(1, 7000);
    assert_eq!(calls.current(), range(1, 3001));
    let action = calls.step(Event::FirstCalled);
    expect_call(action, range(3001, 6001), range(1, 3001));
    assert_eq!(calls.current(), range(3001, 6001));
    let action = handle(&mut calls);
    expect_call(action, range(6001, 7000), range(3001, 6001));
    let action = handle(&mut calls);
    assert!(matches!(action, CallAction::Finish));
    assert_eq!(calls.current(), range(6001, 7000));
    assert!(matches!(calls.step(Event::FirstCalled), CallAction::Finish));
}

#[test]
fn a_single_batch_is_not_handled() {
    let mut calls = Calls::new(0, 3000);
    assert_eq!(calls.current(), range(0, 3000));
    assert!(matches!(calls.step(Event::FirstCalled), CallAction::Finish));

    let mut calls = Calls::new(0, 3001);
    let action = calls.step(Event::FirstCalled);
    expect_call(action, range(3000, 3001), range(0, 3000));
    assert!(matches!(handle(&mut calls), CallAction::Finish));
}

#[test]
fn nothing_to_scan() {
    let mut calls = Calls::new(10, 10);
    assert_eq!(calls.current(), range(10, 10));
    assert!(matches!(calls.step(Event::FirstCalled), CallAction::Finish));

    let mut calls = Calls::new(10, 4);
    assert_eq!(calls.current(), range(10, 4));
    assert!(matches!(calls.step(Event::FirstCalled), CallAction::Finish));
}

#[test]
fn every_height_is_called_for_once() {
    let mut calls = Calls::new(17, 20_000);
    let first = calls.current();
    assert_eq!(first.start, 17);
    let mut called = first;
    let mut action = calls.step(Event::FirstCalled);
    while let CallAction::CallAndRetrieve { call, retrieve } = action {
        assert_eq!(retrieve, called);
        assert_eq!(retrieve.end - retrieve.start, 3000);
        assert_eq!(call.start, retrieve.end);
        assert!(call.start < call.end);
        called = call;
        action = handle(&mut calls);
    }
    assert!(matches!(action, CallAction::Finish));
    assert_eq!(called.end, 20_000);
}

#[test]
fn calls_stop_at_a_failure() {
    let mut calls = Calls::new(0, 10_000);
    calls.step(Event::FirstCalled);
    calls.step(Event::Retrieved(batch()));
    assert!(matches!(calls.step(Event::Failed), CallAction::Stop));
    assert!(matches!(calls.step(Event::TransactionsTaken), CallAction::Stop));
    assert!(matches!(calls.step(Event::BlocksHandedOn), CallAction::Stop));
}

#[test]
fn calls_refuse_what_was_not_asked_for() {
    let mut calls = Calls::new(0, 10_000);
    calls.step(Event::FirstCalled);
    assert!(matches!(calls.step(Event::WrongAnswer), CallAction::Refuse));
    assert!(matches!(calls.step(Event::Retrieved(batch())), CallAction::Stop));

    let mut calls = Calls::new(0, 10_000);
    calls.step(Event::FirstCalled);
    calls.step(Event::Retrieved(batch()));
    assert!(matches!(calls.step(Event::BlocksHandedOn), CallAction::Refuse));

    let mut calls = Calls::new(0, 10_000);
    calls.step(Event::FirstCalled);
    calls.step(Event::Retrieved(batch()));
    assert!(matches!(calls.step(Event::Retrieved(batch())), CallAction::Refuse));
}

#[test]
fn heights_that_cannot_be_counted() {
    assert!(check_heights(0, 0));
    assert!(check_heights(u64::MAX - 3000, 0));
    assert!(!check_heights(u64::MAX - 2999, 0));
    assert!(!check_heights(u64::MAX, u64::MAX));
    assert!(check_heights(u64::MAX - 3000, u64::MAX));
    assert!(check_heights(u64::MAX - 6000, u64::MAX - 1));
    assert!(!check_heights(u64::MAX - 3001, u64::MAX));
    assert!(!check_heights(0, u64::MAX));
}

#[test]
fn batch_is_split_in_order() {
    let batch = vec![
        ("a", vec![1, 2]),
        ("b", vec![]),
        ("c", vec![3]),
        ("d", vec![4, 5, 6]),
    ];
    let (blocks, txs) = split_batch(batch);
    assert_eq!(blocks, vec!["a", "b", "c", "d"]);
    assert_eq!(txs, vec![1, 2, 3, 4, 5, 6]);

    let (blocks, txs) = split_batch(Vec::<(u8, Vec<u8>)>::new());
    assert!(blocks.is_empty());
    assert!(txs.is_empty());
}
