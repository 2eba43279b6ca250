use monero_consensus::calls::BlockRange;
use monero_consensus::hardforks::HardFork;
use monero_consensus::scan::{
    prepare_all, take_preparation, update_cache_and_context, Scan, ScanAction, ScanEvent,
    ScanProgress, ScanStep, VerifiedBlock, VerifiedBlockInformation, SCAN_TO_HEIGHT,
};

type Blocks = Scan<u32, &'static str, u8>;
type Event = ScanEvent<u32, &'static str, u8>;
type Action = ScanAction<u32, &'static str, u8>;

fn range(start: u64, end: u64) -> BlockRange {
    BlockRange { start, end }
}

fn verified(height: u64) -> VerifiedBlock<&'static str, u8> {
    VerifiedBlock {
        info: VerifiedBlockInformation {
            block_hash: [1; 32],
            height,
            timestamp: 2,
            weight: 3,
            long_term_weight: 4,
            hf_vote: HardFork::V5,
            generated_coins: 6,
            cumulative_difficulty: 7,
        },
        miner_tx: "miner",
        txs: vec![8, 9],
    }
}

#[test]
fn height_of_a_scan() {
    assert_eq!(SCAN_TO_HEIGHT, 3_000_000);
}

#[test]
fn blocks_are_prepared_a_few_at_a_time() {
    let mut waiting: Vec<u32> = (0..400).collect();
    let first = take_preparation(&mut waiting);
    let second = take_preparation(&mut waiting);
    let third = take_preparation(&mut waiting);
    assert_eq!(first, (0..150).collect::<Vec<u32>>());
    assert_eq!(second, (150..300).collect::<Vec<u32>>());
    assert_eq!(third, (300..400).collect::<Vec<u32>>());
    assert!(waiting.is_empty());
    assert!(take_preparation(&mut waiting).is_empty());
}

#[test]
fn all_blocks_are_prepared() {
    let lists = prepare_all((0..400u32).collect());
    assert_eq!(lists.len(), 3);
    assert_eq!(lists[0].len(), 150);
    assert_eq!(lists[1].len(), 150);
    assert_eq!(lists[2].len(), 100);
    assert_eq!(
        lists.into_iter().flatten().collect::<Vec<u32>>(),
        (0..400).collect::<Vec<u32>>()
    );

    assert_eq!(prepare_all((0..300u32).collect()).len(), 2);
    assert!(prepare_all(Vec::<u32>::new()).is_empty());
}

#[test]
fn verified_block_goes_to_cache_then_context() {
    let block = VerifiedBlock {
        info: VerifiedBlockInformation {
            block_hash: [9; 32],
            height: 7,
            timestamp: 1000,
            weight: 300,
            long_term_weight: 176,
            hf_vote: HardFork::V2,
            generated_coins: 35,
            cumulative_difficulty: 5000,
        },
        miner_tx: "miner of the block",
        txs: Vec::<u8>::new(),
    };
    let mut steps = update_cache_and_context(block);
    assert_eq!(steps.len(), 2);

    match steps.pop() {
        Some(ScanStep::UpdateContext(data)) => {
            assert_eq!(data.new_top_hash, [9; 32]);
            assert_eq!(data.height, 7);
            assert_eq!(data.timestamp, 1000);
            assert_eq!(data.weight, 300);
            assert_eq!(data.long_term_weight, 176);
            assert_eq!(data.vote, HardFork::V2);
            assert_eq!(data.generated_coins, 35);
            assert_eq!(data.cumulative_difficulty, 5000);

            let request = data.request();
            assert_eq!(request.new_top_hash, [9; 32]);
            assert_eq!(request.height, 7);
            assert_eq!(request.timestamp, 1000);
            assert_eq!(request.weight, 300);
            assert_eq!(request.long_term_weight, 176);
            assert_eq!(request.vote, HardFork::V2);
            assert_eq!(request.generated_coins, 35);
        }
        _ => panic!("the context is not updated"),
    }
    match steps.pop() {
        Some(ScanStep::AddToCache { generated_coins, miner_tx, txs }) => {
            assert_eq!(generated_coins, 35);
            assert_eq!(miner_tx, "miner of the block");
            assert!(txs.is_empty());
        }
        _ => panic!("the cache is not added to"),
    }
}

#[test]
fn cache_is_saved_before_every_so_many_blocks() {
    let mut progress = ScanProgress::new();
    assert_eq!(progress.verified_range(), range(0, 0));

    let steps = progress.verified(verified(9_999));
    assert_eq!(steps.len(), 2);
    assert!(matches!(steps[0], ScanStep::AddToCache { .. }));
    assert_eq!(progress.verified_range(), range(0, 9_999));

    let steps = progress.verified(verified(10_000));
    assert_eq!(steps.len(), 3);
    assert!(matches!(steps[0], ScanStep::SaveCache));
    assert!(matches!(steps[1], ScanStep::AddToCache { .. }));
    assert!(matches!(steps[2], ScanStep::UpdateContext(_)));
    assert_eq!(progress.verified_range(), range(0, 10_000));

    let saved = (20_001u64..25_001)
        .filter(|height| progress.verified(verified(*height)).len() == 3)
        .collect::<Vec<u64>>();
    assert_eq!(saved, vec![25_000]);
}

fn expect_verify(action: Action, block: u32) {
    match action {
        ScanAction::Verify(sent) => assert_eq!(sent, block),
        _ => panic!("no block is verified"),
    }
}

fn expect_update(scan: &mut Blocks, action: Action) -> Action {
    match action {
        ScanAction::Do(ScanStep::AddToCache { generated_coins, miner_tx, txs }) => {
            assert_eq!(generated_coins, 6);
            assert_eq!(miner_tx, "miner");
            assert_eq!(txs, vec![8, 9]);
        }
        _ => panic!("the cache is not added to"),
    }
    match scan.step(Event::StepDone) {
        ScanAction::Do(ScanStep::UpdateContext(_)) => {}
        _ => panic!("the context is not updated"),
    }
    scan.step(Event::StepDone)
}

#[test]
fn blocks_are_scanned_one_after_the_other() {
    let mut scan = Blocks::new();

    let action = scan.step(Event::ListPrepared(vec![31, 32]));
    expect_verify(action, 31);
    let action = scan.step(Event::Verified(verified(11)));
    let action = expect_update(&mut scan, action);
    expect_verify(action, 32);

    let action = scan.step(Event::Verified(verified(5_000)));
    assert!(matches!(action, ScanAction::Do(ScanStep::SaveCache)));
    let action = scan.step(Event::StepDone);
    match expect_update(&mut scan, action) {
        ScanAction::ReportAndWait(verified) => assert_eq!(verified, range(0, 5_000)),
        _ => panic!("the list is not reported"),
    }

    match scan.step(Event::ListPrepared(vec![])) {
        ScanAction::ReportAndWait(verified) => assert_eq!(verified, range(0, 0)),
        _ => panic!("the empty list is not reported"),
    }

    let action = scan.step(Event::ListPrepared(vec![33]));
    expect_verify(action, 33);
    let action = scan.step(Event::Verified(verified(12)));
    let action = expect_update(&mut scan, action);
    assert!(matches!(action, ScanAction::ReportAndWait(_)));

    assert!(matches!(scan.step(Event::NoMoreLists), ScanAction::Finish));
    assert!(matches!(scan.step(Event::StepDone), ScanAction::Finish));
}

#[test]
fn scan_stops_where_a_step_fails() {
    let mut scan = Blocks::new();
    scan.step(Event::ListPrepared(vec![31, 32]));
    scan.step(Event::Verified(verified(11)));
    assert!(matches!(scan.step(Event::Failed), ScanAction::Stop));
    assert!(matches!(scan.step(Event::StepDone), ScanAction::Stop));
    assert!(matches!(scan.step(Event::StepDone), ScanAction::Stop));
}

#[test]
fn scan_stops_where_verification_or_preparation_fails() {
    let mut scan = Blocks::new();
    scan.step(Event::ListPrepared(vec![31, 32]));
    assert!(matches!(scan.step(Event::Failed), ScanAction::Stop));
    assert!(matches!(scan.step(Event::Verified(verified(11))), ScanAction::Stop));

    let mut scan = Blocks::new();
    assert!(matches!(scan.step(Event::Failed), ScanAction::Stop));
}

#[test]
fn scan_refuses_what_was_not_asked_for() {
    let mut scan = Blocks::new();
    assert!(matches!(scan.step(Event::WrongAnswer), ScanAction::Refuse));
    assert!(matches!(scan.step(Event::ListPrepared(vec![31])), ScanAction::Stop));

    let mut scan = Blocks::new();
    scan.step(Event::ListPrepared(vec![31]));
    assert!(matches!(scan.step(Event::WrongAnswer), ScanAction::Refuse));

    let mut scan = Blocks::new();
    scan.step(Event::ListPrepared(vec![31, 32]));
    scan.step(Event::Verified(verified(11)));
    assert!(matches!(
        scan.step(Event::Verified(verified(12))),
        ScanAction::Refuse
    ));
}
