use monero_consensus::context::{
    BlockChainContextRequest, BlockChainContextService, CacheReadings, CacheUpdate, ChainAnswer,
    ChainQuestion, ChainTip, ContextConfig, ContextInit, IncorrectAnswer,
    UpdateBlockchainCacheRequest, UpdateStage,
};
use monero_consensus::hardforks::HardFork;
use monero_consensus::weight::{BlockWeights, BlockWeightsCache, BlockWeightsCacheConfig};

fn weights() -> BlockWeightsCache {
    let blocks = vec![
        BlockWeights { weight: 10, long_term_weight: 20 },
        BlockWeights { weight: 30, long_term_weight: 40 },
    ];
    BlockWeightsCache::init_from_chain_height(2, BlockWeightsCacheConfig::new(2, 3), &blocks)
}

fn tip() -> ChainTip {
    ChainTip {
        chain_height: 2,
        top_block_hash: [7; 32],
        already_generated_coins: 1000,
    }
}

fn service() -> BlockChainContextService {
    let service: Result<BlockChainContextService, &str> =
        BlockChainContextService::new(tip(), Ok(()), Ok(weights()), Ok(()));
    service.unwrap()
}

fn readings() -> CacheReadings {
    CacheReadings {
        current_hard_fork: HardFork::V12,
        next_difficulty: 1,
        cumulative_difficulty: 2,
        effective_median_weight: 3,
        median_weight_for_block_reward: 4,
        time_lock_timestamp: 1_700_000_000,
    }
}

fn new_block(height: u64, generated_coins: u64) -> UpdateBlockchainCacheRequest {
    UpdateBlockchainCacheRequest {
        new_top_hash: [9; 32],
        height,
        timestamp: 555,
        weight: 50,
        long_term_weight: 60,
        generated_coins,
        vote: HardFork::V13,
    }
}

#[test]
fn main_net_configuration() {
    let config = ContextConfig::main_net();
    assert_eq!(config.difficulty_cfg.window, 720);
    assert_eq!(config.difficulty_cfg.cut, 60);
    assert_eq!(config.difficulty_cfg.lag, 15);
    assert_eq!(config.weights_config.short_term_window, 100);
    assert_eq!(config.weights_config.long_term_window, 100_000);
    assert_eq!(config.hard_fork_cfg.window, 10_080);
    assert_eq!(config.hard_fork_cfg.forks[0].height, 0);
    assert_eq!(config.hard_fork_cfg.forks[1].height, 1_009_827);
    assert_eq!(config.hard_fork_cfg.forks[15].height, 2_689_608);
    assert!(config.hard_fork_cfg.forks.iter().all(|fork| fork.threshold == 0));
}

#[test]
fn init_asks_for_height_then_coins() {
    let init = ContextInit::start();
    assert_eq!(init.question(), Some(ChainQuestion::ChainHeight));

    let init = init.answer(ChainAnswer::ChainHeight(12, [3; 32])).unwrap();
    assert_eq!(init.question(), Some(ChainQuestion::GeneratedCoins));

    let init = init.answer(ChainAnswer::GeneratedCoins(77)).unwrap();
    assert_eq!(init.question(), None);

    match init {
        ContextInit::Caches(tip) => {
            assert_eq!(tip.chain_height, 12);
            assert_eq!(tip.top_block_hash, [3; 32]);
            assert_eq!(tip.already_generated_coins, 77);
        }
        _ => panic!("not set up"),
    }
}

#[test]
fn init_refuses_other_answers() {
    let init = ContextInit::start();
    assert_eq!(
        init.answer(ChainAnswer::GeneratedCoins(77)).err(),
        Some(IncorrectAnswer)
    );
    assert_eq!(init.answer(ChainAnswer::Other).err(), Some(IncorrectAnswer));

    let init = init.answer(ChainAnswer::ChainHeight(12, [3; 32])).unwrap();
    assert_eq!(
        init.answer(ChainAnswer::ChainHeight(12, [3; 32])).err(),
        Some(IncorrectAnswer)
    );
    assert_eq!(init.answer(ChainAnswer::Other).err(), Some(IncorrectAnswer));

    let init = init.answer(ChainAnswer::GeneratedCoins(77)).unwrap();
    assert_eq!(
        init.answer(ChainAnswer::GeneratedCoins(77)).err(),
        Some(IncorrectAnswer)
    );
}

#[test]
fn first_failure_to_load_counts() {
    let all = BlockChainContextService::new(
        tip(),
        Err("difficulty"),
        Err("weights"),
        Err("hard fork"),
    );
    assert_eq!(all.err(), Some("difficulty"));

    let two = BlockChainContextService::new(tip(), Ok(()), Err("weights"), Err("hard fork"));
    assert_eq!(two.err(), Some("weights"));

    let one = BlockChainContextService::new(tip(), Ok(()), Ok(weights()), Err("hard fork"));
    assert_eq!(one.err(), Some("hard fork"));
}

#[test]
fn context_is_put_together() {
    let context = service().call(BlockChainContextRequest, readings());
    assert_eq!(context.next_difficulty, 1);
    assert_eq!(context.cumulative_difficulty, 2);
    assert_eq!(context.effective_median_weight, 3);
    assert_eq!(context.median_weight_for_block_reward, 4);
    assert_eq!(context.median_long_term_weight, 30);
    assert_eq!(context.already_generated_coins, 1000);
    assert_eq!(context.time_lock_timestamp, 1_700_000_000);
    assert_eq!(context.chain_height, 2);
    assert_eq!(context.top_hash, [7; 32]);
    assert_eq!(context.current_hard_fork, HardFork::V12);
}

#[test]
fn update_goes_through_the_caches_in_order() {
    let new = new_block(2, 5);
    assert_eq!(
        UpdateStage::Difficulty.cache_update(&new),
        Some(CacheUpdate::Difficulty { height: 2, timestamp: 555 })
    );
    assert_eq!(
        UpdateStage::HardFork.cache_update(&new),
        Some(CacheUpdate::HardFork { vote: HardFork::V13, height: 2 })
    );
    assert_eq!(UpdateStage::Finished.cache_update(&new), None);
    assert_eq!(UpdateStage::Failed.cache_update(&new), None);
}

#[test]
fn read_after_update_shows_the_block() {
    let mut service = service();
    let new = new_block(2, 5);

    let stage = service.update(UpdateStage::Difficulty, true, &new);
    assert_eq!(stage, UpdateStage::HardFork);
    let stage = service.update(stage, true, &new);
    assert_eq!(stage, UpdateStage::Finished);

    let context = service.call(BlockChainContextRequest, readings());
    assert_eq!(context.chain_height, 3);
    assert_eq!(context.top_hash, [9; 32]);
    assert_eq!(context.already_generated_coins, 1005);
    assert_eq!(context.median_long_term_weight, 40);

    let stage = service.update(stage, true, &new);
    assert_eq!(stage, UpdateStage::Finished);
    assert_eq!(service.tip.chain_height, 3);
    assert_eq!(service.tip.already_generated_coins, 1005);
}

#[test]
fn update_fails_where_difficulty_does() {
    let mut service = service();
    let new = new_block(2, 5);

    let stage = service.update(UpdateStage::Difficulty, false, &new);
    assert_eq!(stage, UpdateStage::Failed);
    assert_eq!(service.update(stage, true, &new), UpdateStage::Failed);

    let context = service.call(BlockChainContextRequest, readings());
    assert_eq!(context.chain_height, 2);
    assert_eq!(context.top_hash, [7; 32]);
    assert_eq!(context.already_generated_coins, 1000);
    assert_eq!(context.median_long_term_weight, 30);
}

#[test]
fn update_keeps_the_tip_where_the_hard_fork_state_fails() {
    let mut service = service();
    let new = new_block(2, 5);

    let stage = service.update(UpdateStage::Difficulty, true, &new);
    let stage = service.update(stage, false, &new);
    assert_eq!(stage, UpdateStage::Failed);

    let context = service.call(BlockChainContextRequest, readings());
    assert_eq!(context.chain_height, 2);
    assert_eq!(context.top_hash, [7; 32]);
    assert_eq!(context.already_generated_coins, 1000);
    assert_eq!(context.median_long_term_weight, 40);
}

#[test]
fn coins_stop_at_the_largest_count() {
    let mut service = service();
    let new = new_block(2, u64::MAX - 1000);
    let stage = service.update(UpdateStage::Difficulty, true, &new);
    service.update(stage, true, &new);
    assert_eq!(service.tip.already_generated_coins, u64::MAX);

    let new = new_block(3, 1);
    let stage = service.update(UpdateStage::Difficulty, true, &new);
    service.update(stage, true, &new);
    assert_eq!(service.tip.already_generated_coins, u64::MAX);
    assert_eq!(service.tip.chain_height, 4);
}

#[test]
fn caches_are_loaded_with_their_configuration() {
    let config = ContextConfig::main_net();
    let loads = config.cache_loads(&tip());
    assert_eq!(loads.difficulty.chain_height, 2);
    assert_eq!(loads.difficulty.config, config.difficulty_cfg);
    assert_eq!(loads.weights.chain_height, 2);
    assert_eq!(loads.weights.config, config.weights_config);
    assert_eq!(loads.hard_fork.chain_height, 2);
    assert_eq!(loads.hard_fork.config.window, 10_080);
    assert_eq!(loads.hard_fork.config.forks, config.hard_fork_cfg.forks);
}

#[test]
fn caches_are_asked_with_the_fork_and_the_medians() {
    let questions = service().questions(HardFork::V9);
    assert_eq!(questions.current_hard_fork, HardFork::V9);
    assert_eq!(questions.median_short_term_weight, 20);
    assert_eq!(questions.median_long_term_weight, 30);
}
