use monero_consensus::weight::{BlockWeights, BlockWeightsCache, BlockWeightsCacheConfig};

fn test_weight_config() -> BlockWeightsCacheConfig {
    BlockWeightsCacheConfig::new(100, 5000)
}

fn same(weight: usize) -> BlockWeights {
    BlockWeights {
        weight,
        long_term_weight: weight,
    }
}

#[test]
fn blocks_out_of_window_not_counted() {
    let mut blocks = Vec::new();
    for weight in 1..=5000 {
        blocks.push(same(weight));
    }

    let mut weight_cache =
        BlockWeightsCache::init_from_chain_height(5000, test_weight_config(), &blocks);
    assert_eq!(weight_cache.median_long_term_weight(), 2500);
    assert_eq!(weight_cache.median_short_term_weight(), 4950);

    weight_cache.new_block(5000, 0, 0);
    weight_cache.new_block(5001, 0, 0);
    weight_cache.new_block(5002, 0, 0);

    // if blocks outside the window were not removed adding the blocks above would have pulled the median down.
    assert_eq!(weight_cache.median_long_term_weight(), 2500);
    assert_eq!(weight_cache.median_short_term_weight(), 4950);
}

#[test]
fn weight_cache_calculates_correct_median() {
    // add an initial block as otherwise there is nothing to take a median of.
    let blocks = vec![same(0)];

    let mut weight_cache =
        BlockWeightsCache::init_from_chain_height(1, test_weight_config(), &blocks);

    for height in 1..=100 {
        weight_cache.new_block(height as u64, height, height);

        assert_eq!(weight_cache.median_short_term_weight(), height / 2);
        assert_eq!(weight_cache.median_long_term_weight(), height / 2);
    }

    for height in 101..=5000 {
        weight_cache.new_block(height as u64, height, height);

        assert_eq!(weight_cache.median_long_term_weight(), height / 2);
    }
}

#[test]
fn config_keeps_its_windows() {
    let config = BlockWeightsCacheConfig::new(3, 7);
    assert_eq!(config.short_term_window, 3);
    assert_eq!(config.long_term_window, 7);

    let config = BlockWeightsCacheConfig::main_net();
    assert_eq!(config.short_term_window, 100);
    assert_eq!(config.long_term_window, 100_000);
}

#[test]
fn first_height_reaches_back_the_larger_window() {
    assert_eq!(BlockWeightsCacheConfig::new(3, 7).first_height(100), 93);
    assert_eq!(BlockWeightsCacheConfig::new(9, 7).first_height(100), 91);
    assert_eq!(BlockWeightsCacheConfig::new(3, 7).first_height(7), 0);
    assert_eq!(BlockWeightsCacheConfig::new(3, 7).first_height(5), 0);
}

#[test]
fn mean_of_the_middle_weights_is_rounded_down() {
    let config = BlockWeightsCacheConfig::new(10, 10);
    let cache = BlockWeightsCache::init_from_chain_height(
        4,
        config,
        &vec![same(9), same(1), same(30), same(4)],
    );
    assert_eq!(cache.median_short_term_weight(), 6);

    let cache = BlockWeightsCache::init_from_chain_height(
        2,
        config,
        &vec![same(usize::MAX), same(usize::MAX - 1)],
    );
    assert_eq!(cache.median_long_term_weight(), usize::MAX - 1);

    let cache =
        BlockWeightsCache::init_from_chain_height(3, config, &vec![same(8), same(5), same(5)]);
    assert_eq!(cache.median_long_term_weight(), 5);
}

#[test]
fn the_two_windows_hold_different_weights() {
    let blocks = vec![
        BlockWeights { weight: 1, long_term_weight: 100 },
        BlockWeights { weight: 2, long_term_weight: 300 },
        BlockWeights { weight: 7, long_term_weight: 200 },
    ];
    let mut cache = BlockWeightsCache::init_from_chain_height(
        3,
        BlockWeightsCacheConfig::new(1, 3),
        &blocks,
    );
    assert_eq!(cache.tip_height(), 2);
    assert_eq!(cache.median_short_term_weight(), 7);
    assert_eq!(cache.median_long_term_weight(), 200);

    cache.new_block(3, 4, 50);
    assert_eq!(cache.tip_height(), 3);
    assert_eq!(cache.median_short_term_weight(), 4);
    assert_eq!(cache.median_long_term_weight(), 200);

    cache.new_block(4, 6, 60);
    assert_eq!(cache.median_short_term_weight(), 6);
    assert_eq!(cache.median_long_term_weight(), 60);
}

#[test]
fn following_the_chain_equals_loading_it() {
    let config = BlockWeightsCacheConfig::new(5, 9);
    let all: Vec<BlockWeights> = (0..40usize)
        .map(|i| BlockWeights {
            weight: (i * 37) % 23,
            long_term_weight: (i * 53) % 31,
        })
        .collect();

    let mut followed =
        BlockWeightsCache::init_from_chain_height(1, config, &all[..1].to_vec());
    for height in 1..40usize {
        followed.new_block(
            height as u64,
            all[height].weight,
            all[height].long_term_weight,
        );
        let chain_height = height as u64 + 1;
        let start = config.first_height(chain_height) as usize;
        let loaded = BlockWeightsCache::init_from_chain_height(
            chain_height,
            config,
            &all[start..=height].to_vec(),
        );
        assert_eq!(loaded.tip_height(), followed.tip_height());
        assert_eq!(
            loaded.median_short_term_weight(),
            followed.median_short_term_weight()
        );
        assert_eq!(
            loaded.median_long_term_weight(),
            followed.median_long_term_weight()
        );
    }
}

#[test]
fn order_of_blocks_does_not_matter() {
    let config = BlockWeightsCacheConfig::new(5, 5);
    let one = BlockWeightsCache::init_from_chain_height(
        4,
        config,
        &vec![same(3), same(1), same(4), same(1)],
    );
    let other = BlockWeightsCache::init_from_chain_height(
        4,
        config,
        &vec![same(1), same(1), same(3), same(4)],
    );
    assert_eq!(one.median_short_term_weight(), 2);
    assert_eq!(other.median_short_term_weight(), 2);
}
