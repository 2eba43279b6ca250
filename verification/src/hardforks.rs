//! Hard forks, and when the main network activates them.
use vstd::prelude::*;

verus! {

/// A version of the consensus rules.
#[derive(Debug, Clone, Copy, PartialEq, Eq, Structural)]
pub enum HardFork {
    V1,
    V2,
    V3,
    V4,
    V5,
    V6,
    V7,
    V8,
    V9,
    V10,
    V11,
    V12,
    V13,
    V14,
    V15,
    V16,
}

/// The number of hard forks.
pub const NUMBER_OF_HARD_FORKS: usize = 16;

/// When a hard fork activates: at which height, and with how many of the window's votes.
#[derive(Debug, Clone, Copy, PartialEq, Eq, Structural)]
pub struct HFInfo {
    pub height: u64,
    pub threshold: u64,
}

impl HFInfo {
    /// A hard fork that activates at `height`, with `threshold` votes.
    pub fn new(height: u64, threshold: u64) -> (info: HFInfo)
        ensures
            info == (HFInfo { height, threshold }),
    {
        HFInfo { height, threshold }
    }
}

/// The number of blocks whose votes are counted, and what activates each hard fork, the first
/// version first.
#[derive(Debug, Clone, Copy)]
pub struct HardForkConfig {
    pub window: u64,
    pub forks: [HFInfo; NUMBER_OF_HARD_FORKS],
}

/// The heights at which Monero's main network activates its hard forks.
pub open spec fn main_net_heights() -> Seq<u64> {
    seq![
        0u64,
        1_009_827u64,
        1_141_317u64,
        1_220_516u64,
        1_288_616u64,
        1_400_000u64,
        1_546_000u64,
        1_685_555u64,
        1_686_275u64,
        1_788_000u64,
        1_788_720u64,
        1_978_433u64,
        2_210_000u64,
        2_210_720u64,
        2_688_888u64,
        2_689_608u64,
    ]
}

impl HardForkConfig {
    /// Whether these are the hard forks of Monero's main network: each by height alone, with no
    /// votes asked for.
    pub open spec fn is_main_net(self) -> bool {
        &&& self.window == 10_080
        &&& self.forks@ == main_net_heights().map_values(
            |height: u64| HFInfo { height, threshold: 0 },
        )
    }

    /// The hard forks of Monero's main network.
    pub fn main_net() -> (config: HardForkConfig)
        ensures
            config.is_main_net(),
    {
        let config = HardForkConfig {
            window: 10_080,
            forks: [
                HFInfo::new(0, 0),
                HFInfo::new(1_009_827, 0),
                HFInfo::new(1_141_317, 0),
                HFInfo::new(1_220_516, 0),
                HFInfo::new(1_288_616, 0),
                HFInfo::new(1_400_000, 0),
                HFInfo::new(1_546_000, 0),
                HFInfo::new(1_685_555, 0),
                HFInfo::new(1_686_275, 0),
                HFInfo::new(1_788_000, 0),
                HFInfo::new(1_788_720, 0),
                HFInfo::new(1_978_433, 0),
                HFInfo::new(2_210_000, 0),
                HFInfo::new(2_210_720, 0),
                HFInfo::new(2_688_888, 0),
                HFInfo::new(2_689_608, 0),
            ],
        };
        assert(config.forks@ =~= main_net_heights().map_values(
            |height: u64| HFInfo { height, threshold: 0 },
        ));
        config
    }
}

/// On the main network no hard fork asks for votes, the first is there from the start, and each
/// activates at a later height than the one before it.
pub proof fn law_main_net_forks_activate_in_turn(config: HardForkConfig, i: int, j: int)
    requires
        config.is_main_net(),
        0 <= i < j < 16,
    ensures
        config.window == 10_080,
        config.forks@.len() == 16,
        config.forks@[0].height == 0,
        config.forks@[i].height < config.forks@[j].height,
        config.forks@[i].threshold == 0,
        config.forks@[j].threshold == 0,
{
}

/// The height at which each hard fork of the main network activates.
pub proof fn law_main_net_fork_heights(config: HardForkConfig)
    requires
        config.is_main_net(),
    ensures
        config.forks@[0].height == 0,
        config.forks@[1].height == 1_009_827,
        config.forks@[2].height == 1_141_317,
        config.forks@[3].height == 1_220_516,
        config.forks@[4].height == 1_288_616,
        config.forks@[5].height == 1_400_000,
        config.forks@[6].height == 1_546_000,
        config.forks@[7].height == 1_685_555,
        config.forks@[8].height == 1_686_275,
        config.forks@[9].height == 1_788_000,
        config.forks@[10].height == 1_788_720,
        config.forks@[11].height == 1_978_433,
        config.forks@[12].height == 2_210_000,
        config.forks@[13].height == 2_210_720,
        config.forks@[14].height == 2_688_888,
        config.forks@[15].height == 2_689_608,
{
}

} // verus!
