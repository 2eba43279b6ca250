//! What a difficulty cache is set up with.
use vstd::prelude::*;

verus! {

/// The blocks that the next block's difficulty is worked out from: `window` of them, of which `cut`
/// are left out at either end, `lag` blocks behind the top.
#[derive(Debug, Clone, Copy, PartialEq, Eq, Structural)]
pub struct DifficultyCacheConfig {
    pub window: usize,
    pub cut: usize,
    pub lag: usize,
}

impl DifficultyCacheConfig {
    /// The parameters of Monero's main network.
    pub fn main_net() -> (config: DifficultyCacheConfig)
        ensures
            config == (DifficultyCacheConfig { window: 720, cut: 60, lag: 15 }),
    {
        DifficultyCacheConfig { window: 720, cut: 60, lag: 15 }
    }
}

} // verus!
