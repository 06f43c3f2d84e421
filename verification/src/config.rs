use vstd::prelude::*;

verus! {

#[derive(Clone, Copy, Debug, PartialEq, Eq, Structural)]
pub enum ConfigError {
    RewardOutOfBounds,
}

pub struct ConfigManager;

pub const MIN_REWARD_BASE: u64 = 1;
pub const MAX_REWARD_BASE: u64 = 100_000;

impl ConfigManager {
    /// Accepts a reward base only inside 1..=100_000.
    pub fn set_reward_base(reward_base: u64) -> (r: Result<(), ConfigError>)
        ensures
            r is Ok <==> MIN_REWARD_BASE <= reward_base <= MAX_REWARD_BASE,
            r is Err ==> r == Err::<(), ConfigError>(ConfigError::RewardOutOfBounds),
    {
        if reward_base < MIN_REWARD_BASE || reward_base > MAX_REWARD_BASE {
            return Err(ConfigError::RewardOutOfBounds);
        }
        Ok(())
    }
}

} // verus!
