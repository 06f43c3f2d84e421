use vstd::prelude::*;
use crate::ident::{Account, Symbol};

verus! {

#[derive(Clone, Copy, Debug, PartialEq, Eq, Structural)]
pub enum Severity {
    Critical,
    High,
    Medium,
    Low,
}

/// Response-time threshold and money terms of one severity tier.
#[derive(Clone, Copy, Debug, PartialEq, Eq, Structural)]
pub struct SLAConfig {
    pub threshold_minutes: u32,
    pub penalty_per_minute: i128,
    pub reward_base: i128,
}

/// A tier's terms together with the reward multipliers (in percent) for
/// top, excellent and good performance.
#[derive(Clone, Copy, Debug, PartialEq, Eq, Structural)]
pub struct TierConfig {
    pub threshold_minutes: u32,
    pub penalty_per_minute: i128,
    pub reward_base: i128,
    pub top_tier_multiplier: u32,
    pub excel_tier_multiplier: u32,
    pub good_tier_multiplier: u32,
}

#[derive(Clone, Copy, Debug, PartialEq, Eq, Structural)]
pub enum SLAError {
    NotInitialized,
    Unauthorized,
    InvalidThreshold,
    ContractPaused,
    ConfigNotFound,
    InvalidSeverity,
    InvalidMTTR,
    ThresholdOutOfBounds,
    DuplicateOutageInput,
}

/// One recorded SLA calculation.
#[derive(Debug)]
pub struct SLAResult {
    pub outage_id: Symbol,
    pub status: Symbol,
    pub mttr_minutes: u32,
    pub threshold_minutes: u32,
    pub amount: i128,
    pub payment_type: Symbol,
    pub rating: Symbol,
    pub config_version_hash: u64,
    pub recorded_at: u64,
}

impl Clone for SLAResult {
    fn clone(&self) -> (r: Self)
        ensures
            r == *self,
    {
        SLAResult {
            outage_id: self.outage_id.clone(),
            status: self.status.clone(),
            mttr_minutes: self.mttr_minutes,
            threshold_minutes: self.threshold_minutes,
            amount: self.amount,
            payment_type: self.payment_type.clone(),
            rating: self.rating.clone(),
            config_version_hash: self.config_version_hash,
            recorded_at: self.recorded_at,
        }
    }
}

/// Running totals over all calculations.
#[derive(Clone, Copy, Debug, PartialEq, Eq, Structural)]
pub struct SLAStats {
    pub total_calculations: u64,
    pub total_violations: u64,
    pub total_rewards: i128,
    pub total_penalties: i128,
}

/// The default terms of a tier.
pub open spec fn default_config(severity: Severity) -> SLAConfig {
    match severity {
        Severity::Critical => SLAConfig {
            threshold_minutes: 15,
            penalty_per_minute: 100_000_000,
            reward_base: 5_000_000_000,
        },
        Severity::High => SLAConfig {
            threshold_minutes: 30,
            penalty_per_minute: 50_000_000,
            reward_base: 2_000_000_000,
        },
        Severity::Medium => SLAConfig {
            threshold_minutes: 60,
            penalty_per_minute: 20_000_000,
            reward_base: 1_000_000_000,
        },
        Severity::Low => SLAConfig {
            threshold_minutes: 120,
            penalty_per_minute: 10_000_000,
            reward_base: 500_000_000,
        },
    }
}

/// The SLA calculator contract's state: its admin and one configuration
/// per severity tier.
pub struct SLACalculatorContract {
    admin: Option<Account>,
    critical: Option<SLAConfig>,
    high: Option<SLAConfig>,
    medium: Option<SLAConfig>,
    low: Option<SLAConfig>,
}

impl SLACalculatorContract {
    pub closed spec fn admin_of(&self) -> Option<Account> {
        self.admin
    }

    pub closed spec fn config_of(&self, severity: Severity) -> Option<SLAConfig> {
        match severity {
            Severity::Critical => self.critical,
            Severity::High => self.high,
            Severity::Medium => self.medium,
            Severity::Low => self.low,
        }
    }

    /// A contract that has not been initialised: no admin, no tiers.
    pub fn new() -> (c: Self)
        ensures
            c.admin_of() is None,
            forall|s: Severity| c.config_of(s) is None,
    {
        SLACalculatorContract { admin: None, critical: None, high: None, medium: None, low: None }
    }

    /// The contract state as read back from storage.
    pub fn from_storage(
        admin: Option<Account>,
        critical: Option<SLAConfig>,
        high: Option<SLAConfig>,
        medium: Option<SLAConfig>,
        low: Option<SLAConfig>,
    ) -> (c: Self)
        ensures
            c.admin_of() == admin,
            c.config_of(Severity::Critical) == critical,
            c.config_of(Severity::High) == high,
            c.config_of(Severity::Medium) == medium,
            c.config_of(Severity::Low) == low,
    {
        SLACalculatorContract { admin, critical, high, medium, low }
    }

    /// The stored terms of a tier, if any.
    pub fn config(&self, severity: Severity) -> (c: Option<SLAConfig>)
        ensures
            c == self.config_of(severity),
    {
        match severity {
            Severity::Critical => self.critical,
            Severity::High => self.high,
            Severity::Medium => self.medium,
            Severity::Low => self.low,
        }
    }

    /// Stores the admin and the default terms of every tier. A contract is
    /// initialised once.
    pub fn initialize(&mut self, admin: Account)
        requires
            old(self).admin_of() is None,
        ensures
            final(self).admin_of() == Some(admin),
            forall|s: Severity| final(self).config_of(s) == Some(default_config(s)),
    {
        self.admin = Some(admin);
        self.critical = Some(
            SLAConfig {
                threshold_minutes: 15,
                penalty_per_minute: 10_0000000,
                reward_base: 500_0000000,
            },
        );
        self.high = Some(
            SLAConfig {
                threshold_minutes: 30,
                penalty_per_minute: 5_0000000,
                reward_base: 200_0000000,
            },
        );
        self.medium = Some(
            SLAConfig {
                threshold_minutes: 60,
                penalty_per_minute: 2_0000000,
                reward_base: 100_0000000,
            },
        );
        self.low = Some(
            SLAConfig {
                threshold_minutes: 120,
                penalty_per_minute: 1_0000000,
                reward_base: 50_0000000,
            },
        );
    }

    pub fn get_admin(&self) -> (a: Account)
        requires
            self.admin_of() is Some,
        ensures
            Some(a) == self.admin_of(),
    {
        match &self.admin {
            Some(a) => a.clone(),
            None => vstd::pervasive::unreached(),
        }
    }

    pub fn get_config(&self, severity: Severity) -> (c: SLAConfig)
        requires
            self.config_of(severity) is Some,
        ensures
            Some(c) == self.config_of(severity),
    {
        let stored = match severity {
            Severity::Critical => self.critical,
            Severity::High => self.high,
            Severity::Medium => self.medium,
            Severity::Low => self.low,
        };
        match stored {
            Some(c) => c,
            None => vstd::pervasive::unreached(),
        }
    }

    /// Replaces one tier's terms; the other tiers keep theirs. Needs an
    /// admin, whose signature the host checks.
    pub fn update_config(
        &mut self,
        severity: Severity,
        threshold_minutes: u32,
        penalty_per_minute: i128,
        reward_base: i128,
    )
        requires
            old(self).admin_of() is Some,
        ensures
            final(self).admin_of() == old(self).admin_of(),
            final(self).config_of(severity) == Some(
                SLAConfig { threshold_minutes, penalty_per_minute, reward_base },
            ),
            forall|s: Severity| s != severity ==> final(self).config_of(s) == old(self).config_of(s),
    {
        let config = SLAConfig { threshold_minutes, penalty_per_minute, reward_base };
        match severity {
            Severity::Critical => self.critical = Some(config),
            Severity::High => self.high = Some(config),
            Severity::Medium => self.medium = Some(config),
            Severity::Low => self.low = Some(config),
        }
    }

    /// Placeholder entry point of the calculator: answers `TODO` for every
    /// outage.
    pub fn calculate_sla(&self, outage_id: &Symbol, severity: &Symbol, mttr_minutes: u32) -> (r:
        Symbol)
        ensures
            r@ == "TODO"@,
    {
        Symbol::new("TODO")
    }
}

} // verus!
