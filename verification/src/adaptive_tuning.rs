use vstd::prelude::*;
use crate::ident::Account;
use crate::sla::{SLAError, SLAStats};

verus! {

/// Adaptive tuning configuration.
#[derive(Clone, Copy, Debug, PartialEq, Eq, Structural)]
pub struct TuningConfig {
    /// Target compliance rate in basis points (9500 is 95%).
    pub target_compliance_bps: u32,
    /// Size of one recommended adjustment, in basis points.
    pub adjustment_step_bps: u32,
    /// Largest adjustment recommended in one period, in basis points.
    pub max_adjustment_bps: u32,
    /// Evaluation window in seconds.
    pub evaluation_window: u64,
    pub enabled: bool,
}

/// What the tuning advisor recommends.
#[derive(Clone, Copy, Debug, PartialEq, Eq, Structural)]
pub struct TuningRecommendation {
    pub current_compliance_bps: u32,
    pub target_compliance_bps: u32,
    /// Target minus current compliance.
    pub gap_bps: i32,
    pub threshold_adjustment: i32,
    pub penalty_adjustment: i32,
    pub should_adjust: bool,
}

/// What the tuning functions publish.
pub enum TuningEvent {
    TuningSet { caller: Account, target_compliance_bps: u32, adjustment_step_bps: u32 },
    TuningApplied { caller: Account, threshold_adjustment: i32, penalty_adjustment: i32 },
}

/// The storage the tuning functions use: the admin, the tuning
/// configuration, the running statistics, and the events published.
pub struct TuningState {
    pub admin: Option<Account>,
    pub tuning: Option<TuningConfig>,
    pub stats: Option<SLAStats>,
    pub events: Vec<TuningEvent>,
}

/// The configuration in force before any is stored: target 95%, steps of
/// 1%, at most 5%, a one-day window, disabled.
pub open spec fn default_tuning() -> TuningConfig {
    TuningConfig {
        target_compliance_bps: 9500,
        adjustment_step_bps: 100,
        max_adjustment_bps: 500,
        evaluation_window: 86400,
        enabled: false,
    }
}

fn default_tuning_config() -> (c: TuningConfig)
    ensures
        c == default_tuning(),
{
    TuningConfig {
        target_compliance_bps: 9500,
        adjustment_step_bps: 100,
        max_adjustment_bps: 500,
        evaluation_window: 86400,
        enabled: false,
    }
}

/// The statistics before any calculation: all zero.
pub open spec fn empty_stats() -> SLAStats {
    SLAStats { total_calculations: 0, total_violations: 0, total_rewards: 0, total_penalties: 0 }
}

/// The stored configuration, or the default.
pub open spec fn tuning_in_force(state: &TuningState) -> TuningConfig {
    match state.tuning {
        Some(c) => c,
        None => default_tuning(),
    }
}

/// The stored statistics, or all zero.
pub open spec fn stats_in_force(state: &TuningState) -> SLAStats {
    match state.stats {
        Some(s) => s,
        None => empty_stats(),
    }
}

/// `caller` is the stored admin.
pub open spec fn tuning_admin_check(admin: Option<Account>, caller: Seq<char>) -> Result<(), SLAError> {
    match admin {
        None => Err(SLAError::NotInitialized),
        Some(a) => if a@ == caller {
            Ok(())
        } else {
            Err(SLAError::Unauthorized)
        },
    }
}

fn require_admin(state: &TuningState, caller: &Account) -> (r: Result<(), SLAError>)
    ensures
        r == tuning_admin_check(state.admin, caller@),
{
    match &state.admin {
        None => Err(SLAError::NotInitialized),
        Some(admin) => if *admin == *caller {
            Ok(())
        } else {
            Err(SLAError::Unauthorized)
        },
    }
}

/// Stores the default configuration: tuning starts disabled.
pub fn init_tuning(state: &mut TuningState)
    ensures
        *final(state) == (TuningState { tuning: Some(default_tuning()), ..*old(state) }),
{
    state.tuning = Some(default_tuning_config());
}

/// The admin configures and enables tuning. A target above 100% is
/// refused.
pub fn set_tuning(
    state: &mut TuningState,
    caller: &Account,
    target_compliance_bps: u32,
    adjustment_step_bps: u32,
    max_adjustment_bps: u32,
    evaluation_window: u64,
) -> (r: Result<(), SLAError>)
    ensures
        tuning_admin_check(old(state).admin, caller@) is Err ==> r == Err::<(), SLAError>(
            tuning_admin_check(old(state).admin, caller@)->Err_0,
        ) && *final(state) == *old(state),
        tuning_admin_check(old(state).admin, caller@) is Ok && target_compliance_bps > 10000
            ==> r == Err::<(), SLAError>(SLAError::InvalidThreshold) && *final(state) == *old(
            state,
        ),
        tuning_admin_check(old(state).admin, caller@) is Ok && target_compliance_bps <= 10000
            ==> {
            &&& r is Ok
            &&& final(state).tuning == Some(
                TuningConfig {
                    target_compliance_bps,
                    adjustment_step_bps,
                    max_adjustment_bps,
                    evaluation_window,
                    enabled: true,
                },
            )
            &&& final(state).admin == old(state).admin
            &&& final(state).stats == old(state).stats
            &&& final(state).events@ == old(state).events@.push(
                TuningEvent::TuningSet { caller: *caller, target_compliance_bps, adjustment_step_bps },
            )
        },
{
    match require_admin(state, caller) {
        Err(e) => return Err(e),
        Ok(()) => {},
    }
    if target_compliance_bps > 10000 {
        return Err(SLAError::InvalidThreshold);
    }
    state.tuning = Some(
        TuningConfig {
            target_compliance_bps,
            adjustment_step_bps,
            max_adjustment_bps,
            evaluation_window,
            enabled: true,
        },
    );
    state.events.push(
        TuningEvent::TuningSet { caller: caller.clone(), target_compliance_bps, adjustment_step_bps },
    );
    Ok(())
}

/// The admin disables tuning, keeping the rest of the configuration in
/// force.
pub fn disable_tuning(state: &mut TuningState, caller: &Account) -> (r: Result<(), SLAError>)
    ensures
        tuning_admin_check(old(state).admin, caller@) is Err ==> r == Err::<(), SLAError>(
            tuning_admin_check(old(state).admin, caller@)->Err_0,
        ) && *final(state) == *old(state),
        tuning_admin_check(old(state).admin, caller@) is Ok ==> r is Ok && *final(state) == (
        TuningState {
            tuning: Some(TuningConfig { enabled: false, ..tuning_in_force(old(state)) }),
            ..*old(state)
        }),
{
    match require_admin(state, caller) {
        Err(e) => return Err(e),
        Ok(()) => {},
    }
    let mut config = match state.tuning {
        Some(c) => c,
        None => default_tuning_config(),
    };
    config.enabled = false;
    state.tuning = Some(config);
    Ok(())
}

/// Share of calculations that met the SLA, in basis points (rounded
/// down); zero before any calculation.
pub open spec fn compliance_bps(stats: SLAStats) -> int {
    if stats.total_calculations > 0 {
        (stats.total_calculations - stats.total_violations) * 10000 / (
        stats.total_calculations as int)
    } else {
        0
    }
}

/// Target minus current compliance, the target read as an `i32`.
pub open spec fn gap_of(config: TuningConfig, stats: SLAStats) -> int {
    (config.target_compliance_bps as i32) - compliance_bps(stats)
}

/// `x` limited to the range from `-bound` to `bound` (lower limit first).
pub open spec fn capped(x: int, bound: int) -> int {
    let low = if x < -bound {
        -bound
    } else {
        x
    };
    if low > bound {
        bound
    } else {
        low
    }
}

/// The recommendation for `config` and `stats`: adjust when tuning is
/// enabled and compliance misses the target by more than one step; below
/// target, raise thresholds and lower penalties by one step, above it the
/// reverse, each capped at the maximum adjustment. Steps and caps are read
/// as `i32`.
pub open spec fn recommendation(config: TuningConfig, stats: SLAStats) -> TuningRecommendation {
    let gap = gap_of(config, stats);
    let step = config.adjustment_step_bps as i32 as int;
    let bound = config.max_adjustment_bps as i32 as int;
    let abs_gap = if gap < 0 {
        -gap
    } else {
        gap
    };
    let should_adjust = config.enabled && abs_gap > config.adjustment_step_bps;
    let (threshold, penalty) = if !should_adjust {
        (0int, 0int)
    } else if gap > 0 {
        (capped(step, bound), capped(-step, bound))
    } else {
        (capped(-step, bound), capped(step, bound))
    };
    TuningRecommendation {
        current_compliance_bps: compliance_bps(stats) as u32,
        target_compliance_bps: config.target_compliance_bps,
        gap_bps: gap as i32,
        threshold_adjustment: threshold as i32,
        penalty_adjustment: penalty as i32,
        should_adjust,
    }
}

/// The recommendation can be computed without overflow: no more
/// violations than calculations, the scaled count of met calculations
/// fits a `u64`, the gap fits an `i32`, and the step and cap can be
/// negated when an adjustment is due.
pub open spec fn recommendation_computable(config: TuningConfig, stats: SLAStats) -> bool {
    let gap = gap_of(config, stats);
    &&& stats.total_violations <= stats.total_calculations
    &&& (stats.total_calculations - stats.total_violations) * 10000 <= u64::MAX
    &&& i32::MIN <= gap <= i32::MAX
    &&& recommendation(config, stats).should_adjust ==> {
        &&& config.adjustment_step_bps as i32 != i32::MIN
        &&& config.max_adjustment_bps as i32 != i32::MIN
    }
}

/// The tuning recommendation for the configuration in force and the
/// current statistics.
pub fn get_tuning_recommendation(state: &TuningState) -> (r: Result<TuningRecommendation, SLAError>)
    requires
        recommendation_computable(tuning_in_force(state), stats_in_force(state)),
    ensures
        r == Ok::<TuningRecommendation, SLAError>(
            recommendation(tuning_in_force(state), stats_in_force(state)),
        ),
{
    let config = match state.tuning {
        Some(c) => c,
        None => default_tuning_config(),
    };
    let stats = match state.stats {
        Some(s) => s,
        None => SLAStats {
            total_calculations: 0,
            total_violations: 0,
            total_rewards: 0,
            total_penalties: 0,
        },
    };
    let ghost expected = recommendation(config, stats);
    let current_compliance_bps: u32 = if stats.total_calculations > 0 {
        let met_count = stats.total_calculations - stats.total_violations;
        let scaled = met_count * 10000;
        assert(scaled / stats.total_calculations <= 10000) by (nonlinear_arith)
            requires
                scaled == met_count * 10000,
                met_count <= stats.total_calculations,
                stats.total_calculations > 0,
        {
            assert(met_count * 10000 <= stats.total_calculations * 10000);
        }
        (scaled / stats.total_calculations) as u32
    } else {
        0
    };
    assert(current_compliance_bps == compliance_bps(stats));
    let target = config.target_compliance_bps as i32;
    let gap_bps: i32 = target - current_compliance_bps as i32;
    let abs_gap: i64 = if gap_bps < 0 {
        -(gap_bps as i64)
    } else {
        gap_bps as i64
    };
    let should_adjust = config.enabled && abs_gap > config.adjustment_step_bps as i64;
    let mut threshold_adjustment: i32 = 0;
    let mut penalty_adjustment: i32 = 0;
    if should_adjust {
        let step = config.adjustment_step_bps as i32;
        let bound = config.max_adjustment_bps as i32;
        if gap_bps > 0 {
            threshold_adjustment = step;
            penalty_adjustment = -step;
        } else {
            threshold_adjustment = -step;
            penalty_adjustment = step;
        }
        threshold_adjustment = cap(threshold_adjustment, bound);
        penalty_adjustment = cap(penalty_adjustment, bound);
    }
    let rec = TuningRecommendation {
        current_compliance_bps,
        target_compliance_bps: config.target_compliance_bps,
        gap_bps,
        threshold_adjustment,
        penalty_adjustment,
        should_adjust,
    };
    assert(rec == expected);
    Ok(rec)
}

fn cap(x: i32, bound: i32) -> (c: i32)
    requires
        bound != i32::MIN,
    ensures
        c == capped(x as int, bound as int),
{
    let low = if x < -bound {
        -bound
    } else {
        x
    };
    if low > bound {
        bound
    } else {
        low
    }
}

/// The configuration in force: the stored one, or the default.
pub fn get_tuning_config(state: &TuningState) -> (r: Result<TuningConfig, SLAError>)
    ensures
        r == Ok::<TuningConfig, SLAError>(tuning_in_force(state)),
{
    match state.tuning {
        Some(c) => Ok(c),
        None => Ok(default_tuning_config()),
    }
}

/// Publishes that `caller` applied the given adjustments.
pub fn record_tuning_application(
    state: &mut TuningState,
    caller: &Account,
    threshold_adjustment: i32,
    penalty_adjustment: i32,
)
    ensures
        final(state).events@ == old(state).events@.push(
            TuningEvent::TuningApplied { caller: *caller, threshold_adjustment, penalty_adjustment },
        ),
        final(state).admin == old(state).admin,
        final(state).tuning == old(state).tuning,
        final(state).stats == old(state).stats,
{
    state.events.push(
        TuningEvent::TuningApplied {
            caller: caller.clone(),
            threshold_adjustment,
            penalty_adjustment,
        },
    );
}

/// Recommended adjustments never exceed the configured maximum, threshold
/// and penalty move in opposite directions, and nothing is recommended
/// while tuning is disabled.
pub proof fn lemma_recommendation_bounded(config: TuningConfig, stats: SLAStats)
    requires
        config.max_adjustment_bps <= i32::MAX,
        config.adjustment_step_bps <= i32::MAX,
        recommendation_computable(config, stats),
    ensures
        ({
            let r = recommendation(config, stats);
            &&& -config.max_adjustment_bps <= r.threshold_adjustment <= config.max_adjustment_bps
            &&& -config.max_adjustment_bps <= r.penalty_adjustment <= config.max_adjustment_bps
            &&& r.threshold_adjustment == -r.penalty_adjustment
            &&& !config.enabled ==> !r.should_adjust && r.threshold_adjustment == 0
                && r.penalty_adjustment == 0
        }),
{
}

} // verus!
