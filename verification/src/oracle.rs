use vstd::prelude::*;
use crate::ident::{Account, Symbol};
use crate::sla::SLAError;

verus! {

/// Where external data comes from and what makes it acceptable.
#[derive(Debug)]
pub struct OracleConfig {
    pub oracle_address: Account,
    pub enabled: bool,
    /// Largest acceptable age of a data point, in seconds.
    pub max_staleness: u64,
    pub required_confirmations: u32,
}

impl Clone for OracleConfig {
    fn clone(&self) -> (c: Self)
        ensures
            c == *self,
    {
        OracleConfig {
            oracle_address: self.oracle_address.clone(),
            enabled: self.enabled,
            max_staleness: self.max_staleness,
            required_confirmations: self.required_confirmations,
        }
    }
}

/// One value reported by an external feed.
#[derive(Debug)]
pub struct OracleDataPoint {
    pub data_id: Symbol,
    pub value: i128,
    pub timestamp: u64,
    pub confirmations: u32,
    pub source: Symbol,
}

/// What the oracle functions publish.
pub enum OracleEvent {
    OracleSet { caller: Account, max_staleness: u64, required_confirmations: u32 },
    OracleData { source: Symbol, data_id: Symbol, value: i128, timestamp: u64, confirmations: u32 },
}

/// The storage the oracle functions use: the admin, the oracle
/// configuration, and the events published.
pub struct OracleState {
    pub admin: Option<Account>,
    pub config: Option<OracleConfig>,
    pub events: Vec<OracleEvent>,
}

/// Stores a disabled configuration (at most five minutes' staleness, one
/// confirmation) pointing at the admin, or at `unassigned` (an address the
/// contract shell makes up) when no admin is set.
pub fn init_oracle(state: &mut OracleState, unassigned: Account)
    ensures
        final(state).config == Some(
            OracleConfig {
                oracle_address: match old(state).admin {
                    Some(a) => a,
                    None => unassigned,
                },
                enabled: false,
                max_staleness: 300,
                required_confirmations: 1,
            },
        ),
        final(state).admin == old(state).admin,
        final(state).events == old(state).events,
{
    let oracle_address = match &state.admin {
        Some(a) => a.clone(),
        None => unassigned,
    };
    state.config = Some(
        OracleConfig { oracle_address, enabled: false, max_staleness: 300, required_confirmations: 1 },
    );
}

/// `caller` is the stored admin.
pub open spec fn oracle_admin_check(admin: Option<Account>, caller: Seq<char>) -> Result<(), SLAError> {
    match admin {
        None => Err(SLAError::NotInitialized),
        Some(a) => if a@ == caller {
            Ok(())
        } else {
            Err(SLAError::Unauthorized)
        },
    }
}

fn require_admin(state: &OracleState, caller: &Account) -> (r: Result<(), SLAError>)
    ensures
        r == oracle_admin_check(state.admin, caller@),
{
    match &state.admin {
        None => Err(SLAError::NotInitialized),
        Some(admin) => if *admin == *caller {
            Ok(())
        } else {
            Err(SLAError::Unauthorized)
        },
    }
}

/// The admin points the oracle at `oracle_address` and enables it.
pub fn set_oracle(
    state: &mut OracleState,
    caller: &Account,
    oracle_address: Account,
    max_staleness: u64,
    required_confirmations: u32,
) -> (r: Result<(), SLAError>)
    ensures
        oracle_admin_check(old(state).admin, caller@) is Err ==> r == Err::<(), SLAError>(
            oracle_admin_check(old(state).admin, caller@)->Err_0,
        ) && *final(state) == *old(state),
        oracle_admin_check(old(state).admin, caller@) is Ok ==> {
            &&& r is Ok
            &&& final(state).config == Some(
                OracleConfig { oracle_address, enabled: true, max_staleness, required_confirmations },
            )
            &&& final(state).admin == old(state).admin
            &&& final(state).events@ == old(state).events@.push(
                OracleEvent::OracleSet { caller: *caller, max_staleness, required_confirmations },
            )
        },
{
    match require_admin(state, caller) {
        Err(e) => return Err(e),
        Ok(()) => {},
    }
    state.config = Some(
        OracleConfig { oracle_address, enabled: true, max_staleness, required_confirmations },
    );
    state.events.push(
        OracleEvent::OracleSet { caller: caller.clone(), max_staleness, required_confirmations },
    );
    Ok(())
}

/// The admin disables the oracle, keeping its configuration.
pub fn disable_oracle(state: &mut OracleState, caller: &Account) -> (r: Result<(), SLAError>)
    ensures
        oracle_admin_check(old(state).admin, caller@) is Err ==> r == Err::<(), SLAError>(
            oracle_admin_check(old(state).admin, caller@)->Err_0,
        ) && *final(state) == *old(state),
        oracle_admin_check(old(state).admin, caller@) is Ok && old(state).config is None ==> r
            == Err::<(), SLAError>(SLAError::NotInitialized) && *final(state) == *old(state),
        oracle_admin_check(old(state).admin, caller@) is Ok && old(state).config is Some ==> {
            &&& r is Ok
            &&& final(state).config == Some(
                OracleConfig { enabled: false, ..old(state).config->0 },
            )
            &&& final(state).admin == old(state).admin
            &&& final(state).events == old(state).events
        },
{
    match require_admin(state, caller) {
        Err(e) => return Err(e),
        Ok(()) => {},
    }
    match &mut state.config {
        None => Err(SLAError::NotInitialized),
        Some(config) => {
            config.enabled = false;
            Ok(())
        },
    }
}

/// Whether a data point is acceptable at `now`: always without an enabled
/// oracle; otherwise it must be no older than the allowed staleness and
/// have enough confirmations.
pub open spec fn data_check(config: Option<OracleConfig>, data_point: OracleDataPoint, now: u64) -> Result<
    (),
    SLAError,
> {
    match config {
        None => Ok(()),
        Some(c) => if !c.enabled {
            Ok(())
        } else if now > data_point.timestamp && now - data_point.timestamp > c.max_staleness {
            Err(SLAError::InvalidThreshold)
        } else if data_point.confirmations < c.required_confirmations {
            Err(SLAError::InvalidThreshold)
        } else {
            Ok(())
        },
    }
}

pub fn validate_oracle_data(state: &OracleState, data_point: &OracleDataPoint, now: u64) -> (r: Result<
    (),
    SLAError,
>)
    ensures
        r == data_check(state.config, *data_point, now),
{
    let config = match &state.config {
        Some(c) => c,
        None => return Ok(()),
    };
    if !config.enabled {
        return Ok(());
    }
    if now.saturating_sub(data_point.timestamp) > config.max_staleness {
        return Err(SLAError::InvalidThreshold);
    }
    if data_point.confirmations < config.required_confirmations {
        return Err(SLAError::InvalidThreshold);
    }
    Ok(())
}

/// Publishes a data point for the audit trail.
pub fn record_oracle_data(state: &mut OracleState, data_point: &OracleDataPoint)
    ensures
        final(state).events@ == old(state).events@.push(
            OracleEvent::OracleData {
                source: data_point.source,
                data_id: data_point.data_id,
                value: data_point.value,
                timestamp: data_point.timestamp,
                confirmations: data_point.confirmations,
            },
        ),
        final(state).admin == old(state).admin,
        final(state).config == old(state).config,
{
    state.events.push(
        OracleEvent::OracleData {
            source: data_point.source.clone(),
            data_id: data_point.data_id.clone(),
            value: data_point.value,
            timestamp: data_point.timestamp,
            confirmations: data_point.confirmations,
        },
    );
}

/// The oracle configuration, if one is stored.
pub fn get_oracle_config(state: &OracleState) -> (r: Result<Option<OracleConfig>, SLAError>)
    ensures
        r == Ok::<Option<OracleConfig>, SLAError>(state.config),
{
    match &state.config {
        Some(c) => Ok(Some(c.clone())),
        None => Ok(None),
    }
}

/// Whether the oracle is enabled; not before it is configured.
pub fn is_oracle_enabled(state: &OracleState) -> (r: Result<bool, SLAError>)
    ensures
        r == Ok::<bool, SLAError>(state.config matches Some(c) && c.enabled),
{
    match &state.config {
        Some(c) => Ok(c.enabled),
        None => Ok(false),
    }
}

} // verus!
