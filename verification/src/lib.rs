//! Verified core of an SLA calculator contract: outage penalties and
//! rewards, dispute arbitration, collateral, claim windows and the
//! governance switches around them. Contract storage is modelled by the
//! state types of each module; ledger time and authenticated callers are
//! handed in by the contract shell.

pub mod arith;
pub mod ident;
pub mod table;
pub mod host;

pub use ident::{Account, Symbol};
pub mod breach_escalation;
pub mod config;
pub mod config_compatibility_check;
pub mod monotonicity;
pub mod overtime;
pub mod param_boundary_guard;
pub mod emergency_alert_event;
pub mod store;
pub mod admin_query;
pub mod admin_renounce;
pub mod admin_transfer;
pub mod circuit_breaker;
pub mod config_freeze_toggle;
pub mod deprecation;
pub mod dispute_pause;
pub mod emergency_guard_rotation;
pub mod init_guard;
pub mod operator_query;
pub mod operator_transfer;
pub mod anomaly_pause_trigger;
pub mod config_bundle_atomic_update;
pub mod config_rollback;
pub mod daily_withdrawal_limit;
pub mod dao_admin_takeover;
pub mod dispute_appeal;
pub mod dispute_force_settle;
pub mod dispute_withdrawal;
pub mod emergency_state_reset;
pub mod batch_optimized;
pub mod config_history_retention;
pub mod event_ttl_refresh;
pub mod cross_contract_safety;
pub mod config_version_hash;
pub mod sla;
pub mod event_filter;
pub mod dispute;
pub mod adaptive_tuning;
pub mod emergency;
pub mod force_majeure;
pub mod config_provenance;
pub mod claim_deadline;
pub mod collateral_lock;
pub mod multi_operator;
pub mod links;
pub mod outage_correlation_tag;
pub mod dependency_propagation;
pub mod event_index;
pub mod event_compression;
pub mod history_snapshot;
pub mod event_log_compaction;
pub mod event_payload_guard;
pub mod oracle;
pub mod batch;
