use vstd::prelude::*;
use crate::arith::{clamp_i128, saturating_add_i128, saturating_mul_i128};
use crate::ident::{Account, Symbol};
use crate::sla::{SLAError, SLAResult, TierConfig};
use crate::table::Table;

verus! {

/// Most requests in one batch.
pub const BATCH_LIMIT: u32 = 50;

/// One outage to evaluate.
#[derive(Debug)]
pub struct BatchRequest {
    pub outage_id: Symbol,
    /// Severity tier to evaluate against: critical, high, medium or low.
    pub severity: Symbol,
    pub mttr_minutes: u32,
}

impl Clone for BatchRequest {
    fn clone(&self) -> (r: Self)
        ensures
            r == *self,
    {
        BatchRequest {
            outage_id: self.outage_id.clone(),
            severity: self.severity.clone(),
            mttr_minutes: self.mttr_minutes,
        }
    }
}

/// The outcome of one request: its result when it could be evaluated,
/// the reason otherwise.
#[derive(Debug)]
pub struct BatchResult {
    pub outage_id: Symbol,
    pub success: bool,
    /// The calculation, when it succeeded (otherwise empty).
    pub result: Vec<SLAResult>,
    pub error: Option<Symbol>,
}

/// Two outcomes with the same fields, the calculations compared as
/// sequences.
pub open spec fn same_item(a: BatchResult, b: BatchResult) -> bool {
    &&& a.outage_id == b.outage_id
    &&& a.success == b.success
    &&& a.result@ == b.result@
    &&& a.error == b.error
}

fn copy_item(item: &BatchResult) -> (r: BatchResult)
    ensures
        same_item(r, *item),
{
    let mut result: Vec<SLAResult> = Vec::new();
    let mut i: usize = 0;
    while i < item.result.len()
        invariant
            i <= item.result.len(),
            result@ == item.result@.subrange(0, i as int),
        decreases item.result.len() - i,
    {
        result.push(item.result[i].clone());
        i = i + 1;
    }
    assert(result@ =~= item.result@);
    BatchResult {
        outage_id: item.outage_id.clone(),
        success: item.success,
        result,
        error: match &item.error {
            Some(e) => Some(e.clone()),
            None => None,
        },
    }
}

/// Totals over a batch.
#[derive(Clone, Copy, Debug, PartialEq, Eq, Structural)]
pub struct BatchSummary {
    pub total: u32,
    pub succeeded: u32,
    pub failed: u32,
    /// Rewards of the calculations that met the SLA, added up (saturating).
    pub total_rewards: i128,
    /// Amounts of the violations, added up (saturating; they are negative).
    pub total_penalties: i128,
}

/// What a batch reads from storage: the operator, the pause switch and
/// the tier configurations by tier name.
pub struct CalculatorState {
    pub operator: Option<Account>,
    pub paused: Option<bool>,
    pub configs: Option<Table<TierConfig>>,
}

/// A known severity tier.
pub open spec fn valid_severity(s: Seq<char>) -> bool {
    s == "critical"@ || s == "high"@ || s == "medium"@ || s == "low"@
}

/// Why a request cannot be evaluated, checked in this order: an unknown
/// tier, a tier without configuration, a zero MTTR.
pub open spec fn refusal(configs: Map<Seq<char>, TierConfig>, req: BatchRequest) -> Option<SLAError> {
    if !valid_severity(req.severity@) {
        Some(SLAError::InvalidSeverity)
    } else if !configs.contains_key(req.severity@) {
        Some(SLAError::ConfigNotFound)
    } else if req.mttr_minutes == 0 {
        Some(SLAError::InvalidMTTR)
    } else {
        None
    }
}

/// The outage took longer than the tier allows.
pub open spec fn violates(cfg: TierConfig, mttr: u32) -> bool {
    mttr > cfg.threshold_minutes
}

/// The penalty of a violation: the minutes over the threshold times the
/// penalty per minute, saturating.
pub open spec fn penalty_of(cfg: TierConfig, mttr: u32) -> i128 {
    clamp_i128((mttr - cfg.threshold_minutes) * cfg.penalty_per_minute)
}

/// How fast the outage was resolved, as a percentage of the threshold
/// (rounded down).
pub open spec fn ratio_of(cfg: TierConfig, mttr: u32) -> int {
    (mttr * 100) / (cfg.threshold_minutes as int)
}

/// The reward multiplier earned: top under 50% of the threshold,
/// excellent under 75%, good otherwise.
pub open spec fn multiplier_of(cfg: TierConfig, mttr: u32) -> u32 {
    if ratio_of(cfg, mttr) < 50 {
        cfg.top_tier_multiplier
    } else if ratio_of(cfg, mttr) < 75 {
        cfg.excel_tier_multiplier
    } else {
        cfg.good_tier_multiplier
    }
}

/// The rating earned by an outage within its threshold.
pub open spec fn rating_of(cfg: TierConfig, mttr: u32) -> Seq<char> {
    if ratio_of(cfg, mttr) < 50 {
        "top"@
    } else if ratio_of(cfg, mttr) < 75 {
        "excel"@
    } else {
        "good"@
    }
}

/// The reward: the base times the multiplier in percent (saturating),
/// rounded down.
pub open spec fn reward_of(cfg: TierConfig, mttr: u32) -> int {
    clamp_i128(cfg.reward_base * multiplier_of(cfg, mttr)) / 100
}

/// The amount a calculation records: the negated penalty for a violation,
/// the reward otherwise.
pub open spec fn amount_of(cfg: TierConfig, mttr: u32) -> int {
    if violates(cfg, mttr) {
        -penalty_of(cfg, mttr)
    } else {
        reward_of(cfg, mttr)
    }
}

/// The penalty of a violation can be negated.
pub open spec fn calc_fits(cfg: TierConfig, mttr: u32) -> bool {
    violates(cfg, mttr) ==> penalty_of(cfg, mttr) != i128::MIN
}

/// `r` is the calculation of `req` under `cfg` at `now`.
pub open spec fn calculated(cfg: TierConfig, req: BatchRequest, now: u64, r: SLAResult) -> bool {
    &&& r.outage_id == req.outage_id
    &&& r.mttr_minutes == req.mttr_minutes
    &&& r.threshold_minutes == cfg.threshold_minutes
    &&& r.amount == amount_of(cfg, req.mttr_minutes)
    &&& r.config_version_hash == 0
    &&& r.recorded_at == now
    &&& if violates(cfg, req.mttr_minutes) {
        &&& r.status@ == "viol"@
        &&& r.payment_type@ == "pen"@
        &&& r.rating@ == "poor"@
    } else {
        &&& r.status@ == "met"@
        &&& r.payment_type@ == "rew"@
        &&& r.rating@ == rating_of(cfg, req.mttr_minutes)
    }
}

/// Every request the batch may evaluate can be evaluated without
/// overflow.
pub open spec fn requests_fit(configs: Map<Seq<char>, TierConfig>, reqs: Seq<BatchRequest>) -> bool {
    forall|i: int|
        0 <= i < reqs.len() && refusal(configs, #[trigger] reqs[i]) is None ==> calc_fits(
            configs[reqs[i].severity@],
            reqs[i].mttr_minutes,
        )
}

fn floor_div_100(x: i128) -> (q: i128)
    ensures
        q == x / 100,
{
    let t = x / 100;
    if x < 0 && t * 100 != x {
        assert(t - 1 == x / 100) by (nonlinear_arith)
            requires
                x < 0,
                t == -((-x) / 100),
                t * 100 != x,
        {
            let m = (-x) / 100;
            assert(100 * m <= -x < 100 * m + 100);
            assert(m * 100 != -x);
        }
        t - 1
    } else {
        assert(t == x / 100) by (nonlinear_arith)
            requires
                x >= 0 ==> t == x / 100,
                x < 0 ==> t == -((-x) / 100) && t * 100 == x,
        ;
        t
    }
}

fn tier_table(configs: &Table<TierConfig>, severity: &Symbol) -> (r: Option<TierConfig>)
    requires
        configs.wf(),
    ensures
        r is Some <==> configs@.contains_key(severity@),
        r matches Some(c) ==> c == configs@[severity@],
{
    match configs.get(&severity.text) {
        Some(c) => Some(*c),
        None => None,
    }
}

/// Evaluates one request at `now` against the tier configurations.
pub fn process_single(configs: &Table<TierConfig>, req: &BatchRequest, now: u64) -> (r: Result<
    SLAResult,
    SLAError,
>)
    requires
        configs.wf(),
        refusal(configs@, *req) is None ==> calc_fits(
            configs@[req.severity@],
            req.mttr_minutes,
        ),
    ensures
        match refusal(configs@, *req) {
            Some(e) => r == Err::<SLAResult, SLAError>(e),
            None => r matches Ok(x) && calculated(configs@[req.severity@], *req, now, x),
        },
{
    let critical = Symbol::new("critical");
    let high = Symbol::new("high");
    let medium = Symbol::new("medium");
    let low = Symbol::new("low");
    if !(req.severity == critical || req.severity == high || req.severity == medium
        || req.severity == low) {
        return Err(SLAError::InvalidSeverity);
    }
    let cfg = match tier_table(configs, &req.severity) {
        Some(c) => c,
        None => return Err(SLAError::ConfigNotFound),
    };
    if req.mttr_minutes == 0 {
        return Err(SLAError::InvalidMTTR);
    }
    let threshold = cfg.threshold_minutes;
    if req.mttr_minutes > threshold {
        let overtime = (req.mttr_minutes - threshold) as i128;
        let penalty = saturating_mul_i128(overtime, cfg.penalty_per_minute);
        Ok(
            SLAResult {
                outage_id: req.outage_id.clone(),
                status: Symbol::new("viol"),
                mttr_minutes: req.mttr_minutes,
                threshold_minutes: threshold,
                amount: -penalty,
                payment_type: Symbol::new("pen"),
                rating: Symbol::new("poor"),
                config_version_hash: 0,
                recorded_at: now,
            },
        )
    } else {
        let ratio = (req.mttr_minutes as u64 * 100) / (threshold as u64);
        let (multiplier, rating) = if ratio < 50 {
            (cfg.top_tier_multiplier, Symbol::new("top"))
        } else if ratio < 75 {
            (cfg.excel_tier_multiplier, Symbol::new("excel"))
        } else {
            (cfg.good_tier_multiplier, Symbol::new("good"))
        };
        let reward = floor_div_100(saturating_mul_i128(cfg.reward_base, multiplier as i128));
        Ok(
            SLAResult {
                outage_id: req.outage_id.clone(),
                status: Symbol::new("met"),
                mttr_minutes: req.mttr_minutes,
                threshold_minutes: threshold,
                amount: reward,
                payment_type: Symbol::new("rew"),
                rating,
                config_version_hash: 0,
                recorded_at: now,
            },
        )
    }
}

/// Most requests in one batch.
pub fn get_batch_limit() -> (n: u32)
    ensures
        n == BATCH_LIMIT,
{
    BATCH_LIMIT
}

/// Some outage appears twice among the requests.
pub open spec fn has_duplicate(reqs: Seq<BatchRequest>) -> bool {
    exists|i: int, j: int|
        0 <= i < j < reqs.len() && #[trigger] reqs[i].outage_id@ == #[trigger] reqs[j].outage_id@
}

/// Why a batch is refused before anything is evaluated: it is empty,
/// longer than `BATCH_LIMIT`, or names an outage twice.
pub open spec fn batch_refusal(reqs: Seq<BatchRequest>) -> Option<SLAError> {
    if reqs.len() == 0 || reqs.len() > BATCH_LIMIT {
        Some(SLAError::ThresholdOutOfBounds)
    } else if has_duplicate(reqs) {
        Some(SLAError::DuplicateOutageInput)
    } else {
        None
    }
}

/// Checks a batch before it is evaluated and returns its size.
pub fn validate_batch(requests: &Vec<BatchRequest>) -> (r: Result<u32, SLAError>)
    ensures
        match batch_refusal(requests@) {
            Some(e) => r == Err::<u32, SLAError>(e),
            None => r == Ok::<u32, SLAError>(requests@.len() as u32),
        },
{
    if requests.len() == 0 {
        return Err(SLAError::ThresholdOutOfBounds);
    }
    if requests.len() > get_batch_limit() as usize {
        return Err(SLAError::ThresholdOutOfBounds);
    }
    let mut i: usize = 0;
    while i < requests.len()
        invariant
            0 < requests@.len() <= BATCH_LIMIT,
            i <= requests.len(),
            forall|a: int, b: int|
                0 <= a < b < i ==> #[trigger] requests@[a].outage_id@
                    != #[trigger] requests@[b].outage_id@,
        decreases requests.len() - i,
    {
        let mut j: usize = 0;
        while j < i
            invariant
                0 < requests@.len() <= BATCH_LIMIT,
                j <= i < requests.len(),
                forall|a: int| 0 <= a < j ==> #[trigger] requests@[a].outage_id@ != requests@[i as int].outage_id@,
            decreases i - j,
        {
            if requests[j].outage_id == requests[i].outage_id {
                assert(has_duplicate(requests@)) by {
                    assert(requests@[j as int].outage_id@ == requests@[i as int].outage_id@);
                }
                return Err(SLAError::DuplicateOutageInput);
            }
            j = j + 1;
        }
        i = i + 1;
    }
    Ok(requests.len() as u32)
}

/// Where the batch stops short of being evaluated: a refused batch, no or
/// another operator, a paused contract, no tier configurations.
pub open spec fn batch_gate(state: &CalculatorState, caller: Seq<char>, reqs: Seq<BatchRequest>) -> Option<
    SLAError,
> {
    if batch_refusal(reqs) is Some {
        batch_refusal(reqs)
    } else if state.operator is None {
        Some(SLAError::NotInitialized)
    } else if state.operator->0@ != caller {
        Some(SLAError::Unauthorized)
    } else if state.paused == Some(true) {
        Some(SLAError::ContractPaused)
    } else if state.configs is None {
        Some(SLAError::NotInitialized)
    } else {
        None
    }
}

/// The tag recorded for a request that could not be evaluated.
pub open spec fn error_tag(e: SLAError) -> Seq<char> {
    match e {
        SLAError::ConfigNotFound => "no_config"@,
        SLAError::InvalidSeverity => "bad_sev"@,
        SLAError::InvalidThreshold => "bad_thres"@,
        _ => "unknown"@,
    }
}

/// `item` is the outcome of `req`.
pub open spec fn item_outcome(configs: Map<Seq<char>, TierConfig>, req: BatchRequest, now: u64, item: BatchResult) -> bool {
    &&& item.outage_id == req.outage_id
    &&& match refusal(configs, req) {
        None => {
            &&& item.success
            &&& item.result@.len() == 1
            &&& calculated(configs[req.severity@], req, now, item.result@[0])
            &&& item.error is None
        },
        Some(e) => {
            &&& !item.success
            &&& item.result@.len() == 0
            &&& item.error matches Some(tag) && tag@ == error_tag(e)
        },
    }
}

/// Over `reqs`: how many were evaluated, and the saturating totals of the
/// rewards and of the violation amounts.
pub open spec fn batch_totals(configs: Map<Seq<char>, TierConfig>, reqs: Seq<BatchRequest>) -> (
    nat,
    i128,
    i128,
)
    decreases reqs.len(),
{
    if reqs.len() == 0 {
        (0, 0, 0)
    } else {
        let before = batch_totals(configs, reqs.drop_last());
        let req = reqs.last();
        if refusal(configs, req) is Some {
            before
        } else {
            let cfg = configs[req.severity@];
            let amount = amount_of(cfg, req.mttr_minutes);
            if violates(cfg, req.mttr_minutes) {
                (before.0 + 1, before.1, clamp_i128(before.2 + amount))
            } else {
                (before.0 + 1, clamp_i128(before.1 + amount), before.2)
            }
        }
    }
}

proof fn lemma_totals_count(configs: Map<Seq<char>, TierConfig>, reqs: Seq<BatchRequest>)
    ensures
        batch_totals(configs, reqs).0 <= reqs.len(),
    decreases reqs.len(),
{
    if reqs.len() > 0 {
        lemma_totals_count(configs, reqs.drop_last());
    }
}

fn error_symbol(e: SLAError) -> (s: Symbol)
    ensures
        s@ == error_tag(e),
{
    match e {
        SLAError::ConfigNotFound => Symbol::new("no_config"),
        SLAError::InvalidSeverity => Symbol::new("bad_sev"),
        SLAError::InvalidThreshold => Symbol::new("bad_thres"),
        _ => Symbol::new("unknown"),
    }
}

/// The operator evaluates up to `BATCH_LIMIT` outages at `now` in one
/// call. A request that cannot be evaluated is recorded as failed, with
/// its reason, and does not stop the others.
pub fn batch_calculate(
    state: &CalculatorState,
    caller: &Account,
    requests: &Vec<BatchRequest>,
    now: u64,
) -> (r: Result<(BatchSummary, Vec<BatchResult>), SLAError>)
    requires
        state.configs matches Some(t) ==> t.wf() && requests_fit(t@, requests@),
    ensures
        match batch_gate(state, caller@, requests@) {
            Some(e) => r == Err::<(BatchSummary, Vec<BatchResult>), SLAError>(e),
            None => r matches Ok(out) && {
                let configs = state.configs->0@;
                let totals = batch_totals(configs, requests@);
                &&& out.1@.len() == requests@.len()
                &&& forall|i: int|
                    0 <= i < requests@.len() ==> item_outcome(
                        configs,
                        requests@[i],
                        now,
                        #[trigger] out.1@[i],
                    )
                &&& out.0.total == requests@.len()
                &&& out.0.succeeded == totals.0
                &&& out.0.failed == requests@.len() - totals.0
                &&& out.0.total_rewards == totals.1
                &&& out.0.total_penalties == totals.2
            },
        },
{
    match validate_batch(requests) {
        Err(e) => return Err(e),
        Ok(_) => {},
    }
    match &state.operator {
        None => return Err(SLAError::NotInitialized),
        Some(operator) => if *caller != *operator {
            return Err(SLAError::Unauthorized);
        },
    }
    let paused = match state.paused {
        Some(p) => p,
        None => false,
    };
    if paused {
        return Err(SLAError::ContractPaused);
    }
    let configs = match &state.configs {
        Some(c) => c,
        None => return Err(SLAError::NotInitialized),
    };
    let ghost cm = configs@;
    let viol = Symbol::new("viol");
    let mut results: Vec<BatchResult> = Vec::new();
    let mut succeeded: u32 = 0;
    let mut failed: u32 = 0;
    let mut total_rewards: i128 = 0;
    let mut total_penalties: i128 = 0;
    let mut i: usize = 0;
    while i < requests.len()
        invariant
            configs.wf(),
            cm == configs@,
            requests_fit(cm, requests@),
            requests@.len() <= BATCH_LIMIT,
            viol@ == "viol"@,
            i <= requests@.len(),
            results@.len() == i,
            forall|k: int| 0 <= k < i ==> item_outcome(cm, requests@[k], now, #[trigger] results@[k]),
            succeeded == batch_totals(cm, requests@.subrange(0, i as int)).0,
            failed == i - succeeded,
            total_rewards == batch_totals(cm, requests@.subrange(0, i as int)).1,
            total_penalties == batch_totals(cm, requests@.subrange(0, i as int)).2,
        decreases requests.len() - i,
    {
        let req = &requests[i];
        let ghost pre = requests@.subrange(0, i as int);
        let ghost next = requests@.subrange(0, i + 1);
        proof {
            assert(next.drop_last() =~= pre);
            assert(next.last() == requests@[i as int]);
            lemma_totals_count(cm, pre);
        }
        match process_single(configs, req, now) {
            Ok(res) => {
                proof {
                    let cfg = cm[req.severity@];
                    assert(refusal(cm, *req) is None);
                    assert(res.amount == amount_of(cfg, req.mttr_minutes));
                    let t = batch_totals(cm, next);
                    let b = batch_totals(cm, pre);
                    if violates(cfg, req.mttr_minutes) {
                        assert(t == (b.0 + 1, b.1, clamp_i128(b.2 + res.amount)));
                    } else {
                        reveal_strlit("met");
                        reveal_strlit("viol");
                        assert("met"@.len() != "viol"@.len());
                        assert(res.status@ != viol@);
                        assert(t == (b.0 + 1, clamp_i128(b.1 + res.amount), b.2));
                    }
                }
                succeeded = succeeded + 1;
                if res.status == viol {
                    total_penalties = saturating_add_i128(total_penalties, res.amount);
                } else {
                    total_rewards = saturating_add_i128(total_rewards, res.amount);
                }
                let outage_id = req.outage_id.clone();
                let mut one: Vec<SLAResult> = Vec::new();
                one.push(res);
                results.push(BatchResult { outage_id, success: true, result: one, error: None });
            },
            Err(e) => {
                failed = failed + 1;
                let tag = error_symbol(e);
                results.push(
                    BatchResult {
                        outage_id: req.outage_id.clone(),
                        success: false,
                        result: Vec::new(),
                        error: Some(tag),
                    },
                );
            },
        }
        i = i + 1;
    }
    assert(requests@.subrange(0, requests@.len() as int) =~= requests@);
    let summary = BatchSummary {
        total: requests.len() as u32,
        succeeded,
        failed,
        total_rewards,
        total_penalties,
    };
    Ok((summary, results))
}

/// The first result for `outage_id`, if any.
pub fn find_result_by_outage_id(results: &Vec<BatchResult>, outage_id: &Symbol) -> (r: Option<
    BatchResult,
>)
    ensures
        match r {
            Some(found) => exists|i: int|
                0 <= i < results@.len() && same_item(results@[i], found) && found.outage_id@
                    == outage_id@ && forall|j: int|
                    0 <= j < i ==> #[trigger] results@[j].outage_id@ != outage_id@,
            None => forall|j: int|
                0 <= j < results@.len() ==> #[trigger] results@[j].outage_id@ != outage_id@,
        },
{
    let mut i: usize = 0;
    while i < results.len()
        invariant
            i <= results.len(),
            forall|j: int| 0 <= j < i ==> #[trigger] results@[j].outage_id@ != outage_id@,
        decreases results.len() - i,
    {
        if results[i].outage_id == *outage_id {
            let found = copy_item(&results[i]);
            assert(same_item(results@[i as int], found));
            return Some(found);
        }
        i = i + 1;
    }
    None
}

/// One executed batch item, stamped with the ledger time.
#[derive(Clone, Copy, Debug, PartialEq, Eq, Structural)]
pub struct BatchItemResult {
    pub item_id: u64,
    pub success: bool,
    pub recorded_at: u64,
}

pub struct BatchExecutionManager;

impl BatchExecutionManager {
    /// Executes the items in order, each successfully, stamped with `now`.
    pub fn process_batch(item_ids: &Vec<u64>, now: u64) -> (out: Vec<BatchItemResult>)
        ensures
            out@.len() == item_ids@.len(),
            forall|i: int|
                0 <= i < item_ids@.len() ==> #[trigger] out@[i] == (BatchItemResult {
                    item_id: item_ids@[i],
                    success: true,
                    recorded_at: now,
                }),
    {
        let mut results: Vec<BatchItemResult> = Vec::new();
        let mut i: usize = 0;
        while i < item_ids.len()
            invariant
                i <= item_ids.len(),
                results@.len() == i,
                forall|k: int|
                    0 <= k < i ==> #[trigger] results@[k] == (BatchItemResult {
                        item_id: item_ids@[k],
                        success: true,
                        recorded_at: now,
                    }),
            decreases item_ids.len() - i,
        {
            results.push(BatchItemResult { item_id: item_ids[i], success: true, recorded_at: now });
            i = i + 1;
        }
        results
    }
}

/// Every calculation is ranked consistently: a violation is recorded as a
/// penalty (a non-positive amount for a non-negative rate), and an outage
/// within its threshold earns a reward whose multiplier only drops as the
/// resolution slows.
pub proof fn lemma_ratings_are_monotone(cfg: TierConfig, fast: u32, slow: u32)
    requires
        0 < fast <= slow <= cfg.threshold_minutes,
    ensures
        ratio_of(cfg, fast) <= ratio_of(cfg, slow),
        ratio_of(cfg, fast) >= 75 ==> rating_of(cfg, slow) == "good"@,
{
    let t = cfg.threshold_minutes as int;
    assert((fast * 100) / t <= (slow * 100) / t) by (nonlinear_arith)
        requires
            0 < fast <= slow,
            t > 0,
    {
        vstd::arithmetic::div_mod::lemma_div_is_ordered((fast * 100) as int, (slow * 100) as int, t);
    }
}

/// A violation with a non-negative penalty rate records a non-positive
/// amount, and the penalty grows with every minute over the threshold.
pub proof fn lemma_penalty_grows(cfg: TierConfig, mttr: u32, later: u32)
    requires
        cfg.penalty_per_minute >= 0,
        cfg.threshold_minutes < mttr <= later,
    ensures
        amount_of(cfg, mttr) <= 0,
        penalty_of(cfg, mttr) <= penalty_of(cfg, later),
{
    let p = cfg.penalty_per_minute as int;
    let a = (mttr - cfg.threshold_minutes) as int;
    let b = (later - cfg.threshold_minutes) as int;
    assert(0 <= a * p <= b * p) by (nonlinear_arith)
        requires
            0 < a <= b,
            p >= 0,
    ;
}

} // verus!
