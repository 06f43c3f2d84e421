use vstd::prelude::*;
use crate::arith::div_trunc;
use crate::ident::{
    key_order, keys_ascending, lemma_key_order_ascending, lemma_key_order_distinct,
    lemma_key_order_members, order_keys, texts,
    Account, Symbol,
};
use crate::table::Table;

verus! {

/// Most disputes that may be active (open, under review or escalated) at
/// once.
pub const MAX_ACTIVE_DISPUTES: usize = 50;
/// Share of an upheld dispute's bond paid to the arbitrators who voted,
/// in basis points (5.00%).
pub const ARBITRATOR_FEE_BPS: i128 = 500;
pub const BPS_DENOMINATOR: i128 = 10_000;
/// Time from filing until the arbitration window closes (fourteen days).
pub const DEFAULT_ARBITRATION_WINDOW_SECS: u64 = 1_209_600;
/// Size of a designated arbitrator panel.
pub const ARBITRATOR_PANEL_SIZE: usize = 3;
/// Matching votes that finalise a dispute.
pub const ARBITRATOR_QUORUM: u32 = 2;

#[derive(Clone, Copy, Debug, PartialEq, Eq, Structural)]
pub enum DisputeError {
    NotInitialized,
    Unauthorized,
    ConfigNotFound,
    InvalidTransition,
    MaxActiveDisputesReached,
    DisputeNotActive,
    NotDisputeFiler,
    InvalidArbitratorPanel,
    ArbitrationWindowNotExpired,
}

#[derive(Clone, Copy, Debug, PartialEq, Eq, Structural)]
pub enum DisputeStatus {
    Open,
    UnderReview,
    Escalated,
    Resolved,
    Dismissed,
}

/// Open, under review and escalated disputes are active: they count
/// against the cap and still take votes.
pub open spec fn active(status: DisputeStatus) -> bool {
    status == DisputeStatus::Open || status == DisputeStatus::UnderReview || status
        == DisputeStatus::Escalated
}

impl DisputeStatus {
    pub fn is_active(&self) -> (b: bool)
        ensures
            b == active(*self),
    {
        match self {
            DisputeStatus::Open | DisputeStatus::UnderReview | DisputeStatus::Escalated => true,
            _ => false,
        }
    }
}

#[derive(Clone, Copy, Debug, PartialEq, Eq, Structural)]
pub enum EscalationLevel {
    L1Support,
    L2Engineering,
    L3Management,
}

#[derive(Clone, Copy, Debug, PartialEq, Eq, Structural)]
pub enum VoteDecision {
    UpholdOutage,
    DismissOutage,
}

/// One arbitrator's decision, with its judgement on whether the dispute was
/// frivolous.
#[derive(Debug)]
pub struct ArbitratorVote {
    pub arbitrator: Account,
    pub decision: VoteDecision,
    pub frivolous: bool,
}

impl Clone for ArbitratorVote {
    fn clone(&self) -> (v: Self)
        ensures
            v == *self,
    {
        ArbitratorVote {
            arbitrator: self.arbitrator.clone(),
            decision: self.decision,
            frivolous: self.frivolous,
        }
    }
}

/// A dispute against an outage record.
#[derive(Debug)]
pub struct Dispute {
    pub dispute_id: Symbol,
    pub outage_id: Symbol,
    pub opened_by: Account,
    pub opened_at: u64,
    pub status: DisputeStatus,
    pub escalation_level: EscalationLevel,
    pub reason: String,
    pub resolution: Option<String>,
    pub resolved_by: Option<Account>,
    pub resolved_at: Option<u64>,
    pub bond_amount: i128,
    /// The latest evidence hash; all zero while there is none.
    pub evidence_hash: [u8; 32],
    /// Every evidence hash submitted, oldest first.
    pub evidence_history: Vec<[u8; 32]>,
    /// The arbitrators who voted, in voting order.
    pub arbitrator_votes: Vec<Account>,
    /// Their votes, one per entry of `arbitrator_votes`.
    pub votes_detail: Vec<ArbitratorVote>,
    /// The panel allowed to vote; empty when any arbitrator may vote.
    pub designated_arbitrators: Vec<Account>,
    pub arbitration_window_deadline: u64,
}

/// A dispute with its vectors seen as sequences.
#[verifier::ext_equal]
pub struct DisputeView {
    pub dispute_id: Symbol,
    pub outage_id: Symbol,
    pub opened_by: Account,
    pub opened_at: u64,
    pub status: DisputeStatus,
    pub escalation_level: EscalationLevel,
    pub reason: Seq<char>,
    pub resolution: Option<Seq<char>>,
    pub resolved_by: Option<Account>,
    pub resolved_at: Option<u64>,
    pub bond_amount: i128,
    pub evidence_hash: [u8; 32],
    pub evidence_history: Seq<[u8; 32]>,
    pub arbitrator_votes: Seq<Account>,
    pub votes_detail: Seq<ArbitratorVote>,
    pub designated_arbitrators: Seq<Account>,
    pub arbitration_window_deadline: u64,
}

impl View for Dispute {
    type V = DisputeView;

    open spec fn view(&self) -> DisputeView {
        DisputeView {
            dispute_id: self.dispute_id,
            outage_id: self.outage_id,
            opened_by: self.opened_by,
            opened_at: self.opened_at,
            status: self.status,
            escalation_level: self.escalation_level,
            reason: self.reason@,
            resolution: match self.resolution {
                Some(text) => Some(text@),
                None => None,
            },
            resolved_by: self.resolved_by,
            resolved_at: self.resolved_at,
            bond_amount: self.bond_amount,
            evidence_hash: self.evidence_hash,
            evidence_history: self.evidence_history@,
            arbitrator_votes: self.arbitrator_votes@,
            votes_detail: self.votes_detail@,
            designated_arbitrators: self.designated_arbitrators@,
            arbitration_window_deadline: self.arbitration_window_deadline,
        }
    }
}

fn copy_addresses(v: &Vec<Account>) -> (r: Vec<Account>)
    ensures
        r@ == v@,
{
    let mut r: Vec<Account> = Vec::new();
    let mut i: usize = 0;
    while i < v.len()
        invariant
            i <= v.len(),
            r@ == v@.subrange(0, i as int),
        decreases v.len() - i,
    {
        r.push(v[i].clone());
        i = i + 1;
        assert(r@ =~= v@.subrange(0, i as int));
    }
    assert(v@.subrange(0, v.len() as int) =~= v@);
    r
}

fn copy_hashes(v: &Vec<[u8; 32]>) -> (r: Vec<[u8; 32]>)
    ensures
        r@ == v@,
{
    let mut r: Vec<[u8; 32]> = Vec::new();
    let mut i: usize = 0;
    while i < v.len()
        invariant
            i <= v.len(),
            r@ == v@.subrange(0, i as int),
        decreases v.len() - i,
    {
        r.push(v[i]);
        i = i + 1;
        assert(r@ =~= v@.subrange(0, i as int));
    }
    assert(v@.subrange(0, v.len() as int) =~= v@);
    r
}

fn copy_votes(v: &Vec<ArbitratorVote>) -> (r: Vec<ArbitratorVote>)
    ensures
        r@ == v@,
{
    let mut r: Vec<ArbitratorVote> = Vec::new();
    let mut i: usize = 0;
    while i < v.len()
        invariant
            i <= v.len(),
            r@ == v@.subrange(0, i as int),
        decreases v.len() - i,
    {
        r.push(v[i].clone());
        i = i + 1;
        assert(r@ =~= v@.subrange(0, i as int));
    }
    assert(v@.subrange(0, v.len() as int) =~= v@);
    r
}

fn copy_text(s: &Option<String>) -> (r: Option<String>)
    ensures
        r == *s,
{
    match s {
        Some(t) => Some(t.clone()),
        None => None,
    }
}

fn copy_address(a: &Option<Account>) -> (r: Option<Account>)
    ensures
        r == *a,
{
    match a {
        Some(t) => Some(t.clone()),
        None => None,
    }
}

impl Dispute {
    /// A copy of the dispute.
    pub fn duplicate(&self) -> (d: Dispute)
        ensures
            d@ == self@,
    {
        Dispute {
            dispute_id: self.dispute_id.clone(),
            outage_id: self.outage_id.clone(),
            opened_by: self.opened_by.clone(),
            opened_at: self.opened_at,
            status: self.status,
            escalation_level: self.escalation_level,
            reason: self.reason.clone(),
            resolution: copy_text(&self.resolution),
            resolved_by: copy_address(&self.resolved_by),
            resolved_at: self.resolved_at,
            bond_amount: self.bond_amount,
            evidence_hash: self.evidence_hash,
            evidence_history: copy_hashes(&self.evidence_history),
            arbitrator_votes: copy_addresses(&self.arbitrator_votes),
            votes_detail: copy_votes(&self.votes_detail),
            designated_arbitrators: copy_addresses(&self.designated_arbitrators),
            arbitration_window_deadline: self.arbitration_window_deadline,
        }
    }
}

/// The state a dashboard needs about one dispute.
pub struct DisputeDetails {
    pub dispute_id: Symbol,
    pub status: DisputeStatus,
    pub escalation_level: EscalationLevel,
    pub evidence_hash: [u8; 32],
    pub arbitrator_votes: Vec<Account>,
    pub bond_amount: i128,
    /// Seconds until the arbitration window closes; zero once it has.
    pub time_remaining_secs: u64,
}

/// How a settled dispute's bond is split.
#[derive(Debug)]
pub struct SettlementPayout {
    pub dispute_id: Symbol,
    pub upheld: bool,
    pub customer_payout: i128,
    pub arbitrator_fee_total: i128,
    pub per_arbitrator_share: i128,
}

impl Clone for SettlementPayout {
    fn clone(&self) -> (p: Self)
        ensures
            p == *self,
    {
        SettlementPayout {
            dispute_id: self.dispute_id.clone(),
            upheld: self.upheld,
            customer_payout: self.customer_payout,
            arbitrator_fee_total: self.arbitrator_fee_total,
            per_arbitrator_share: self.per_arbitrator_share,
        }
    }
}

/// What the dispute module publishes.
pub enum DisputeEvent {
    Opened { caller: Account, dispute_id: Symbol },
    Escalated { caller: Account, dispute_id: Symbol },
    EvidenceAdded { caller: Account, dispute_id: Symbol, evidence_count: u32 },
    Voted { arbitrator: Account, dispute_id: Symbol },
    QuorumReached { dispute_id: Symbol },
    AutoResolved { dispute_id: Symbol },
    Resolved { resolved_by: Account, dispute_id: Symbol },
    Payout { payout: SettlementPayout },
}

/// The hash that stands for "no evidence yet": 32 zero bytes.
pub open spec fn zero_hash() -> Seq<u8> {
    Seq::new(32, |i: int| 0u8)
}

pub fn no_evidence_hash() -> (h: [u8; 32])
    ensures
        h@ == zero_hash(),
{
    let h = [0u8; 32];
    assert(h@ =~= zero_hash());
    h
}

fn is_no_evidence(h: &[u8; 32]) -> (b: bool)
    ensures
        b == (h@ == zero_hash()),
{
    let mut i: usize = 0;
    while i < 32
        invariant
            i <= 32,
            forall|j: int| 0 <= j < i ==> h@[j] == 0u8,
        decreases 32 - i,
    {
        if h[i] != 0 {
            assert(h@[i as int] != zero_hash()[i as int]);
            return false;
        }
        i = i + 1;
    }
    assert(h@ =~= zero_hash());
    true
}

/// Whether `who` is among `voters`.
pub open spec fn listed(voters: Seq<Account>, who: Seq<char>) -> bool {
    exists|i: int| 0 <= i < voters.len() && #[trigger] voters[i]@ == who
}

fn contains_address(v: &Vec<Account>, who: &Account) -> (b: bool)
    ensures
        b == listed(v@, who@),
{
    let mut i: usize = 0;
    while i < v.len()
        invariant
            i <= v.len(),
            forall|j: int| 0 <= j < i ==> #[trigger] v@[j]@ != who@,
        decreases v.len() - i,
    {
        if v[i] == *who {
            return true;
        }
        i = i + 1;
    }
    false
}

/// Each arbitrator appears once among a dispute's votes, and the detailed
/// votes follow the list of voters.
pub open spec fn votes_consistent(d: DisputeView) -> bool {
    &&& d.votes_detail.len() == d.arbitrator_votes.len()
    &&& forall|i: int|
        0 <= i < d.votes_detail.len() ==> #[trigger] d.votes_detail[i].arbitrator
            == d.arbitrator_votes[i]
    &&& forall|i: int, j: int|
        0 <= i < j < d.arbitrator_votes.len() ==> #[trigger] d.arbitrator_votes[i]@
            != #[trigger] d.arbitrator_votes[j]@
}

/// How many of the disputes under `keys` are active.
pub open spec fn active_count(disputes: Map<Seq<char>, DisputeView>, keys: Seq<Seq<char>>) -> nat
    decreases keys.len(),
{
    if keys.len() == 0 {
        0
    } else {
        active_count(disputes, keys.drop_last()) + if active(disputes[keys.last()].status) {
            1nat
        } else {
            0nat
        }
    }
}

proof fn lemma_active_count_bound(disputes: Map<Seq<char>, DisputeView>, keys: Seq<Seq<char>>)
    ensures
        active_count(disputes, keys) <= keys.len(),
    decreases keys.len(),
{
    if keys.len() > 0 {
        lemma_active_count_bound(disputes, keys.drop_last());
    }
}

proof fn lemma_active_count_other(
    disputes: Map<Seq<char>, DisputeView>,
    keys: Seq<Seq<char>>,
    k: Seq<char>,
    v: DisputeView,
)
    requires
        !keys.contains(k),
    ensures
        active_count(disputes.insert(k, v), keys) == active_count(disputes, keys),
    decreases keys.len(),
{
    if keys.len() > 0 {
        assert(keys.drop_last().len() < keys.len());
        assert forall|x: Seq<char>| keys.drop_last().contains(x) implies keys.contains(x) by {
            let i = choose|i: int| 0 <= i < keys.drop_last().len() && keys.drop_last()[i] == x;
            assert(keys[i] == x);
        }
        lemma_active_count_other(disputes, keys.drop_last(), k, v);
        assert(keys.last() != k) by {
            assert(keys[keys.len() - 1] == keys.last());
        }
    }
}

proof fn lemma_active_count_update(
    disputes: Map<Seq<char>, DisputeView>,
    keys: Seq<Seq<char>>,
    k: Seq<char>,
    v: DisputeView,
)
    requires
        keys.contains(k),
        keys.no_duplicates(),
    ensures
        active_count(disputes.insert(k, v), keys) + (if active(disputes[k].status) {
            1int
        } else {
            0int
        }) == active_count(disputes, keys) + (if active(v.status) {
            1int
        } else {
            0int
        }),
    decreases keys.len(),
{
    let rest = keys.drop_last();
    if keys.last() == k {
        assert(!rest.contains(k)) by {
            if rest.contains(k) {
                let i = choose|i: int| 0 <= i < rest.len() && rest[i] == k;
                assert(keys[i] == keys[keys.len() - 1]);
            }
        }
        lemma_active_count_other(disputes, rest, k, v);
    } else {
        assert(rest.contains(k)) by {
            let i = choose|i: int| 0 <= i < keys.len() && keys[i] == k;
            assert(i != keys.len() - 1);
            assert(rest[i] == k);
        }
        assert(rest.no_duplicates()) by {
            assert forall|i: int, j: int|
                0 <= i < rest.len() && 0 <= j < rest.len() && i != j implies rest[i]
                != rest[j] by {
                assert(keys[i] != keys[j]);
            }
        }
        lemma_active_count_update(disputes, rest, k, v);
    }
}

proof fn lemma_active_count_push(
    disputes: Map<Seq<char>, DisputeView>,
    keys: Seq<Seq<char>>,
    k: Seq<char>,
    v: DisputeView,
)
    requires
        !keys.contains(k),
    ensures
        active_count(disputes.insert(k, v), keys.push(k)) == active_count(disputes, keys) + (if active(
            v.status,
        ) {
            1nat
        } else {
            0nat
        }),
{
    assert(keys.push(k).drop_last() =~= keys);
    lemma_active_count_other(disputes, keys, k, v);
}

/// A dispute's fee balance: what it was credited so far, zero if nothing.
pub open spec fn fee_balance(fees: Map<Seq<char>, i128>, who: Seq<char>) -> int {
    if fees.contains_key(who) {
        fees[who] as int
    } else {
        0
    }
}

/// The fee balances after every voter in `voters` is credited `share`.
pub open spec fn credited(fees: Map<Seq<char>, i128>, voters: Seq<Account>, share: i128) -> Map<
    Seq<char>,
    i128,
> {
    Map::new(
        |k: Seq<char>| fees.contains_key(k) || listed(voters, k),
        |k: Seq<char>|
            if listed(voters, k) {
                (fee_balance(fees, k) + share) as i128
            } else {
                fees[k]
            },
    )
}

/// How a bond is split when a dispute settles, given the number of
/// arbitrators who voted: (customer payout, arbitrator fee total, share per
/// arbitrator, amount slashed to the arbitration pool). A slashed bond goes
/// to the pool entirely. Otherwise an upheld dispute with voters pays 5% of
/// the bond (rounded toward zero) to them, split evenly (rounded toward
/// zero), and the customer gets the rest; a dismissed one refunds it all.
pub open spec fn settlement_terms(bond: i128, upheld: bool, slash: bool, voters: nat) -> (
    int,
    int,
    int,
    int,
) {
    if slash {
        (0, 0, 0, bond as int)
    } else {
        let fee = if upheld && voters > 0 {
            div_trunc(bond * ARBITRATOR_FEE_BPS, BPS_DENOMINATOR as int)
        } else {
            0
        };
        let per = if voters > 0 {
            div_trunc(fee, voters as int)
        } else {
            0
        };
        (bond - fee, fee, per, 0)
    }
}

/// The payout record of a settlement.
pub open spec fn payout_of(dispute_id: Symbol, d: DisputeView, upheld: bool, slash: bool) -> SettlementPayout {
    let t = settlement_terms(d.bond_amount, upheld, slash, d.arbitrator_votes.len());
    SettlementPayout {
        dispute_id,
        upheld,
        customer_payout: t.0 as i128,
        arbitrator_fee_total: t.1 as i128,
        per_arbitrator_share: t.2 as i128,
    }
}

/// A dispute once settled.
pub open spec fn settled_view(d: DisputeView, resolved_by: Account, resolution: Seq<char>, now: u64) -> DisputeView {
    DisputeView {
        status: DisputeStatus::Resolved,
        resolution: Some(resolution),
        resolved_by: Some(resolved_by),
        resolved_at: Some(now),
        ..d
    }
}

/// The fee balances after a settlement.
pub open spec fn fees_after(fees: Map<Seq<char>, i128>, d: DisputeView, upheld: bool, slash: bool) -> Map<
    Seq<char>,
    i128,
> {
    let per = settlement_terms(d.bond_amount, upheld, slash, d.arbitrator_votes.len()).2;
    if per > 0 {
        credited(fees, d.arbitrator_votes, per as i128)
    } else {
        fees
    }
}

/// The arbitration pool after a settlement.
pub open spec fn pool_after(pool: Option<i128>, d: DisputeView, upheld: bool, slash: bool) -> Option<i128> {
    let amount = settlement_terms(d.bond_amount, upheld, slash, d.arbitrator_votes.len()).3;
    if amount > 0 {
        let current: int = match pool {
            Some(p) => p as int,
            None => 0,
        };
        Some((current + amount) as i128)
    } else {
        pool
    }
}

/// Every amount a settlement computes fits its integer type.
pub open spec fn settlement_fits(
    fees: Map<Seq<char>, i128>,
    pool: Option<i128>,
    d: DisputeView,
    upheld: bool,
    slash: bool,
) -> bool {
    let t = settlement_terms(d.bond_amount, upheld, slash, d.arbitrator_votes.len());
    &&& (!slash && upheld && d.arbitrator_votes.len() > 0) ==> i128::MIN <= d.bond_amount
        * ARBITRATOR_FEE_BPS <= i128::MAX
    &&& t.2 > 0 ==> forall|i: int|
        0 <= i < d.arbitrator_votes.len() ==> fee_balance(fees, #[trigger] d.arbitrator_votes[i]@)
            + t.2 <= i128::MAX
    &&& t.3 > 0 ==> (match pool {
        Some(p) => p as int,
        None => 0int,
    }) + t.3 <= i128::MAX
}

/// A dispute that is still active has no verdict from its votes yet (a
/// verdict settles it at once).
pub open spec fn awaiting_verdict(d: DisputeView) -> bool {
    active(d.status) ==> quorum(d.votes_detail) is None
}

/// The disputes, their fee and payout books, the arbitration pool and
/// the admin, as kept in instance storage.
pub struct DisputeStore {
    admin: Option<Account>,
    disputes: Table<Dispute>,
    arbitrator_fees: Table<i128>,
    payouts: Table<SettlementPayout>,
    arbitration_pool: Option<i128>,
    events: Vec<DisputeEvent>,
}

impl DisputeStore {
    pub closed spec fn admin_of(&self) -> Option<Account> {
        self.admin
    }

    pub closed spec fn disputes(&self) -> Map<Seq<char>, DisputeView> {
        self.disputes@.map_values(|d: Dispute| d@)
    }

    /// Dispute ids in storage order.
    pub closed spec fn dispute_ids(&self) -> Seq<Seq<char>> {
        self.disputes.key_seq()
    }

    pub closed spec fn fees(&self) -> Map<Seq<char>, i128> {
        self.arbitrator_fees@
    }

    pub closed spec fn payouts(&self) -> Map<Seq<char>, SettlementPayout> {
        self.payouts@
    }

    pub closed spec fn pool(&self) -> Option<i128> {
        self.arbitration_pool
    }

    pub closed spec fn event_log(&self) -> Seq<DisputeEvent> {
        self.events@
    }

    /// How many stored disputes are active.
    pub open spec fn active_disputes(&self) -> nat {
        active_count(self.disputes(), self.dispute_ids())
    }

    /// The tables are consistent, every dispute's votes are consistent, the
    /// votes on an active dispute have not yet reached a verdict, and no
    /// more than `MAX_ACTIVE_DISPUTES` disputes are active.
    pub closed spec fn wf(&self) -> bool {
        &&& self.disputes.wf()
        &&& self.arbitrator_fees.wf()
        &&& self.payouts.wf()
        &&& forall|k: Seq<char>| #[trigger]
            self.disputes@.contains_key(k) ==> votes_consistent(self.disputes@[k]@)
        &&& forall|k: Seq<char>| #[trigger]
            self.disputes@.contains_key(k) ==> awaiting_verdict(self.disputes@[k]@)
        &&& active_count(self.disputes(), self.dispute_ids()) <= MAX_ACTIVE_DISPUTES
    }

    pub open spec fn unchanged_except_disputes_and_events(&self, other: &Self) -> bool {
        &&& self.admin_of() == other.admin_of()
        &&& self.fees() == other.fees()
        &&& self.payouts() == other.payouts()
        &&& self.pool() == other.pool()
    }

    /// An empty dispute store with the given admin.
    pub fn new(admin: Option<Account>) -> (s: Self)
        ensures
            s.wf(),
            s.admin_of() == admin,
            s.disputes() == Map::<Seq<char>, DisputeView>::empty(),
            s.dispute_ids() == Seq::<Seq<char>>::empty(),
            s.fees() == Map::<Seq<char>, i128>::empty(),
            s.payouts() == Map::<Seq<char>, SettlementPayout>::empty(),
            s.pool() is None,
            s.event_log() == Seq::<DisputeEvent>::empty(),
    {
        let s = DisputeStore {
            admin,
            disputes: Table::new(),
            arbitrator_fees: Table::new(),
            payouts: Table::new(),
            arbitration_pool: None,
            events: Vec::new(),
        };
        assert(s.disputes() =~= Map::<Seq<char>, DisputeView>::empty());
        s
    }

    pub fn events(&self) -> (e: &Vec<DisputeEvent>)
        ensures
            e@ == self.event_log(),
    {
        &self.events
    }

    proof fn lemma_views(&self)
        requires
            self.disputes.wf(),
        ensures
            forall|k: Seq<char>| #[trigger]
                self.disputes().contains_key(k) <==> self.dispute_ids().contains(k),
            self.dispute_ids().no_duplicates(),
    {
        self.disputes.lemma_keys();
    }

    /// Stores `d` under `key`, keeping the other disputes.
    fn put_dispute(&mut self, key: &Symbol, d: Dispute)
        requires
            old(self).disputes.wf(),
        ensures
            final(self).disputes.wf(),
            final(self).disputes() == old(self).disputes().insert(key@, d@),
            old(self).disputes().contains_key(key@) ==> final(self).dispute_ids() == old(
                self,
            ).dispute_ids(),
            !old(self).disputes().contains_key(key@) ==> final(self).dispute_ids() == old(
                self,
            ).dispute_ids().push(key@),
            final(self).disputes@ == old(self).disputes@.insert(key@, d),
            final(self).admin == old(self).admin,
            final(self).arbitrator_fees == old(self).arbitrator_fees,
            final(self).payouts == old(self).payouts,
            final(self).arbitration_pool == old(self).arbitration_pool,
            final(self).events == old(self).events,
    {
        let ghost dv = d@;
        self.disputes.set(key.text.clone(), d);
        assert(self.disputes() =~= old(self).disputes().insert(key@, dv));
    }
}

/// `caller` is the stored admin.
pub open spec fn admin_check(admin: Option<Account>, caller: Seq<char>) -> Result<(), DisputeError> {
    match admin {
        None => Err(DisputeError::NotInitialized),
        Some(a) => if a@ == caller {
            Ok(())
        } else {
            Err(DisputeError::Unauthorized)
        },
    }
}

fn require_admin(store: &DisputeStore, caller: &Account) -> (r: Result<(), DisputeError>)
    ensures
        r == admin_check(store.admin_of(), caller@),
{
    match &store.admin {
        None => Err(DisputeError::NotInitialized),
        Some(admin) => if *admin == *caller {
            Ok(())
        } else {
            Err(DisputeError::Unauthorized)
        },
    }
}

fn count_active_disputes(disputes: &Table<Dispute>) -> (n: usize)
    requires
        disputes.wf(),
    ensures
        n == active_count(disputes@.map_values(|d: Dispute| d@), disputes.key_seq()),
{
    let ghost m = disputes@.map_values(|d: Dispute| d@);
    let mut count: usize = 0;
    let mut i: usize = 0;
    let n = disputes.len();
    while i < n
        invariant
            disputes.wf(),
            n == disputes.key_seq().len(),
            i <= n,
            m == disputes@.map_values(|d: Dispute| d@),
            count == active_count(m, disputes.key_seq().subrange(0, i as int)),
            count <= i,
        decreases n - i,
    {
        let d = disputes.value_at(i);
        proof {
            let ks = disputes.key_seq();
            assert(ks.subrange(0, i + 1).drop_last() =~= ks.subrange(0, i as int));
            assert(ks.subrange(0, i + 1).last() == ks[i as int]);
            assert(m[ks[i as int]] == d@);
        }
        if d.status.is_active() {
            count = count + 1;
        }
        i = i + 1;
    }
    assert(disputes.key_seq().subrange(0, n as int) =~= disputes.key_seq());
    count
}

/// The dispute freshly opened with these arguments.
pub open spec fn opened_view(
    caller: Account,
    dispute_id: Symbol,
    outage_id: Symbol,
    reason: String,
    bond_amount: i128,
    evidence_hash: [u8; 32],
    now: u64,
) -> DisputeView {
    DisputeView {
        dispute_id,
        outage_id,
        opened_by: caller,
        opened_at: now,
        status: DisputeStatus::Open,
        escalation_level: EscalationLevel::L1Support,
        reason: reason@,
        resolution: None,
        resolved_by: None,
        resolved_at: None,
        bond_amount,
        evidence_hash,
        evidence_history: if evidence_hash@ == zero_hash() {
            Seq::empty()
        } else {
            seq![evidence_hash]
        },
        arbitrator_votes: Seq::empty(),
        votes_detail: Seq::empty(),
        designated_arbitrators: Seq::empty(),
        arbitration_window_deadline: (now + DEFAULT_ARBITRATION_WINDOW_SECS) as u64,
    }
}

/// Files a dispute against an outage with its bond and initial evidence
/// (the all-zero hash when there is none yet), opened at `now`, with an
/// arbitration window of fourteen days. Refused while
/// `MAX_ACTIVE_DISPUTES` disputes are active. A dispute already stored
/// under the same id is replaced.
pub fn open_dispute(
    store: &mut DisputeStore,
    caller: &Account,
    dispute_id: Symbol,
    outage_id: Symbol,
    reason: String,
    bond_amount: i128,
    evidence_hash: [u8; 32],
    now: u64,
) -> (r: Result<(), DisputeError>)
    requires
        old(store).wf(),
        now + DEFAULT_ARBITRATION_WINDOW_SECS <= u64::MAX,
    ensures
        final(store).wf(),
        old(store).active_disputes() >= MAX_ACTIVE_DISPUTES ==> r == Err::<(), DisputeError>(
            DisputeError::MaxActiveDisputesReached,
        ) && *final(store) == *old(store),
        old(store).active_disputes() < MAX_ACTIVE_DISPUTES ==> {
            &&& r is Ok
            &&& final(store).disputes() == old(store).disputes().insert(
                dispute_id@,
                opened_view(*caller, dispute_id, outage_id, reason, bond_amount, evidence_hash, now),
            )
            &&& final(store).unchanged_except_disputes_and_events(old(store))
            &&& final(store).event_log() == old(store).event_log().push(
                DisputeEvent::Opened { caller: *caller, dispute_id },
            )
        },
{
    let active_now = count_active_disputes(&store.disputes);
    if active_now >= MAX_ACTIVE_DISPUTES {
        return Err(DisputeError::MaxActiveDisputesReached);
    }
    let mut evidence_history: Vec<[u8; 32]> = Vec::new();
    if !is_no_evidence(&evidence_hash) {
        evidence_history.push(evidence_hash);
    }
    let ghost spec_id = dispute_id;
    let ghost expected = opened_view(
        *caller,
        dispute_id,
        outage_id,
        reason,
        bond_amount,
        evidence_hash,
        now,
    );
    let dispute = Dispute {
        dispute_id: dispute_id.clone(),
        outage_id,
        opened_by: caller.clone(),
        opened_at: now,
        status: DisputeStatus::Open,
        escalation_level: EscalationLevel::L1Support,
        reason,
        resolution: None,
        resolved_by: None,
        resolved_at: None,
        bond_amount,
        evidence_hash,
        evidence_history,
        arbitrator_votes: Vec::new(),
        votes_detail: Vec::new(),
        designated_arbitrators: Vec::new(),
        arbitration_window_deadline: now + DEFAULT_ARBITRATION_WINDOW_SECS,
    };
    assert(dispute@ =~= expected);
    proof {
        old(store).lemma_views();
        let m = old(store).disputes();
        let ks = old(store).dispute_ids();
        if ks.contains(dispute_id@) {
            lemma_active_count_update(m, ks, dispute_id@, expected);
        } else {
            lemma_active_count_push(m, ks, dispute_id@, expected);
        }
    }
    store.put_dispute(&dispute_id, dispute);
    store.events.push(DisputeEvent::Opened { caller: caller.clone(), dispute_id });
    Ok(())
}

/// The next escalation level, if there is one.
pub open spec fn next_level(level: EscalationLevel) -> Option<EscalationLevel> {
    match level {
        EscalationLevel::L1Support => Some(EscalationLevel::L2Engineering),
        EscalationLevel::L2Engineering => Some(EscalationLevel::L3Management),
        EscalationLevel::L3Management => None,
    }
}

/// Replacing a stored dispute by one with the same votes and no more
/// activity keeps the store well formed.
proof fn lemma_replace_keeps_wf(store: &DisputeStore, key: Seq<char>, d: DisputeView)
    requires
        store.wf(),
        store.disputes().contains_key(key),
        votes_consistent(d),
        active(d.status) ==> active(store.disputes()[key].status),
    ensures
        active_count(store.disputes().insert(key, d), store.dispute_ids())
            <= MAX_ACTIVE_DISPUTES,
{
    store.lemma_views();
    lemma_active_count_update(store.disputes(), store.dispute_ids(), key, d);
}

/// The admin escalates an open or under-review dispute one level, which
/// marks it escalated. A dispute in any other status cannot be escalated
/// (`InvalidTransition`); one already at the top level is refused as
/// `Unauthorized`.
pub fn escalate_dispute(store: &mut DisputeStore, caller: &Account, dispute_id: Symbol) -> (r:
    Result<(), DisputeError>)
    requires
        old(store).wf(),
    ensures
        final(store).wf(),
        r is Err ==> *final(store) == *old(store),
        admin_check(old(store).admin_of(), caller@) is Err ==> r == admin_check(
            old(store).admin_of(),
            caller@,
        ),
        admin_check(old(store).admin_of(), caller@) is Ok ==> {
            let id = dispute_id@;
            if !old(store).disputes().contains_key(id) {
                r == Err::<(), DisputeError>(DisputeError::ConfigNotFound)
            } else {
                let d = old(store).disputes()[id];
                if !(d.status == DisputeStatus::Open || d.status == DisputeStatus::UnderReview) {
                    r == Err::<(), DisputeError>(DisputeError::InvalidTransition)
                } else if next_level(d.escalation_level) is None {
                    r == Err::<(), DisputeError>(DisputeError::Unauthorized)
                } else {
                    &&& r is Ok
                    &&& final(store).disputes() == old(store).disputes().insert(
                        id,
                        DisputeView {
                            escalation_level: next_level(d.escalation_level)->0,
                            status: DisputeStatus::Escalated,
                            ..d
                        },
                    )
                    &&& final(store).unchanged_except_disputes_and_events(old(store))
                    &&& final(store).event_log() == old(store).event_log().push(
                        DisputeEvent::Escalated { caller: *caller, dispute_id },
                    )
                }
            }
        },
{
    match require_admin(store, caller) {
        Err(e) => return Err(e),
        Ok(()) => {},
    }
    let current = match store.disputes.get(&dispute_id.text) {
        Some(d) => d,
        None => return Err(DisputeError::ConfigNotFound),
    };
    match current.status {
        DisputeStatus::Open | DisputeStatus::UnderReview => {},
        _ => return Err(DisputeError::InvalidTransition),
    }
    let next = match current.escalation_level {
        EscalationLevel::L1Support => EscalationLevel::L2Engineering,
        EscalationLevel::L2Engineering => EscalationLevel::L3Management,
        EscalationLevel::L3Management => return Err(DisputeError::Unauthorized),
    };
    let mut updated = current.duplicate();
    updated.escalation_level = next;
    updated.status = DisputeStatus::Escalated;
    proof {
        lemma_replace_keeps_wf(&*store, dispute_id@, updated@);
    }
    store.put_dispute(&dispute_id, updated);
    store.events.push(DisputeEvent::Escalated { caller: caller.clone(), dispute_id });
    Ok(())
}

/// The dispute's filer appends a new evidence hash to an active dispute;
/// it becomes the current evidence hash.
pub fn add_dispute_evidence(
    store: &mut DisputeStore,
    caller: &Account,
    dispute_id: Symbol,
    new_evidence_hash: [u8; 32],
) -> (r: Result<(), DisputeError>)
    requires
        old(store).wf(),
        old(store).disputes().contains_key(dispute_id@) ==> old(store).disputes()[dispute_id@].evidence_history.len()
            < u32::MAX,
    ensures
        final(store).wf(),
        r is Err ==> *final(store) == *old(store),
        ({
            let id = dispute_id@;
            if !old(store).disputes().contains_key(id) {
                r == Err::<(), DisputeError>(DisputeError::ConfigNotFound)
            } else {
                let d = old(store).disputes()[id];
                if d.opened_by@ != caller@ {
                    r == Err::<(), DisputeError>(DisputeError::NotDisputeFiler)
                } else if !active(d.status) {
                    r == Err::<(), DisputeError>(DisputeError::DisputeNotActive)
                } else {
                    &&& r is Ok
                    &&& final(store).disputes() == old(store).disputes().insert(
                        id,
                        DisputeView {
                            evidence_history: d.evidence_history.push(new_evidence_hash),
                            evidence_hash: new_evidence_hash,
                            ..d
                        },
                    )
                    &&& final(store).unchanged_except_disputes_and_events(old(store))
                    &&& final(store).event_log() == old(store).event_log().push(
                        DisputeEvent::EvidenceAdded {
                            caller: *caller,
                            dispute_id,
                            evidence_count: (d.evidence_history.len() + 1) as u32,
                        },
                    )
                }
            }
        }),
{
    let current = match store.disputes.get(&dispute_id.text) {
        Some(d) => d,
        None => return Err(DisputeError::ConfigNotFound),
    };
    if current.opened_by != *caller {
        return Err(DisputeError::NotDisputeFiler);
    }
    if !current.status.is_active() {
        return Err(DisputeError::DisputeNotActive);
    }
    let mut updated = current.duplicate();
    updated.evidence_history.push(new_evidence_hash);
    updated.evidence_hash = new_evidence_hash;
    let history_len = updated.evidence_history.len() as u32;
    proof {
        lemma_replace_keeps_wf(&*store, dispute_id@, updated@);
    }
    store.put_dispute(&dispute_id, updated);
    store.events.push(
        DisputeEvent::EvidenceAdded { caller: caller.clone(), dispute_id, evidence_count: history_len },
    );
    Ok(())
}

/// The admin designates the panel of exactly three arbitrators for an
/// active dispute; only they may vote on it from then on.
pub fn assign_arbitrator_panel(
    store: &mut DisputeStore,
    caller: &Account,
    dispute_id: Symbol,
    panel: Vec<Account>,
) -> (r: Result<(), DisputeError>)
    requires
        old(store).wf(),
    ensures
        final(store).wf(),
        r is Err ==> *final(store) == *old(store),
        admin_check(old(store).admin_of(), caller@) is Err ==> r == admin_check(
            old(store).admin_of(),
            caller@,
        ),
        admin_check(old(store).admin_of(), caller@) is Ok ==> {
            let id = dispute_id@;
            if panel@.len() != ARBITRATOR_PANEL_SIZE {
                r == Err::<(), DisputeError>(DisputeError::InvalidArbitratorPanel)
            } else if !old(store).disputes().contains_key(id) {
                r == Err::<(), DisputeError>(DisputeError::ConfigNotFound)
            } else if !active(old(store).disputes()[id].status) {
                r == Err::<(), DisputeError>(DisputeError::DisputeNotActive)
            } else {
                &&& r is Ok
                &&& final(store).disputes() == old(store).disputes().insert(
                    id,
                    DisputeView { designated_arbitrators: panel@, ..old(store).disputes()[id] },
                )
                &&& final(store).unchanged_except_disputes_and_events(old(store))
                &&& final(store).event_log() == old(store).event_log()
            }
        },
{
    match require_admin(store, caller) {
        Err(e) => return Err(e),
        Ok(()) => {},
    }
    if panel.len() != ARBITRATOR_PANEL_SIZE {
        return Err(DisputeError::InvalidArbitratorPanel);
    }
    let current = match store.disputes.get(&dispute_id.text) {
        Some(d) => d,
        None => return Err(DisputeError::ConfigNotFound),
    };
    if !current.status.is_active() {
        return Err(DisputeError::DisputeNotActive);
    }
    let mut updated = current.duplicate();
    updated.designated_arbitrators = panel;
    proof {
        lemma_replace_keeps_wf(&*store, dispute_id@, updated@);
    }
    store.put_dispute(&dispute_id, updated);
    Ok(())
}

/// The admin dismisses a dispute, whatever its status, recording who did
/// so and when.
pub fn dismiss_dispute(store: &mut DisputeStore, caller: &Account, dispute_id: Symbol, now: u64) -> (r:
    Result<(), DisputeError>)
    requires
        old(store).wf(),
    ensures
        final(store).wf(),
        r is Err ==> *final(store) == *old(store),
        admin_check(old(store).admin_of(), caller@) is Err ==> r == admin_check(
            old(store).admin_of(),
            caller@,
        ),
        admin_check(old(store).admin_of(), caller@) is Ok ==> {
            let id = dispute_id@;
            if !old(store).disputes().contains_key(id) {
                r == Err::<(), DisputeError>(DisputeError::ConfigNotFound)
            } else {
                &&& r is Ok
                &&& final(store).disputes() == old(store).disputes().insert(
                    id,
                    DisputeView {
                        status: DisputeStatus::Dismissed,
                        resolved_by: Some(*caller),
                        resolved_at: Some(now),
                        ..old(store).disputes()[id]
                    },
                )
                &&& final(store).unchanged_except_disputes_and_events(old(store))
                &&& final(store).event_log() == old(store).event_log()
            }
        },
{
    match require_admin(store, caller) {
        Err(e) => return Err(e),
        Ok(()) => {},
    }
    let current = match store.disputes.get(&dispute_id.text) {
        Some(d) => d,
        None => return Err(DisputeError::ConfigNotFound),
    };
    let mut updated = current.duplicate();
    updated.status = DisputeStatus::Dismissed;
    updated.resolved_by = Some(caller.clone());
    updated.resolved_at = Some(now);
    proof {
        lemma_replace_keeps_wf(&*store, dispute_id@, updated@);
    }
    store.put_dispute(&dispute_id, updated);
    Ok(())
}

/// Votes to uphold among `votes`.
pub open spec fn uphold_votes(votes: Seq<ArbitratorVote>) -> nat
    decreases votes.len(),
{
    if votes.len() == 0 {
        0
    } else {
        uphold_votes(votes.drop_last()) + if votes.last().decision == VoteDecision::UpholdOutage {
            1nat
        } else {
            0nat
        }
    }
}

/// Votes to dismiss among `votes`.
pub open spec fn dismiss_votes(votes: Seq<ArbitratorVote>) -> nat
    decreases votes.len(),
{
    if votes.len() == 0 {
        0
    } else {
        dismiss_votes(votes.drop_last()) + if votes.last().decision
            == VoteDecision::DismissOutage {
            1nat
        } else {
            0nat
        }
    }
}

/// Every vote dismisses the dispute as frivolous.
pub open spec fn all_frivolous_dismissals(votes: Seq<ArbitratorVote>) -> bool {
    forall|i: int|
        0 <= i < votes.len() ==> #[trigger] votes[i].decision == VoteDecision::DismissOutage
            && votes[i].frivolous
}

/// The verdict the votes reach, as (upheld, bond slashed): two votes to
/// uphold uphold the dispute. Otherwise two votes to dismiss dismiss it,
/// except that while every vote so far is a frivolous dismissal and the
/// panel of three has not all voted, the last seat is awaited: a full
/// panel of frivolous dismissals also slashes the bond. Otherwise there is
/// no verdict yet.
pub open spec fn quorum(votes: Seq<ArbitratorVote>) -> Option<(bool, bool)> {
    if uphold_votes(votes) >= ARBITRATOR_QUORUM {
        Some((true, false))
    } else if dismiss_votes(votes) >= ARBITRATOR_QUORUM {
        let unanimous_so_far = all_frivolous_dismissals(votes);
        if unanimous_so_far && votes.len() < ARBITRATOR_PANEL_SIZE {
            None
        } else {
            Some((false, votes.len() == ARBITRATOR_PANEL_SIZE && unanimous_so_far))
        }
    } else {
        None
    }
}

/// The resolution note recorded for a verdict reached by the votes.
pub open spec fn quorum_note(upheld: bool, slash: bool) -> Seq<char> {
    if upheld {
        "Auto-resolved: arbitrator quorum upheld the outage breach"@
    } else if slash {
        "Auto-resolved: unanimous frivolous dismissal, bond slashed to arbitration pool"@
    } else {
        "Auto-resolved: arbitrator quorum dismissed the outage breach"@
    }
}

/// The resolution note recorded when the arbitration window lapses.
pub open spec fn expiry_note() -> Seq<char> {
    "Auto-resolved: arbitration window expired, defaulted in favor of filer"@
}

proof fn lemma_votes_split(votes: Seq<ArbitratorVote>)
    ensures
        uphold_votes(votes) + dismiss_votes(votes) == votes.len(),
    decreases votes.len(),
{
    if votes.len() > 0 {
        lemma_votes_split(votes.drop_last());
    }
}

/// Tallies the votes and, when they reach a verdict, returns it with its
/// resolution note.
fn try_tally_quorum(dispute: &Dispute) -> (r: Option<(bool, bool, String)>)
    requires
        dispute.votes_detail@.len() <= u32::MAX,
    ensures
        match quorum(dispute.votes_detail@) {
            None => r is None,
            Some(verdict) => r matches Some(found) && found.0 == verdict.0 && found.1 == verdict.1
                && found.2@ == quorum_note(verdict.0, verdict.1),
        },
{
    let votes = &dispute.votes_detail;
    let mut uphold_count: u32 = 0;
    let mut dismiss_count: u32 = 0;
    let mut all_frivolous_dismiss = true;
    let mut i: usize = 0;
    while i < votes.len()
        invariant
            i <= votes.len(),
            votes.len() <= u32::MAX,
            uphold_count == uphold_votes(votes@.subrange(0, i as int)),
            dismiss_count == dismiss_votes(votes@.subrange(0, i as int)),
            uphold_count + dismiss_count == i,
            all_frivolous_dismiss == all_frivolous_dismissals(votes@.subrange(0, i as int)),
        decreases votes.len() - i,
    {
        let vote = &votes[i];
        proof {
            assert(votes@.subrange(0, i + 1).drop_last() =~= votes@.subrange(0, i as int));
        }
        match vote.decision {
            VoteDecision::UpholdOutage => {
                uphold_count = uphold_count + 1;
                all_frivolous_dismiss = false;
            },
            VoteDecision::DismissOutage => {
                dismiss_count = dismiss_count + 1;
                if !vote.frivolous {
                    all_frivolous_dismiss = false;
                }
            },
        }
        proof {
            let next = votes@.subrange(0, i + 1);
            if all_frivolous_dismiss {
                assert forall|j: int| 0 <= j < next.len() implies #[trigger] next[j].decision
                    == VoteDecision::DismissOutage && next[j].frivolous by {
                    if j < i {
                        assert(votes@.subrange(0, i as int)[j] == next[j]);
                    }
                }
            } else {
                if all_frivolous_dismissals(next) {
                    assert(next[i as int] == votes@[i as int]);
                    assert forall|j: int| 0 <= j < i implies #[trigger] votes@.subrange(
                        0,
                        i as int,
                    )[j].decision == VoteDecision::DismissOutage && votes@.subrange(
                        0,
                        i as int,
                    )[j].frivolous by {
                        assert(next[j] == votes@.subrange(0, i as int)[j]);
                    }
                }
            }
        }
        i = i + 1;
    }
    assert(votes@.subrange(0, votes.len() as int) =~= votes@);
    if uphold_count >= ARBITRATOR_QUORUM {
        return Some((true, false, "Auto-resolved: arbitrator quorum upheld the outage breach".to_owned()));
    }
    if dismiss_count >= ARBITRATOR_QUORUM {
        let total_votes = uphold_count + dismiss_count;
        if all_frivolous_dismiss && (total_votes as usize) < ARBITRATOR_PANEL_SIZE {
            return None;
        }
        let slash = total_votes as usize == ARBITRATOR_PANEL_SIZE && all_frivolous_dismiss;
        let resolution = if slash {
            "Auto-resolved: unanimous frivolous dismissal, bond slashed to arbitration pool".to_owned()
        } else {
            "Auto-resolved: arbitrator quorum dismissed the outage breach".to_owned()
        };
        return Some((false, slash, resolution));
    }
    None
}

/// The store after a settlement: the dispute resolved, the payout
/// recorded, fees credited and the pool topped up as the terms say, with
/// `prefix` published before the resolution and the payout.
pub open spec fn settled_store(
    before: &DisputeStore,
    after: &DisputeStore,
    dispute_id: Symbol,
    d: DisputeView,
    resolved_by: Account,
    resolution: Seq<char>,
    upheld: bool,
    slash: bool,
    now: u64,
    prefix: Seq<DisputeEvent>,
) -> bool {
    let payout = payout_of(dispute_id, d, upheld, slash);
    &&& after.disputes() == before.disputes().insert(
        dispute_id@,
        settled_view(d, resolved_by, resolution, now),
    )
    &&& after.fees() == fees_after(before.fees(), d, upheld, slash)
    &&& after.payouts() == before.payouts().insert(dispute_id@, payout)
    &&& after.pool() == pool_after(before.pool(), d, upheld, slash)
    &&& after.admin_of() == before.admin_of()
    &&& after.dispute_ids() == if before.disputes().contains_key(dispute_id@) {
        before.dispute_ids()
    } else {
        before.dispute_ids().push(dispute_id@)
    }
    &&& after.event_log() == before.event_log() + prefix + seq![
        DisputeEvent::Resolved { resolved_by, dispute_id },
        DisputeEvent::Payout { payout },
    ]
}

/// Marks `dispute` resolved, splits its bond and records everything: the
/// payout, each voter's fee share, the slashed amount in the pool.
fn settle_dispute(
    store: &mut DisputeStore,
    dispute_id: Symbol,
    dispute: Dispute,
    resolved_by: Account,
    resolution: String,
    upheld: bool,
    slash_bond: bool,
    now: u64,
) -> (payout: SettlementPayout)
    requires
        old(store).wf(),
        votes_consistent(dispute@),
        settlement_fits(old(store).fees(), old(store).pool(), dispute@, upheld, slash_bond),
    ensures
        final(store).wf(),
        payout == payout_of(dispute_id, dispute@, upheld, slash_bond),
        settled_store(
            old(store),
            final(store),
            dispute_id,
            dispute@,
            resolved_by,
            resolution@,
            upheld,
            slash_bond,
            now,
            Seq::empty(),
        ),
{
    let ghost d = dispute@;
    let ghost terms = settlement_terms(d.bond_amount, upheld, slash_bond, d.arbitrator_votes.len());
    let voters = dispute.arbitrator_votes.len();
    let bond = dispute.bond_amount;
    let customer_payout: i128;
    let arbitrator_fee_total: i128;
    let per_arbitrator_share: i128;
    let pool_amount: i128;
    if slash_bond {
        customer_payout = 0;
        arbitrator_fee_total = 0;
        per_arbitrator_share = 0;
        pool_amount = bond;
    } else {
        let fee: i128 = if upheld && voters > 0 {
            bond * ARBITRATOR_FEE_BPS / BPS_DENOMINATOR
        } else {
            0
        };
        assert(bond >= 0 ==> 0 <= fee <= bond) by (nonlinear_arith)
            requires
                fee == 0 || fee == div_trunc(bond * 500, 10000),
        {
            if bond >= 0 {
                assert(bond * 500 >= 0);
                assert((bond * 500) / 10000 <= bond);
            }
        }
        assert(bond < 0 ==> bond <= fee <= 0) by (nonlinear_arith)
            requires
                fee == 0 || fee == div_trunc(bond * 500, 10000),
        {
            if bond < 0 {
                assert(-(bond * 500) > 0);
                assert((-(bond * 500)) / 10000 <= -bond);
            }
        }
        let per: i128 = if voters > 0 {
            fee / (voters as i128)
        } else {
            0
        };
        customer_payout = bond - fee;
        arbitrator_fee_total = fee;
        per_arbitrator_share = per;
        pool_amount = 0;
    }
    assert(customer_payout == terms.0 && arbitrator_fee_total == terms.1 && per_arbitrator_share
        == terms.2 && pool_amount == terms.3);
    let payout = SettlementPayout {
        dispute_id: dispute_id.clone(),
        upheld,
        customer_payout,
        arbitrator_fee_total,
        per_arbitrator_share,
    };
    if per_arbitrator_share > 0 {
        let ghost start = store.arbitrator_fees@;
        let votes = &dispute.arbitrator_votes;
        let mut i: usize = 0;
        while i < votes.len()
            invariant
                i <= votes.len(),
                votes@ == d.arbitrator_votes,
                votes_consistent(d),
                per_arbitrator_share > 0,
                store.arbitrator_fees.wf(),
                store.admin == old(store).admin,
                store.disputes == old(store).disputes,
                store.payouts == old(store).payouts,
                store.arbitration_pool == old(store).arbitration_pool,
                store.events == old(store).events,
                start == old(store).arbitrator_fees@,
                store.arbitrator_fees@ == credited(start, votes@.subrange(0, i as int), per_arbitrator_share),
                forall|j: int|
                    0 <= j < votes.len() ==> fee_balance(start, #[trigger] votes@[j]@)
                        + per_arbitrator_share <= i128::MAX,
            decreases votes.len() - i,
        {
            let who = &votes[i];
            let ghost before = store.arbitrator_fees@;
            let ghost done = votes@.subrange(0, i as int);
            proof {
                assert(!listed(done, who@)) by {
                    if listed(done, who@) {
                        let j = choose|j: int| 0 <= j < done.len() && #[trigger] done[j]@ == who@;
                        assert(votes@[j]@ == votes@[i as int]@);
                    }
                }
                assert(fee_balance(start, votes@[i as int]@) + per_arbitrator_share <= i128::MAX);
            }
            let owed: i128 = match store.arbitrator_fees.get(&who.text) {
                Some(v) => *v,
                None => 0,
            };
            assert(owed == fee_balance(start, who@));
            store.arbitrator_fees.set(who.text.clone(), owed + per_arbitrator_share);
            proof {
                let next = votes@.subrange(0, i + 1);
                assert forall|k: Seq<char>| listed(next, k) <==> (listed(done, k) || k == who@) by {
                    if listed(next, k) {
                        let j = choose|j: int| 0 <= j < next.len() && #[trigger] next[j]@ == k;
                        if j < i {
                            assert(done[j] == next[j]);
                        }
                    }
                    if listed(done, k) {
                        let j = choose|j: int| 0 <= j < done.len() && #[trigger] done[j]@ == k;
                        assert(next[j] == done[j]);
                    }
                    if k == who@ {
                        assert(next[i as int]@ == k);
                    }
                }
                assert(store.arbitrator_fees@ =~= credited(start, next, per_arbitrator_share));
            }
            i = i + 1;
        }
        assert(votes@.subrange(0, votes.len() as int) =~= votes@);
    }
    if pool_amount > 0 {
        let current: i128 = match store.arbitration_pool {
            Some(p) => p,
            None => 0,
        };
        store.arbitration_pool = Some(current + pool_amount);
    }
    store.payouts.set(dispute_id.text.clone(), payout.clone());
    let mut settled = dispute;
    settled.status = DisputeStatus::Resolved;
    let ghost note = resolution@;
    settled.resolution = Some(resolution);
    settled.resolved_by = Some(resolved_by.clone());
    settled.resolved_at = Some(now);
    assert(settled@ =~= settled_view(d, resolved_by, note, now));
    proof {
        old(store).lemma_views();
        if old(store).disputes().contains_key(dispute_id@) {
            lemma_active_count_update(
                old(store).disputes(),
                old(store).dispute_ids(),
                dispute_id@,
                settled@,
            );
        } else {
            lemma_active_count_push(
                old(store).disputes(),
                old(store).dispute_ids(),
                dispute_id@,
                settled@,
            );
        }
    }
    store.put_dispute(&dispute_id, settled);
    store.events.push(DisputeEvent::Resolved { resolved_by, dispute_id });
    store.events.push(DisputeEvent::Payout { payout: payout.clone() });
    assert(store.event_log() =~= old(store).event_log() + Seq::<DisputeEvent>::empty() + seq![
        DisputeEvent::Resolved { resolved_by, dispute_id },
        DisputeEvent::Payout { payout },
    ]);
    payout
}

/// The dispute once `arbitrator` has cast a vote: recorded at the end of
/// the voters and of the detailed votes, unless the arbitrator already
/// voted, in which case the first vote stands.
pub open spec fn after_vote(
    d: DisputeView,
    arbitrator: Account,
    decision: VoteDecision,
    frivolous: bool,
) -> DisputeView {
    if listed(d.arbitrator_votes, arbitrator@) {
        d
    } else {
        DisputeView {
            arbitrator_votes: d.arbitrator_votes.push(arbitrator),
            votes_detail: d.votes_detail.push(ArbitratorVote { arbitrator, decision, frivolous }),
            ..d
        }
    }
}

/// `arbitrator` may vote on `d`: any arbitrator while no panel is
/// designated, otherwise only a panel member.
pub open spec fn may_vote(d: DisputeView, arbitrator: Seq<char>) -> bool {
    d.designated_arbitrators.len() == 0 || listed(d.designated_arbitrators, arbitrator)
}

/// The amounts a vote on `dispute_id` handles fit their integer types: the
/// votes can be counted in a `u32`, and the settlement the vote may
/// trigger fits too.
pub open spec fn vote_fits(
    store: &DisputeStore,
    arbitrator: Account,
    dispute_id: Symbol,
    decision: VoteDecision,
    frivolous: bool,
) -> bool {
    store.disputes().contains_key(dispute_id@) ==> {
        let v = after_vote(store.disputes()[dispute_id@], arbitrator, decision, frivolous);
        &&& v.votes_detail.len() <= u32::MAX
        &&& match quorum(v.votes_detail) {
            Some(verdict) => settlement_fits(store.fees(), store.pool(), v, verdict.0, verdict.1),
            None => true,
        }
    }
}

proof fn lemma_after_vote_consistent(
    d: DisputeView,
    arbitrator: Account,
    decision: VoteDecision,
    frivolous: bool,
)
    requires
        votes_consistent(d),
    ensures
        votes_consistent(after_vote(d, arbitrator, decision, frivolous)),
{
    if !listed(d.arbitrator_votes, arbitrator@) {
        let v = after_vote(d, arbitrator, decision, frivolous);
        let n = d.arbitrator_votes.len() as int;
        assert forall|i: int, j: int|
            0 <= i < j < v.arbitrator_votes.len() implies #[trigger] v.arbitrator_votes[i]@
            != #[trigger] v.arbitrator_votes[j]@ by {
            if j == n {
                assert(v.arbitrator_votes[i] == d.arbitrator_votes[i]);
            } else {
                assert(v.arbitrator_votes[i] == d.arbitrator_votes[i]);
                assert(v.arbitrator_votes[j] == d.arbitrator_votes[j]);
            }
        }
        assert forall|i: int| 0 <= i < v.votes_detail.len() implies #[trigger] v.votes_detail[i].arbitrator
            == v.arbitrator_votes[i] by {
            if i < n {
                assert(v.votes_detail[i] == d.votes_detail[i]);
                assert(v.arbitrator_votes[i] == d.arbitrator_votes[i]);
            }
        }
    }
}

/// An arbitrator votes on an active dispute (once: a second vote by the
/// same arbitrator is ignored). When the votes then reach a verdict the
/// dispute settles at once, resolved by this arbitrator with the verdict's
/// note, and the payout is returned.
pub fn cast_arbitrator_vote(
    store: &mut DisputeStore,
    arbitrator: &Account,
    dispute_id: Symbol,
    decision: VoteDecision,
    frivolous: bool,
    now: u64,
) -> (r: Result<Option<SettlementPayout>, DisputeError>)
    requires
        old(store).wf(),
        vote_fits(old(store), *arbitrator, dispute_id, decision, frivolous),
    ensures
        final(store).wf(),
        r is Err ==> *final(store) == *old(store),
        ({
            let id = dispute_id@;
            if !old(store).disputes().contains_key(id) {
                r == Err::<Option<SettlementPayout>, DisputeError>(DisputeError::ConfigNotFound)
            } else {
                let d = old(store).disputes()[id];
                let v = after_vote(d, *arbitrator, decision, frivolous);
                let voted = DisputeEvent::Voted { arbitrator: *arbitrator, dispute_id };
                if !active(d.status) {
                    r == Err::<Option<SettlementPayout>, DisputeError>(
                        DisputeError::DisputeNotActive,
                    )
                } else if !may_vote(d, arbitrator@) {
                    r == Err::<Option<SettlementPayout>, DisputeError>(
                        DisputeError::InvalidArbitratorPanel,
                    )
                } else {
                    match quorum(v.votes_detail) {
                        None => {
                            &&& r == Ok::<Option<SettlementPayout>, DisputeError>(None)
                            &&& final(store).disputes() == old(store).disputes().insert(id, v)
                            &&& final(store).unchanged_except_disputes_and_events(old(store))
                            &&& final(store).event_log() == old(store).event_log().push(voted)
                        },
                        Some(verdict) => {
                            &&& r == Ok::<Option<SettlementPayout>, DisputeError>(
                                Some(payout_of(dispute_id, v, verdict.0, verdict.1)),
                            )
                            &&& settled_store(
                                old(store),
                                final(store),
                                dispute_id,
                                v,
                                *arbitrator,
                                quorum_note(verdict.0, verdict.1),
                                verdict.0,
                                verdict.1,
                                now,
                                seq![voted, DisputeEvent::QuorumReached { dispute_id }],
                            )
                        },
                    }
                }
            }
        }),
{
    let current = match store.disputes.get(&dispute_id.text) {
        Some(d) => d,
        None => return Err(DisputeError::ConfigNotFound),
    };
    if !current.status.is_active() {
        return Err(DisputeError::DisputeNotActive);
    }
    if current.designated_arbitrators.len() != 0 && !contains_address(
        &current.designated_arbitrators,
        arbitrator,
    ) {
        return Err(DisputeError::InvalidArbitratorPanel);
    }
    let ghost d = current@;
    let mut dispute = current.duplicate();
    if !contains_address(&dispute.arbitrator_votes, arbitrator) {
        dispute.arbitrator_votes.push(arbitrator.clone());
        dispute.votes_detail.push(
            ArbitratorVote { arbitrator: arbitrator.clone(), decision, frivolous },
        );
    }
    let ghost v = dispute@;
    assert(v =~= after_vote(d, *arbitrator, decision, frivolous));
    proof {
        lemma_after_vote_consistent(d, *arbitrator, decision, frivolous);
    }
    let ghost before = *store;
    store.events.push(
        DisputeEvent::Voted { arbitrator: arbitrator.clone(), dispute_id: dispute_id.clone() },
    );
    match try_tally_quorum(&dispute) {
        Some((upheld, slash_bond, resolution)) => {
            store.events.push(DisputeEvent::QuorumReached { dispute_id: dispute_id.clone() });
            let ghost mid = *store;
            let payout = settle_dispute(
                store,
                dispute_id,
                dispute,
                arbitrator.clone(),
                resolution,
                upheld,
                slash_bond,
                now,
            );
            let ghost prefix = seq![
                DisputeEvent::Voted { arbitrator: *arbitrator, dispute_id },
                DisputeEvent::QuorumReached { dispute_id },
            ];
            assert(mid.event_log() =~= before.event_log() + prefix);
            assert(store.event_log() =~= before.event_log() + prefix + seq![
                DisputeEvent::Resolved { resolved_by: *arbitrator, dispute_id },
                DisputeEvent::Payout { payout },
            ]);
            Ok(Some(payout))
        },
        None => {
            proof {
                lemma_replace_keeps_wf(&*store, dispute_id@, v);
            }
            store.put_dispute(&dispute_id, dispute);
            Ok(None)
        },
    }
}

/// The admin settles an active dispute with a resolution note, upheld in
/// the filer's favour or not; the bond is split as `settlement_terms` says
/// (never slashed) and the payout returned.
pub fn resolve_dispute(
    store: &mut DisputeStore,
    caller: &Account,
    dispute_id: Symbol,
    resolution: String,
    upheld: bool,
    now: u64,
) -> (r: Result<SettlementPayout, DisputeError>)
    requires
        old(store).wf(),
        old(store).disputes().contains_key(dispute_id@) ==> settlement_fits(
            old(store).fees(),
            old(store).pool(),
            old(store).disputes()[dispute_id@],
            upheld,
            false,
        ),
    ensures
        final(store).wf(),
        r is Err ==> *final(store) == *old(store),
        admin_check(old(store).admin_of(), caller@) is Err ==> r == Err::<
            SettlementPayout,
            DisputeError,
        >(admin_check(old(store).admin_of(), caller@)->Err_0),
        admin_check(old(store).admin_of(), caller@) is Ok ==> {
            let id = dispute_id@;
            if !old(store).disputes().contains_key(id) {
                r == Err::<SettlementPayout, DisputeError>(DisputeError::ConfigNotFound)
            } else {
                let d = old(store).disputes()[id];
                if !active(d.status) {
                    r == Err::<SettlementPayout, DisputeError>(DisputeError::InvalidTransition)
                } else {
                    &&& r == Ok::<SettlementPayout, DisputeError>(
                        payout_of(dispute_id, d, upheld, false),
                    )
                    &&& settled_store(
                        old(store),
                        final(store),
                        dispute_id,
                        d,
                        *caller,
                        resolution@,
                        upheld,
                        false,
                        now,
                        Seq::empty(),
                    )
                }
            }
        },
{
    match require_admin(store, caller) {
        Err(e) => return Err(e),
        Ok(()) => {},
    }
    let current = match store.disputes.get(&dispute_id.text) {
        Some(d) => d,
        None => return Err(DisputeError::ConfigNotFound),
    };
    if !current.status.is_active() {
        return Err(DisputeError::InvalidTransition);
    }
    let dispute = current.duplicate();
    let payout = settle_dispute(
        store,
        dispute_id,
        dispute,
        caller.clone(),
        resolution,
        upheld,
        false,
        now,
    );
    Ok(payout)
}

/// Anyone may settle an active dispute whose arbitration window closed
/// before `now`: it is upheld in the filer's favour, resolved in the
/// filer's name with the expiry note.
pub fn auto_resolve_expired_dispute(store: &mut DisputeStore, dispute_id: Symbol, now: u64) -> (r:
    Result<SettlementPayout, DisputeError>)
    requires
        old(store).wf(),
        old(store).disputes().contains_key(dispute_id@) ==> settlement_fits(
            old(store).fees(),
            old(store).pool(),
            old(store).disputes()[dispute_id@],
            true,
            false,
        ),
    ensures
        final(store).wf(),
        r is Err ==> *final(store) == *old(store),
        ({
            let id = dispute_id@;
            if !old(store).disputes().contains_key(id) {
                r == Err::<SettlementPayout, DisputeError>(DisputeError::ConfigNotFound)
            } else {
                let d = old(store).disputes()[id];
                if !active(d.status) {
                    r == Err::<SettlementPayout, DisputeError>(DisputeError::DisputeNotActive)
                } else if now <= d.arbitration_window_deadline {
                    r == Err::<SettlementPayout, DisputeError>(
                        DisputeError::ArbitrationWindowNotExpired,
                    )
                } else {
                    &&& r == Ok::<SettlementPayout, DisputeError>(
                        payout_of(dispute_id, d, true, false),
                    )
                    &&& settled_store(
                        old(store),
                        final(store),
                        dispute_id,
                        d,
                        d.opened_by,
                        expiry_note(),
                        true,
                        false,
                        now,
                        seq![DisputeEvent::AutoResolved { dispute_id }],
                    )
                }
            }
        }),
{
    let current = match store.disputes.get(&dispute_id.text) {
        Some(d) => d,
        None => return Err(DisputeError::ConfigNotFound),
    };
    if !current.status.is_active() {
        return Err(DisputeError::DisputeNotActive);
    }
    if now <= current.arbitration_window_deadline {
        return Err(DisputeError::ArbitrationWindowNotExpired);
    }
    let dispute = current.duplicate();
    let resolved_by = dispute.opened_by.clone();
    let resolution = "Auto-resolved: arbitration window expired, defaulted in favor of filer".to_owned();
    let ghost before = *store;
    store.events.push(DisputeEvent::AutoResolved { dispute_id: dispute_id.clone() });
    let ghost mid = *store;
    let payout = settle_dispute(
        store,
        dispute_id,
        dispute,
        resolved_by,
        resolution,
        true,
        false,
        now,
    );
    let ghost prefix = seq![DisputeEvent::AutoResolved { dispute_id }];
    assert(mid.event_log() =~= before.event_log() + prefix);
    assert(store.event_log() =~= before.event_log() + prefix + seq![
        DisputeEvent::Resolved { resolved_by: before.disputes()[dispute_id@].opened_by, dispute_id },
        DisputeEvent::Payout { payout },
    ]);
    Ok(payout)
}

/// The arbitration pool's balance: what slashed bonds added up to, zero
/// before any.
pub fn get_arbitration_pool_balance(store: &DisputeStore) -> (b: i128)
    ensures
        b == match store.pool() {
            Some(p) => p,
            None => 0,
        },
{
    match store.arbitration_pool {
        Some(p) => p,
        None => 0,
    }
}

/// The dispute stored under `dispute_id`, if any.
pub fn get_dispute(store: &DisputeStore, dispute_id: Symbol) -> (r: Result<
    Option<Dispute>,
    DisputeError,
>)
    requires
        store.wf(),
    ensures
        r is Ok,
        store.disputes().contains_key(dispute_id@) <==> r matches Ok(Some(_)),
        r matches Ok(Some(d)) ==> d@ == store.disputes()[dispute_id@],
{
    match store.disputes.get(&dispute_id.text) {
        Some(d) => Ok(Some(d.duplicate())),
        None => Ok(None),
    }
}

/// A dispute's dashboard summary; the time remaining counts from `now` and
/// stops at zero.
pub fn get_dispute_details(store: &DisputeStore, dispute_id: Symbol, now: u64) -> (r: Result<
    DisputeDetails,
    DisputeError,
>)
    requires
        store.wf(),
    ensures
        !store.disputes().contains_key(dispute_id@) ==> r == Err::<DisputeDetails, DisputeError>(
            DisputeError::ConfigNotFound,
        ),
        store.disputes().contains_key(dispute_id@) ==> (r matches Ok(details) && {
            let d = store.disputes()[dispute_id@];
            &&& details.dispute_id == dispute_id
            &&& details.status == d.status
            &&& details.escalation_level == d.escalation_level
            &&& details.evidence_hash == d.evidence_hash
            &&& details.arbitrator_votes@ == d.arbitrator_votes
            &&& details.bond_amount == d.bond_amount
            &&& details.time_remaining_secs == if d.arbitration_window_deadline > now {
                (d.arbitration_window_deadline - now) as u64
            } else {
                0u64
            }
        }),
{
    let d = match store.disputes.get(&dispute_id.text) {
        Some(d) => d,
        None => return Err(DisputeError::ConfigNotFound),
    };
    let time_remaining_secs = d.arbitration_window_deadline.saturating_sub(now);
    Ok(
        DisputeDetails {
            dispute_id,
            status: d.status,
            escalation_level: d.escalation_level,
            evidence_hash: d.evidence_hash,
            arbitrator_votes: copy_addresses(&d.arbitrator_votes),
            bond_amount: d.bond_amount,
            time_remaining_secs,
        },
    )
}

/// The payout recorded when `dispute_id` settled, if it has.
pub fn get_settlement_payout(store: &DisputeStore, dispute_id: Symbol) -> (r: Result<
    Option<SettlementPayout>,
    DisputeError,
>)
    requires
        store.wf(),
    ensures
        r is Ok,
        store.payouts().contains_key(dispute_id@) <==> r matches Ok(Some(_)),
        r matches Ok(Some(p)) ==> p == store.payouts()[dispute_id@],
{
    match store.payouts.get(&dispute_id.text) {
        Some(p) => Ok(Some(p.clone())),
        None => Ok(None),
    }
}

/// The fees `arbitrator` has been credited over all settlements.
pub fn get_arbitrator_fee_balance(store: &DisputeStore, arbitrator: Account) -> (b: i128)
    requires
        store.wf(),
    ensures
        b == fee_balance(store.fees(), arbitrator@),
{
    match store.arbitrator_fees.get(&arbitrator.text) {
        Some(v) => *v,
        None => 0,
    }
}

/// The stored disputes (those in status `keep`, when given) in the host's
/// order of their ids.
pub open spec fn listed_disputes(store: &DisputeStore, keep: Option<DisputeStatus>) -> Seq<
    DisputeView,
> {
    key_order(store.dispute_ids()).map_values(|k: Seq<char>| store.disputes()[k]).filter(
        |d: DisputeView| keep matches Some(s) ==> d.status == s,
    )
}

fn collect_disputes(store: &DisputeStore, keep: Option<DisputeStatus>) -> (out: Vec<Dispute>)
    requires
        store.wf(),
    ensures
        out@.map_values(|d: Dispute| d@) == listed_disputes(store, keep),
{
    let ids = store.disputes.keys();
    let ks = order_keys(&ids);
    let ghost ordered = key_order(store.dispute_ids());
    proof {
        assert(texts(ids@) == store.dispute_ids());
        lemma_key_order_members(store.dispute_ids());
        store.lemma_views();
    }
    let ghost all = ordered.map_values(|k: Seq<char>| store.disputes()[k]);
    let ghost pred = |d: DisputeView| keep matches Some(s) ==> d.status == s;
    let mut out: Vec<Dispute> = Vec::new();
    let n = ks.len();
    let mut i: usize = 0;
    while i < n
        invariant
            store.wf(),
            n == ks@.len(),
            texts(ks@) == ordered,
            ordered.len() == store.dispute_ids().len(),
            forall|j: int| 0 <= j < ordered.len() ==> store.dispute_ids().contains(
                #[trigger] ordered[j],
            ),
            forall|k: Seq<char>| #[trigger]
                store.disputes().contains_key(k) <==> store.dispute_ids().contains(k),
            i <= n,
            all == ordered.map_values(|k: Seq<char>| store.disputes()[k]),
            pred == (|d: DisputeView| keep matches Some(s) ==> d.status == s),
            out@.map_values(|d: Dispute| d@) == all.subrange(0, i as int).filter(pred),
        decreases n - i,
    {
        proof {
            assert(texts(ks@)[i as int] == ks@[i as int]@);
            assert(store.dispute_ids().contains(ordered[i as int]));
            assert(store.disputes().contains_key(ordered[i as int]));
            assert(store.disputes@.contains_key(ks@[i as int]@));
        }
        let d = match store.disputes.get(&ks[i]) {
            Some(d) => d,
            None => {
                proof {
                    assert(false);
                }
                return out;
            },
        };
        proof {
            assert(store.disputes()[ordered[i as int]] == d@);
            assert(all.subrange(0, i + 1).drop_last() =~= all.subrange(0, i as int));
            assert(all.subrange(0, i + 1).last() == d@);
        }
        let wanted = match keep {
            Some(s) => d.status == s,
            None => true,
        };
        let ghost prev = out@;
        if wanted {
            out.push(d.duplicate());
            assert(out@.map_values(|d: Dispute| d@) =~= prev.map_values(|d: Dispute| d@).push(d@));
        }
        proof {
            reveal(Seq::filter);
            assert(out@.map_values(|d: Dispute| d@) =~= all.subrange(0, i + 1).filter(pred));
        }
        i = i + 1;
    }
    assert(all.subrange(0, n as int) =~= all);
    out
}

/// The arbitration pool's balance: nothing until something was slashed.
pub open spec fn pool_balance(pool: Option<i128>) -> int {
    match pool {
        Some(p) => p as int,
        None => 0,
    }
}

/// What a settlement does with a non-negative bond `b`, as the functions
/// that settle (`resolve_dispute`, `cast_arbitrator_vote`,
/// `auto_resolve_expired_dispute`) leave the store: a slashed bond goes to
/// the pool whole and nobody is paid; otherwise an upheld dispute with
/// voters pays them 5% of the bond (rounded down) split evenly (rounded
/// down), each voter's fee balance grows by that share, the customer gets
/// the rest, and the pool is untouched. The dispute ends resolved.
pub proof fn lemma_settlement_outcome(
    before: &DisputeStore,
    after: &DisputeStore,
    dispute_id: Symbol,
    d: DisputeView,
    resolved_by: Account,
    resolution: Seq<char>,
    upheld: bool,
    slash: bool,
    now: u64,
    prefix: Seq<DisputeEvent>,
)
    requires
        d.bond_amount >= 0,
        settlement_fits(before.fees(), before.pool(), d, upheld, slash),
        settled_store(before, after, dispute_id, d, resolved_by, resolution, upheld, slash, now, prefix),
    ensures
        ({
            let b = d.bond_amount as int;
            let n = d.arbitrator_votes.len();
            let p = after.payouts()[dispute_id@];
            &&& p == payout_of(dispute_id, d, upheld, slash)
            &&& slash ==> p.customer_payout == 0 && p.arbitrator_fee_total == 0
                && p.per_arbitrator_share == 0 && pool_balance(after.pool()) == pool_balance(
                before.pool(),
            ) + b
            &&& !slash ==> {
                &&& p.arbitrator_fee_total == (if upheld && n > 0 {
                    b * 500 / 10_000
                } else {
                    0
                })
                &&& p.customer_payout == b - p.arbitrator_fee_total
                &&& p.per_arbitrator_share == (if n > 0 {
                    (p.arbitrator_fee_total as int) / (n as int)
                } else {
                    0
                })
                &&& pool_balance(after.pool()) == pool_balance(before.pool())
            }
            &&& forall|i: int|
                0 <= i < n ==> fee_balance(after.fees(), #[trigger] d.arbitrator_votes[i]@)
                    == fee_balance(before.fees(), d.arbitrator_votes[i]@) + p.per_arbitrator_share
            &&& after.disputes()[dispute_id@].status == DisputeStatus::Resolved
        }),
{
    let b = d.bond_amount as int;
    let n = d.arbitrator_votes.len();
    let t = settlement_terms(d.bond_amount, upheld, slash, n);
    if !slash && upheld && n > 0 {
        assert(b * 500 >= 0) by (nonlinear_arith)
            requires
                b >= 0,
        ;
        assert(b * 500 / 10_000 >= 0) by (nonlinear_arith)
            requires
                b * 500 >= 0,
        ;
        assert(t.1 / (n as int) >= 0) by (nonlinear_arith)
            requires
                t.1 >= 0,
                n > 0,
        ;
        assert(t.1 / (n as int) <= t.1) by (nonlinear_arith)
            requires
                t.1 >= 0,
                n > 0,
        ;
        assert(b * 500 / 10_000 <= b) by (nonlinear_arith)
            requires
                b >= 0,
        ;
    }
    assert forall|i: int| 0 <= i < n implies fee_balance(after.fees(), #[trigger] d.arbitrator_votes[i]@)
        == fee_balance(before.fees(), d.arbitrator_votes[i]@) + t.2 by {
        if t.2 > 0 {
            assert(listed(d.arbitrator_votes, d.arbitrator_votes[i]@));
        }
    }
}

/// Listings follow the host's order of dispute ids: they are drawn from
/// every stored id, once each, each before the next.
pub proof fn lemma_listing_in_key_order(store: &DisputeStore)
    requires
        store.wf(),
    ensures
        keys_ascending(key_order(store.dispute_ids())),
        key_order(store.dispute_ids()).len() == store.dispute_ids().len(),
        key_order(store.dispute_ids()).no_duplicates(),
        forall|j: int|
            0 <= j < key_order(store.dispute_ids()).len() ==> store.disputes().contains_key(
                #[trigger] key_order(store.dispute_ids())[j],
            ),
{
    store.lemma_views();
    lemma_key_order_ascending(store.dispute_ids());
    lemma_key_order_members(store.dispute_ids());
    lemma_key_order_distinct(store.dispute_ids());
}

/// Every stored dispute, in the host's order of their ids.
pub fn list_disputes(store: &DisputeStore) -> (r: Result<Vec<Dispute>, DisputeError>)
    requires
        store.wf(),
    ensures
        r matches Ok(v) && v@.map_values(|d: Dispute| d@) == listed_disputes(store, None),
{
    Ok(collect_disputes(store, None))
}

/// The stored disputes in status `status`, in the host's order of their
/// ids.
pub fn get_disputes_by_status(store: &DisputeStore, status: DisputeStatus) -> (r: Result<
    Vec<Dispute>,
    DisputeError,
>)
    requires
        store.wf(),
    ensures
        r matches Ok(v) && v@.map_values(|d: Dispute| d@) == listed_disputes(store, Some(status)),
{
    Ok(collect_disputes(store, Some(status)))
}

/// A settlement neither creates nor loses money: what the customer gets
/// back, the arbitrators' fee and what the pool receives add up to the
/// bond, and for a non-negative bond the shares paid out to the voters
/// never exceed the fee.
pub proof fn lemma_settlement_conserves_bond(bond: i128, upheld: bool, slash: bool, voters: nat)
    ensures
        ({
            let t = settlement_terms(bond, upheld, slash, voters);
            &&& t.0 + t.1 + t.3 == bond
            &&& bond >= 0 ==> 0 <= t.2 * voters <= t.1 <= bond
        }),
{
    let t = settlement_terms(bond, upheld, slash, voters);
    if slash || voters == 0 {
        assert(t.2 * voters == 0) by (nonlinear_arith)
            requires
                t.2 == 0 || voters == 0,
        ;
    }
    if !slash && bond >= 0 {
        let fee = t.1;
        if upheld && voters > 0 {
            assert(0 <= fee <= bond) by (nonlinear_arith)
                requires
                    fee == div_trunc(bond * 500, 10000),
                    bond >= 0,
            {
                assert(bond * 500 >= 0);
                assert((bond * 500) / 10000 <= bond);
            }
        }
        if voters > 0 {
            assert(0 <= t.2 * voters <= fee) by (nonlinear_arith)
                requires
                    t.2 == div_trunc(fee, voters as int),
                    fee >= 0,
                    voters > 0,
            {
                assert(fee / (voters as int) * voters <= fee);
            }
        }
    }
}

/// A well-formed store never holds more than `MAX_ACTIVE_DISPUTES` active
/// disputes, and every arbitrator appears at most once among a dispute's
/// votes, each matched by its detailed vote.
pub proof fn lemma_store_invariants(store: &DisputeStore, id: Seq<char>)
    requires
        store.wf(),
    ensures
        store.active_disputes() <= MAX_ACTIVE_DISPUTES,
        store.disputes().contains_key(id) ==> votes_consistent(store.disputes()[id]),
        store.disputes().contains_key(id) ==> awaiting_verdict(store.disputes()[id]),
{
}

/// A second vote by an arbitrator who already voted on an active dispute
/// changes nothing: the recorded votes stay as they were (the first vote
/// stands and nobody is counted twice) and they still reach no verdict, so
/// `cast_arbitrator_vote` answers `Ok(None)` and the dispute stays active.
pub proof fn lemma_repeat_vote_is_ignored(
    store: &DisputeStore,
    arbitrator: Account,
    id: Seq<char>,
    decision: VoteDecision,
    frivolous: bool,
)
    requires
        store.wf(),
        store.disputes().contains_key(id),
        active(store.disputes()[id].status),
        listed(store.disputes()[id].arbitrator_votes, arbitrator@),
    ensures
        after_vote(store.disputes()[id], arbitrator, decision, frivolous) == store.disputes()[id],
        quorum(store.disputes()[id].votes_detail) is None,
        store.disputes().insert(id, store.disputes()[id]) == store.disputes(),
{
    assert(store.disputes().insert(id, store.disputes()[id]) =~= store.disputes());
}

/// Settling an active dispute frees its slot: one fewer dispute is active
/// afterwards.
pub proof fn lemma_settlement_frees_slot(
    before: &DisputeStore,
    after: &DisputeStore,
    dispute_id: Symbol,
    d: DisputeView,
    resolved_by: Account,
    resolution: Seq<char>,
    upheld: bool,
    slash: bool,
    now: u64,
    prefix: Seq<DisputeEvent>,
)
    requires
        before.wf(),
        before.disputes().contains_key(dispute_id@),
        active(before.disputes()[dispute_id@].status),
        settled_store(before, after, dispute_id, d, resolved_by, resolution, upheld, slash, now, prefix),
    ensures
        after.active_disputes() + 1 == before.active_disputes(),
{
    before.lemma_views();
    lemma_active_count_update(
        before.disputes(),
        before.dispute_ids(),
        dispute_id@,
        settled_view(d, resolved_by, resolution, now),
    );
}

} // verus!
