use vstd::prelude::*;
use crate::arith::div_trunc;
use crate::ident::Symbol;
use crate::table::Table;

verus! {

pub const BPS_DENOMINATOR: i128 = 10_000;
/// Largest claim ratio, in basis points (200%).
pub const MAX_CLAIM_BPS: u32 = 20_000;
/// Longest claim window: thirty days.
pub const MAX_WINDOW_S: u64 = 2_592_000;

#[derive(Clone, Copy, Debug, PartialEq, Eq, Structural)]
pub enum ClaimState {
    Absent,
    Open,
    Claimed,
    Expired,
}

/// A window during which a claim may be made, up to `deadline` included,
/// for at most `max_claim_bps` of the gross amount.
#[derive(Debug)]
pub struct ClaimWindow {
    pub claim_id: Symbol,
    pub opened_at: u64,
    pub deadline: u64,
    pub max_claim_bps: u32,
    pub state: ClaimState,
}

impl Clone for ClaimWindow {
    fn clone(&self) -> (w: Self)
        ensures
            w == *self,
    {
        ClaimWindow {
            claim_id: self.claim_id.clone(),
            opened_at: self.opened_at,
            deadline: self.deadline,
            max_claim_bps: self.max_claim_bps,
            state: self.state,
        }
    }
}

/// What a claim pays out.
#[derive(Debug)]
pub struct Payout {
    pub claim_id: Symbol,
    pub gross: i128,
    pub amount: i128,
    pub claimed_at: u64,
}

#[derive(Clone, Copy, Debug, PartialEq, Eq, Structural)]
pub enum ClaimError {
    ZeroWindow,
    WindowTooLong,
    BpsOutOfRange,
    AlreadyOpen,
    NotOpen,
    AlreadyClaimed,
    AlreadyExpired,
    ZeroAmount,
    NegativeAmount,
}

/// What the claim functions publish.
pub enum ClaimEvent {
    Opened { claim_id: Symbol, deadline: u64 },
    Claimed { claim_id: Symbol, amount: i128 },
    Expired { claim_id: Symbol, overrun: u64 },
}

/// The claim windows by claim id, as kept in persistent storage, with the
/// events published.
pub struct ClaimBook {
    windows: Table<ClaimWindow>,
    events: Vec<ClaimEvent>,
}

impl ClaimBook {
    pub closed spec fn windows(&self) -> Map<Seq<char>, ClaimWindow> {
        self.windows@
    }

    pub closed spec fn event_log(&self) -> Seq<ClaimEvent> {
        self.events@
    }

    pub closed spec fn wf(&self) -> bool {
        self.windows.wf()
    }

    /// No windows, no events.
    pub fn new() -> (b: Self)
        ensures
            b.wf(),
            b.windows() == Map::<Seq<char>, ClaimWindow>::empty(),
            b.event_log() == Seq::<ClaimEvent>::empty(),
    {
        ClaimBook { windows: Table::new(), events: Vec::new() }
    }

    pub fn events(&self) -> (e: &Vec<ClaimEvent>)
        ensures
            e@ == self.event_log(),
    {
        &self.events
    }
}

/// The stored windows, by claim id.
pub fn window_map(book: &ClaimBook) -> (m: &Table<ClaimWindow>)
    requires
        book.wf(),
    ensures
        m.wf(),
        m@ == book.windows(),
{
    &book.windows
}

/// The window of `claim_id`, if any.
pub fn claim_window(book: &ClaimBook, claim_id: &Symbol) -> (w: Option<ClaimWindow>)
    requires
        book.wf(),
    ensures
        w is Some <==> book.windows().contains_key(claim_id@),
        w matches Some(x) ==> x == book.windows()[claim_id@],
{
    match book.windows.get(&claim_id.text) {
        Some(w) => Some(w.clone()),
        None => None,
    }
}

/// The state of a claim at `now`: absent without a window, expired once
/// an open window's deadline has passed, otherwise as stored.
pub open spec fn state_at(book: &ClaimBook, claim_id: Seq<char>, now: u64) -> ClaimState {
    if !book.windows().contains_key(claim_id) {
        ClaimState::Absent
    } else {
        let w = book.windows()[claim_id];
        if w.state == ClaimState::Open && now > w.deadline {
            ClaimState::Expired
        } else {
            w.state
        }
    }
}

pub fn claim_state(book: &ClaimBook, claim_id: &Symbol, now: u64) -> (s: ClaimState)
    requires
        book.wf(),
    ensures
        s == state_at(book, claim_id@, now),
{
    let window = match book.windows.get(&claim_id.text) {
        Some(value) => value,
        None => return ClaimState::Absent,
    };
    match window.state {
        ClaimState::Open => {
            if now > window.deadline {
                ClaimState::Expired
            } else {
                ClaimState::Open
            }
        },
        other => other,
    }
}

pub fn is_claimable(book: &ClaimBook, claim_id: &Symbol, now: u64) -> (b: bool)
    requires
        book.wf(),
    ensures
        b == (state_at(book, claim_id@, now) == ClaimState::Open),
{
    claim_state(book, claim_id, now) == ClaimState::Open
}

/// Seconds left until the deadline at `now`, capped at `u32::MAX`; zero
/// without a window or once the deadline is reached.
pub open spec fn remaining_at(book: &ClaimBook, claim_id: Seq<char>, now: u64) -> int {
    if !book.windows().contains_key(claim_id) || book.windows()[claim_id].deadline <= now {
        0
    } else {
        let r = book.windows()[claim_id].deadline - now;
        if r > u32::MAX {
            u32::MAX as int
        } else {
            r
        }
    }
}

pub fn seconds_remaining(book: &ClaimBook, claim_id: &Symbol, now: u64) -> (s: u32)
    requires
        book.wf(),
    ensures
        s == remaining_at(book, claim_id@, now),
{
    let window = match book.windows.get(&claim_id.text) {
        Some(value) => value,
        None => return 0,
    };
    if window.deadline <= now {
        return 0;
    }
    let remaining = window.deadline - now;
    if remaining > u32::MAX as u64 {
        u32::MAX
    } else {
        remaining as u32
    }
}

/// The amount a claim of `gross` may take at `now`, or why it may not:
/// the gross must be positive and the window open; the amount is the
/// window's ratio of the gross, rounded down, but at least one unit.
pub open spec fn claim_outcome(book: &ClaimBook, claim_id: Seq<char>, gross: i128, now: u64) -> Result<
    i128,
    ClaimError,
> {
    if gross < 0 {
        Err(ClaimError::NegativeAmount)
    } else if gross == 0 {
        Err(ClaimError::ZeroAmount)
    } else {
        match state_at(book, claim_id, now) {
            ClaimState::Open => {
                let capped = div_trunc(
                    gross * book.windows()[claim_id].max_claim_bps,
                    BPS_DENOMINATOR as int,
                );
                Ok(
                    if capped < 1 {
                        1i128
                    } else {
                        capped as i128
                    },
                )
            },
            ClaimState::Claimed => Err(ClaimError::AlreadyClaimed),
            _ => Err(ClaimError::AlreadyExpired),
        }
    }
}

/// The product of the gross and the window's ratio fits an `i128`
/// wherever it is computed.
pub open spec fn claim_fits(book: &ClaimBook, claim_id: Seq<char>, gross: i128, now: u64) -> bool {
    gross > 0 && state_at(book, claim_id, now) == ClaimState::Open ==> gross
        * book.windows()[claim_id].max_claim_bps <= i128::MAX
}

pub fn claimable_amount(book: &ClaimBook, claim_id: &Symbol, gross: i128, now: u64) -> (r: Result<
    i128,
    ClaimError,
>)
    requires
        book.wf(),
        claim_fits(book, claim_id@, gross, now),
    ensures
        r == claim_outcome(book, claim_id@, gross, now),
{
    if gross < 0 {
        return Err(ClaimError::NegativeAmount);
    }
    if gross == 0 {
        return Err(ClaimError::ZeroAmount);
    }
    if !is_claimable(book, claim_id, now) {
        return Err(
            match claim_state(book, claim_id, now) {
                ClaimState::Absent | ClaimState::Expired => ClaimError::AlreadyExpired,
                ClaimState::Claimed => ClaimError::AlreadyClaimed,
                ClaimState::Open => ClaimError::NotOpen,
            },
        );
    }
    let window = match claim_window(book, claim_id) {
        Some(w) => w,
        None => return Err(ClaimError::AlreadyExpired),
    };
    let product = gross * (window.max_claim_bps as i128);
    let capped = product / BPS_DENOMINATOR;
    if capped < 1 {
        return Ok(1);
    }
    Ok(capped)
}

/// Why a window cannot be opened, checked in this order: a zero or
/// overlong window, a ratio outside 1..=`MAX_CLAIM_BPS`, a window already
/// open or already claimed under this id (an expired one may be reopened).
pub open spec fn open_refusal(
    book: &ClaimBook,
    claim_id: Seq<char>,
    window_seconds: u64,
    max_claim_bps: u32,
) -> Option<ClaimError> {
    if window_seconds == 0 {
        Some(ClaimError::ZeroWindow)
    } else if window_seconds > MAX_WINDOW_S {
        Some(ClaimError::WindowTooLong)
    } else if max_claim_bps == 0 || max_claim_bps > MAX_CLAIM_BPS {
        Some(ClaimError::BpsOutOfRange)
    } else if book.windows().contains_key(claim_id) && book.windows()[claim_id].state
        == ClaimState::Open {
        Some(ClaimError::AlreadyOpen)
    } else if book.windows().contains_key(claim_id) && book.windows()[claim_id].state
        == ClaimState::Claimed {
        Some(ClaimError::AlreadyClaimed)
    } else {
        None
    }
}

/// Opens a claim window at `opened_at` for `window_seconds` and returns
/// its deadline.
pub fn open_claim_window(
    book: &mut ClaimBook,
    claim_id: &Symbol,
    opened_at: u64,
    window_seconds: u64,
    max_claim_bps: u32,
) -> (r: Result<u64, ClaimError>)
    requires
        old(book).wf(),
        open_refusal(old(book), claim_id@, window_seconds, max_claim_bps) is None ==> opened_at
            + window_seconds <= u64::MAX,
    ensures
        final(book).wf(),
        match open_refusal(old(book), claim_id@, window_seconds, max_claim_bps) {
            Some(e) => r == Err::<u64, ClaimError>(e) && *final(book) == *old(book),
            None => {
                let deadline = (opened_at + window_seconds) as u64;
                &&& r == Ok::<u64, ClaimError>(deadline)
                &&& final(book).windows() == old(book).windows().insert(
                    claim_id@,
                    ClaimWindow {
                        claim_id: *claim_id,
                        opened_at,
                        deadline,
                        max_claim_bps,
                        state: ClaimState::Open,
                    },
                )
                &&& final(book).event_log() == old(book).event_log().push(
                    ClaimEvent::Opened { claim_id: *claim_id, deadline },
                )
            },
        },
{
    if window_seconds == 0 {
        return Err(ClaimError::ZeroWindow);
    }
    if window_seconds > MAX_WINDOW_S {
        return Err(ClaimError::WindowTooLong);
    }
    if max_claim_bps == 0 || max_claim_bps > MAX_CLAIM_BPS {
        return Err(ClaimError::BpsOutOfRange);
    }
    match book.windows.get(&claim_id.text) {
        Some(window) => {
            if window.state == ClaimState::Open {
                return Err(ClaimError::AlreadyOpen);
            }
            if window.state == ClaimState::Claimed {
                return Err(ClaimError::AlreadyClaimed);
            }
        },
        None => {},
    }
    let deadline = opened_at + window_seconds;
    let window = ClaimWindow {
        claim_id: claim_id.clone(),
        opened_at,
        deadline,
        max_claim_bps,
        state: ClaimState::Open,
    };
    book.windows.set(claim_id.text.clone(), window);
    book.events.push(ClaimEvent::Opened { claim_id: claim_id.clone(), deadline });
    Ok(deadline)
}

/// Claims `gross` at `now` from an open window: the window becomes
/// claimed, and the payout carries the amount `claim_outcome` allows.
pub fn claim(book: &mut ClaimBook, claim_id: &Symbol, gross: i128, now: u64) -> (r: Result<
    Payout,
    ClaimError,
>)
    requires
        old(book).wf(),
        claim_fits(old(book), claim_id@, gross, now),
    ensures
        final(book).wf(),
        match claim_outcome(old(book), claim_id@, gross, now) {
            Err(e) => r == Err::<Payout, ClaimError>(e) && *final(book) == *old(book),
            Ok(amount) => {
                &&& r == Ok::<Payout, ClaimError>(
                    Payout { claim_id: *claim_id, gross, amount, claimed_at: now },
                )
                &&& final(book).windows() == old(book).windows().insert(
                    claim_id@,
                    ClaimWindow { state: ClaimState::Claimed, ..old(book).windows()[claim_id@] },
                )
                &&& final(book).event_log() == old(book).event_log().push(
                    ClaimEvent::Claimed { claim_id: *claim_id, amount },
                )
            },
        },
{
    let amount = match claimable_amount(book, claim_id, gross, now) {
        Ok(a) => a,
        Err(e) => return Err(e),
    };
    let mut window = match claim_window(book, claim_id) {
        Some(w) => w,
        None => return Err(ClaimError::AlreadyExpired),
    };
    window.state = ClaimState::Claimed;
    book.windows.set(claim_id.text.clone(), window);
    let payout = Payout { claim_id: claim_id.clone(), gross, amount, claimed_at: now };
    book.events.push(ClaimEvent::Claimed { claim_id: claim_id.clone(), amount });
    Ok(payout)
}

/// Why a window cannot be expired at `now`, checked in this order: no
/// window, already claimed, already expired, deadline not yet passed.
pub open spec fn expire_refusal(book: &ClaimBook, claim_id: Seq<char>, now: u64) -> Option<
    ClaimError,
> {
    if !book.windows().contains_key(claim_id) {
        Some(ClaimError::NotOpen)
    } else {
        let w = book.windows()[claim_id];
        if w.state == ClaimState::Claimed {
            Some(ClaimError::AlreadyClaimed)
        } else if w.state == ClaimState::Expired {
            Some(ClaimError::AlreadyExpired)
        } else if now <= w.deadline {
            Some(ClaimError::NotOpen)
        } else {
            None
        }
    }
}

/// Marks a window whose deadline has passed as expired and returns by how
/// many seconds `now` is past the deadline.
pub fn expire_claim(book: &mut ClaimBook, claim_id: &Symbol, now: u64) -> (r: Result<u64, ClaimError>)
    requires
        old(book).wf(),
    ensures
        final(book).wf(),
        match expire_refusal(old(book), claim_id@, now) {
            Some(e) => r == Err::<u64, ClaimError>(e) && *final(book) == *old(book),
            None => {
                let w = old(book).windows()[claim_id@];
                let overrun = (now - w.deadline) as u64;
                &&& r == Ok::<u64, ClaimError>(overrun)
                &&& final(book).windows() == old(book).windows().insert(
                    claim_id@,
                    ClaimWindow { state: ClaimState::Expired, ..w },
                )
                &&& final(book).event_log() == old(book).event_log().push(
                    ClaimEvent::Expired { claim_id: *claim_id, overrun },
                )
            },
        },
{
    let mut window = match claim_window(book, claim_id) {
        Some(w) => w,
        None => return Err(ClaimError::NotOpen),
    };
    match window.state {
        ClaimState::Claimed => return Err(ClaimError::AlreadyClaimed),
        ClaimState::Expired => return Err(ClaimError::AlreadyExpired),
        _ => {},
    }
    if now <= window.deadline {
        return Err(ClaimError::NotOpen);
    }
    let deadline = window.deadline;
    window.state = ClaimState::Expired;
    book.windows.set(claim_id.text.clone(), window);
    book.events.push(ClaimEvent::Expired { claim_id: claim_id.clone(), overrun: now - deadline });
    Ok(now - deadline)
}

/// A claim never pays out more than the window's ratio of the gross
/// (rounded down), except that it always pays at least one unit.
pub proof fn lemma_payout_within_ratio(book: &ClaimBook, claim_id: Seq<char>, gross: i128, now: u64)
    requires
        claim_outcome(book, claim_id, gross, now) is Ok,
        claim_fits(book, claim_id, gross, now),
    ensures
        ({
            let amount = claim_outcome(book, claim_id, gross, now)->Ok_0;
            let ratio = book.windows()[claim_id].max_claim_bps;
            &&& 1 <= amount
            &&& amount == 1 || amount * BPS_DENOMINATOR <= gross * ratio
        }),
{
    let ratio = book.windows()[claim_id].max_claim_bps;
    let p = gross * ratio;
    assert(p >= 0) by (nonlinear_arith)
        requires
            gross > 0,
            ratio >= 0,
            p == gross * ratio,
    ;
    assert((p / 10000) * 10000 <= p && p / 10000 <= p) by (nonlinear_arith)
        requires
            p >= 0,
    ;
}

/// A claimed window is final: it cannot be opened, claimed or expired
/// again.
pub proof fn lemma_claimed_is_final(
    book: &ClaimBook,
    claim_id: Seq<char>,
    gross: i128,
    now: u64,
    window_seconds: u64,
    max_claim_bps: u32,
)
    requires
        book.windows().contains_key(claim_id),
        book.windows()[claim_id].state == ClaimState::Claimed,
        gross > 0,
        0 < window_seconds <= MAX_WINDOW_S,
        0 < max_claim_bps <= MAX_CLAIM_BPS,
    ensures
        open_refusal(book, claim_id, window_seconds, max_claim_bps) == Some(
            ClaimError::AlreadyClaimed,
        ),
        claim_outcome(book, claim_id, gross, now) == Err::<i128, ClaimError>(
            ClaimError::AlreadyClaimed,
        ),
        expire_refusal(book, claim_id, now) == Some(ClaimError::AlreadyClaimed),
{
}

} // verus!
