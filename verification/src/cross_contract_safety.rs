use vstd::prelude::*;
use crate::ident::{Account, Symbol};
use crate::table::Table;

verus! {

#[derive(Clone, Copy, Debug, PartialEq, Eq, Structural)]
pub enum CrossContractSafetyError {
    NotInitialized,
    Unauthorized,
    UnauthorizedCaller,
}

/// The registry of contracts allowed to reach cross-contract entry points,
/// and the admin who manages it.
pub struct CallerRegistry {
    admin: Option<Account>,
    callers: Table<bool>,
}

impl CallerRegistry {
    pub closed spec fn admin_of(&self) -> Option<Account> {
        self.admin
    }

    pub closed spec fn callers(&self) -> Map<Seq<char>, bool> {
        self.callers@
    }

    pub closed spec fn wf(&self) -> bool {
        self.callers.wf()
    }

    pub open spec fn authorized(&self, caller: Seq<char>) -> bool {
        self.callers().contains_key(caller) && self.callers()[caller]
    }

    pub fn new() -> (r: Self)
        ensures
            r.wf(),
            r.admin_of() is None,
            r.callers() == Map::<Seq<char>, bool>::empty(),
    {
        CallerRegistry { admin: None, callers: Table::new() }
    }
}

/// `caller` (whose signature the host checks) is the registry's admin.
fn require_admin(registry: &CallerRegistry, caller: &Account) -> (r: Result<
    (),
    CrossContractSafetyError,
>)
    ensures
        match registry.admin_of() {
            None => r == Err::<(), CrossContractSafetyError>(
                CrossContractSafetyError::NotInitialized,
            ),
            Some(a) => if a@ == caller@ {
                r is Ok
            } else {
                r == Err::<(), CrossContractSafetyError>(CrossContractSafetyError::Unauthorized)
            },
        },
{
    match &registry.admin {
        None => Err(CrossContractSafetyError::NotInitialized),
        Some(admin) => if *admin == *caller {
            Ok(())
        } else {
            Err(CrossContractSafetyError::Unauthorized)
        },
    }
}

/// Sets the registry's admin once; any later attempt is refused.
pub fn initialize_admin(registry: &mut CallerRegistry, admin: &Account) -> (r: Result<
    (),
    CrossContractSafetyError,
>)
    requires
        old(registry).wf(),
    ensures
        final(registry).wf(),
        old(registry).admin_of() is Some ==> r == Err::<(), CrossContractSafetyError>(
            CrossContractSafetyError::Unauthorized,
        ) && *final(registry) == *old(registry),
        old(registry).admin_of() is None ==> r is Ok && final(registry).admin_of() == Some(*admin)
            && final(registry).callers() == old(registry).callers(),
{
    if registry.admin.is_some() {
        return Err(CrossContractSafetyError::Unauthorized);
    }
    registry.admin = Some(admin.clone());
    Ok(())
}

/// The admin puts `caller_contract` on the registry.
pub fn add_authorized_caller(
    registry: &mut CallerRegistry,
    admin: &Account,
    caller_contract: Account,
) -> (r: Result<(), CrossContractSafetyError>)
    requires
        old(registry).wf(),
    ensures
        final(registry).wf(),
        final(registry).admin_of() == old(registry).admin_of(),
        r == require_admin_result(old(registry).admin_of(), admin@),
        r is Err ==> *final(registry) == *old(registry),
        r is Ok ==> final(registry).callers() == old(registry).callers().insert(
            caller_contract@,
            true,
        ),
{
    match require_admin(registry, admin) {
        Err(e) => return Err(e),
        Ok(()) => {},
    }
    registry.callers.set(caller_contract.text, true);
    Ok(())
}

/// The admin takes `caller_contract` off the registry.
pub fn remove_authorized_caller(
    registry: &mut CallerRegistry,
    admin: &Account,
    caller_contract: Account,
) -> (r: Result<(), CrossContractSafetyError>)
    requires
        old(registry).wf(),
    ensures
        final(registry).wf(),
        final(registry).admin_of() == old(registry).admin_of(),
        r == require_admin_result(old(registry).admin_of(), admin@),
        r is Err ==> *final(registry) == *old(registry),
        r is Ok ==> final(registry).callers() == old(registry).callers().remove(caller_contract@),
{
    match require_admin(registry, admin) {
        Err(e) => return Err(e),
        Ok(()) => {},
    }
    registry.callers.remove(&caller_contract.text);
    Ok(())
}

/// The outcome of the admin check for `caller` against the stored admin.
pub open spec fn require_admin_result(admin: Option<Account>, caller: Seq<char>) -> Result<
    (),
    CrossContractSafetyError,
> {
    match admin {
        None => Err(CrossContractSafetyError::NotInitialized),
        Some(a) => if a@ == caller {
            Ok(())
        } else {
            Err(CrossContractSafetyError::Unauthorized)
        },
    }
}

pub fn is_authorized_caller(registry: &CallerRegistry, caller_contract: &Account) -> (b: bool)
    requires
        registry.wf(),
    ensures
        b == registry.authorized(caller_contract@),
{
    match registry.callers.get(&caller_contract.text) {
        Some(flag) => *flag,
        None => false,
    }
}

/// Guard for entry points reachable only from registered contracts.
pub fn require_authorized_caller(registry: &CallerRegistry, caller_contract: &Account) -> (r:
    Result<(), CrossContractSafetyError>)
    requires
        registry.wf(),
    ensures
        r is Ok <==> registry.authorized(caller_contract@),
        r is Err ==> r == Err::<(), CrossContractSafetyError>(
            CrossContractSafetyError::UnauthorizedCaller,
        ),
{
    if !is_authorized_caller(registry, caller_contract) {
        return Err(CrossContractSafetyError::UnauthorizedCaller);
    }
    Ok(())
}

/// Status of a cross-contract call.
#[derive(Clone, Copy, Debug, PartialEq, Eq, Structural)]
pub enum CrossContractCallStatus {
    Success,
    RecoverableError,
    FatalError,
    DispatchFailed,
    Compensated,
}

impl CrossContractCallStatus {
    /// The status's wire code.
    pub fn code(&self) -> (c: u32)
        ensures
            c == match *self {
                CrossContractCallStatus::Success => 0u32,
                CrossContractCallStatus::RecoverableError => 1u32,
                CrossContractCallStatus::FatalError => 2u32,
                CrossContractCallStatus::DispatchFailed => 3u32,
                CrossContractCallStatus::Compensated => 4u32,
            },
    {
        match *self {
            CrossContractCallStatus::Success => 0,
            CrossContractCallStatus::RecoverableError => 1,
            CrossContractCallStatus::FatalError => 2,
            CrossContractCallStatus::DispatchFailed => 3,
            CrossContractCallStatus::Compensated => 4,
        }
    }
}

/// The result of a cross-contract call with its safety status.
pub struct SafeCallResult {
    pub status: CrossContractCallStatus,
    pub error_symbol: Option<Symbol>,
}

/// How to reverse a call that already went through.
pub struct CompensationAction {
    pub tag: Symbol,
    pub fn_name: Symbol,
}

/// A name the host accepts as a symbol: at most 32 characters, each a
/// letter, a digit or an underscore.
pub open spec fn valid_symbol(s: Seq<char>) -> bool {
    &&& s.len() <= 32
    &&& forall|i: int|
        0 <= i < s.len() ==> {
            let c = #[trigger] s[i];
            ('a' <= c <= 'z') || ('A' <= c <= 'Z') || ('0' <= c <= '9') || c == '_'
        }
}

/// Invokes `function_name` on the contract whose 32-byte id is
/// `contract_hash`, with `args`, through soroban_sdk's
/// `Env::try_invoke_contract`, and reports whether the invoked contract
/// returned normally (an error from the callee, or no contract deployed
/// under that id, counts as not). The address is built with
/// `AddressPayload::ContractIdHash(..).to_address`, so it is always a
/// contract address: the host refuses an account address outright, before
/// any recoverable failure. The name is turned into a host symbol with
/// `soroban_sdk::Symbol::new`, which panics on a name that is not a valid
/// symbol; hence the requirement. Nothing is claimed of the outcome: it
/// depends on the contracts deployed and their state. Not claimed: that
/// the host's budget and the transaction's footprint cover the call (the
/// host aborts when they do not).
#[verifier::external_body]
fn invoke_returned(
    env: &soroban_sdk::Env,
    contract_hash: &[u8; 32],
    function_name: &Symbol,
    args: soroban_sdk::Vec<soroban_sdk::Val>,
) -> (returned: bool)
    requires
        valid_symbol(function_name@),
{
    let id = soroban_sdk::BytesN::from_array(env, contract_hash);
    let payload = soroban_sdk::address_payload::AddressPayload::ContractIdHash(id);
    let contract = payload.to_address(env);
    let func = soroban_sdk::Symbol::new(env, function_name.as_str());
    env.try_invoke_contract::<soroban_sdk::Val, soroban_sdk::Val>(&contract, &func, args).is_ok()
}

/// The safety status of an invocation given whether the invoked contract
/// returned normally: success without an error symbol, or a fatal error
/// tagged `CROSS_CONTRACT_FAILURE`.
pub fn safe_invoke_result(invocation_succeeded: bool) -> (r: SafeCallResult)
    ensures
        invocation_succeeded ==> r.status == CrossContractCallStatus::Success
            && r.error_symbol is None,
        !invocation_succeeded ==> r.status == CrossContractCallStatus::FatalError
            && (r.error_symbol matches Some(s) && s@ == "CROSS_CONTRACT_FAILURE"@),
{
    if invocation_succeeded {
        SafeCallResult { status: CrossContractCallStatus::Success, error_symbol: None }
    } else {
        let tag = Symbol::new("CROSS_CONTRACT_FAILURE");
        SafeCallResult { status: CrossContractCallStatus::FatalError, error_symbol: Some(tag) }
    }
}

/// A call's outcome as `safe_invoke_contract` reports it.
pub open spec fn reported_outcome(r: SafeCallResult) -> bool {
    ||| r.status == CrossContractCallStatus::Success && r.error_symbol is None
    ||| r.status == CrossContractCallStatus::FatalError && (r.error_symbol matches Some(s) && s@
        == "CROSS_CONTRACT_FAILURE"@)
}

/// Invokes the contract with id `contract_hash` without letting its failure
/// abort the caller: the call either succeeds, or comes back as a fatal
/// error tagged `CROSS_CONTRACT_FAILURE` (which of the two depends on the
/// invoked contract).
pub fn safe_invoke_contract(
    env: &soroban_sdk::Env,
    contract_hash: &[u8; 32],
    function_name: &Symbol,
    args: soroban_sdk::Vec<soroban_sdk::Val>,
) -> (r: SafeCallResult)
    requires
        valid_symbol(function_name@),
    ensures
        reported_outcome(r),
{
    let returned = invoke_returned(env, contract_hash, function_name, args);
    safe_invoke_result(returned)
}

/// Whether a call with this status requires rolling back earlier steps.
pub fn requires_rollback(status: CrossContractCallStatus) -> (b: bool)
    ensures
        b == (status == CrossContractCallStatus::FatalError || status
            == CrossContractCallStatus::DispatchFailed),
{
    status == CrossContractCallStatus::FatalError || status == CrossContractCallStatus::DispatchFailed
}

/// The compensations registered for a sequence of calls, newest last.
pub struct CrossContractSafety {
    pub compensation_stack: Vec<CompensationAction>,
}

impl CrossContractSafety {
    pub fn new() -> (s: Self)
        ensures
            s.compensation_stack@.len() == 0,
    {
        CrossContractSafety { compensation_stack: Vec::new() }
    }

    /// Registers the outcome of invoking `function_name`: a success or a
    /// recoverable error registers `compensation_tag` and passes the result
    /// on; a fatal, dispatch or compensated status is handed back as an
    /// error with nothing registered.
    pub fn record_outcome(
        &mut self,
        result: SafeCallResult,
        function_name: &Symbol,
        compensation_tag: Symbol,
    ) -> (r: Result<SafeCallResult, SafeCallResult>)
        ensures
            (result.status == CrossContractCallStatus::Success || result.status
                == CrossContractCallStatus::RecoverableError) ==> {
                &&& r == Ok::<SafeCallResult, SafeCallResult>(result)
                &&& final(self).compensation_stack@ == old(self).compensation_stack@.push(
                    CompensationAction { tag: compensation_tag, fn_name: *function_name },
                )
            },
            !(result.status == CrossContractCallStatus::Success || result.status
                == CrossContractCallStatus::RecoverableError) ==> r == Err::<
                SafeCallResult,
                SafeCallResult,
            >(result) && final(self).compensation_stack == old(self).compensation_stack,
    {
        match result.status {
            CrossContractCallStatus::Success | CrossContractCallStatus::RecoverableError => {
                self.compensation_stack.push(
                    CompensationAction { tag: compensation_tag, fn_name: function_name.clone() },
                );
                Ok(result)
            },
            _ => Err(result),
        }
    }

    /// Invokes `function_name` on `contract_id` safely; when the call goes
    /// through, `compensation_tag` is registered to undo it later and the
    /// result is returned, otherwise the fatal result comes back as an
    /// error and nothing is registered.
    pub fn call(
        &mut self,
        env: &soroban_sdk::Env,
        contract_hash: &[u8; 32],
        function_name: &Symbol,
        args: soroban_sdk::Vec<soroban_sdk::Val>,
        compensation_tag: Symbol,
    ) -> (r: Result<SafeCallResult, SafeCallResult>)
        requires
            valid_symbol(function_name@),
        ensures
            match r {
                Ok(res) => {
                    &&& res.status == CrossContractCallStatus::Success && res.error_symbol is None
                    &&& final(self).compensation_stack@ == old(self).compensation_stack@.push(
                        CompensationAction { tag: compensation_tag, fn_name: *function_name },
                    )
                },
                Err(res) => {
                    &&& res.status == CrossContractCallStatus::FatalError
                    &&& res.error_symbol matches Some(s) && s@ == "CROSS_CONTRACT_FAILURE"@
                    &&& final(self).compensation_stack == old(self).compensation_stack
                },
            },
    {
        let result = safe_invoke_contract(env, contract_hash, function_name, args);
        self.record_outcome(result, function_name, compensation_tag)
    }

    pub fn depth(&self) -> (n: u32)
        requires
            self.compensation_stack@.len() <= u32::MAX,
        ensures
            n == self.compensation_stack@.len(),
    {
        self.compensation_stack.len() as u32
    }

    pub fn has_pending(&self) -> (b: bool)
        ensures
            b == (self.compensation_stack@.len() > 0),
    {
        !self.compensation_stack.is_empty()
    }
}

/// Compensation tag: unlock funds locked by an earlier call.
pub fn comp_unlock_funds() -> (s: Symbol)
    ensures
        s@ == "unlck_fnd"@,
{
    Symbol::new("unlck_fnd")
}

/// Compensation tag: reverse a settlement.
pub fn comp_reverse_settle() -> (s: Symbol)
    ensures
        s@ == "rev_setle"@,
{
    Symbol::new("rev_setle")
}

/// Compensation tag: unpause an escrow.
pub fn comp_unpause_escrow() -> (s: Symbol)
    ensures
        s@ == "unp_escro"@,
{
    Symbol::new("unp_escro")
}

/// Downstream function: lock funds.
pub fn fn_lock_funds() -> (s: Symbol)
    ensures
        s@ == "lock_fnds"@,
{
    Symbol::new("lock_fnds")
}

/// Downstream function: release a payment.
pub fn fn_release_payment() -> (s: Symbol)
    ensures
        s@ == "rel_pay"@,
{
    Symbol::new("rel_pay")
}

/// Downstream function: cancel a settlement.
pub fn fn_cancel_settlement() -> (s: Symbol)
    ensures
        s@ == "can_setl"@,
{
    Symbol::new("can_setl")
}

} // verus!
