//! One-time protocol initialization and the protocol-wide configuration
//! that the admin may change afterwards.
use vstd::prelude::*;

use crate::errors::QuickLendXError;
use crate::fees::MAX_FEE_BPS;
use crate::protocol_limits::{
    DEFAULT_GRACE_PERIOD_SECONDS, DEFAULT_MAX_DUE_DATE_DAYS, DEFAULT_MIN_INVOICE_AMOUNT,
    MAX_DUE_DATE_DAYS_LIMIT, MAX_GRACE_PERIOD_SECONDS,
};
use crate::Address;

verus! {

/// Version of the protocol's stored layout.
pub const PROTOCOL_VERSION: u32 = 1;

/// Platform fee before initialization, in basis points (2 %).
pub const DEFAULT_FEE_BPS: u32 = 200;

/// Parameters of the one-time initialization.
#[derive(Clone, Debug)]
pub struct InitializationParams {
    pub admin: Address,
    pub treasury: Address,
    pub fee_bps: u32,
    pub min_invoice_amount: i128,
    pub max_due_date_days: u64,
    pub grace_period_seconds: u64,
    pub initial_currencies: Vec<Address>,
}

/// Protocol-wide invoice configuration.
#[derive(Clone, Copy, Debug, PartialEq, Eq, Structural)]
pub struct ProtocolConfig {
    pub min_invoice_amount: i128,
    pub max_due_date_days: u64,
    pub grace_period_seconds: u64,
    pub updated_at: u64,
    pub updated_by: Address,
}

/// Error for an invoice configuration, if it is invalid: the minimum amount
/// must be positive, the horizon between 1 and 730 days, the grace period
/// at most 30 days.
pub open spec fn config_error(min_invoice_amount: int, max_due_date_days: int, grace_period_seconds: int) -> Option<QuickLendXError> {
    if min_invoice_amount <= 0 {
        Some(QuickLendXError::InvalidAmount)
    } else if max_due_date_days == 0 || max_due_date_days > MAX_DUE_DATE_DAYS_LIMIT {
        Some(QuickLendXError::InvoiceDueDateInvalid)
    } else if grace_period_seconds > MAX_GRACE_PERIOD_SECONDS {
        Some(QuickLendXError::InvalidTimestamp)
    } else {
        None
    }
}

/// Whether the currencies are pairwise distinct and none is the admin, the
/// treasury or the contract.
pub open spec fn currencies_ok(c: Seq<Address>, admin: Address, treasury: Address, contract: Address) -> bool {
    &&& forall|i: int, j: int| 0 <= i < j < c.len() ==> #[trigger] c[i] != #[trigger] c[j]
    &&& forall|i: int|
        0 <= i < c.len() ==> #[trigger] c[i] != admin && c[i] != treasury && c[i] != contract
}

/// Error for initialization parameters, if they are invalid, in the order
/// they are checked: `InvalidAddress` when the admin, the treasury and the
/// contract are not pairwise distinct; `InvalidFeeBasisPoints` for a fee
/// above 10 %; the error of `config_error`; `InvalidCurrency` when the
/// currencies are not acceptable.
pub open spec fn init_params_error(p: InitializationParams, contract: Address) -> Option<QuickLendXError> {
    if p.admin == p.treasury || p.admin == contract || p.treasury == contract {
        Some(QuickLendXError::InvalidAddress)
    } else if p.fee_bps > MAX_FEE_BPS {
        Some(QuickLendXError::InvalidFeeBasisPoints)
    } else if config_error(
        p.min_invoice_amount as int,
        p.max_due_date_days as int,
        p.grace_period_seconds as int,
    ) is Some {
        config_error(
            p.min_invoice_amount as int,
            p.max_due_date_days as int,
            p.grace_period_seconds as int,
        )
    } else if !currencies_ok(p.initial_currencies@, p.admin, p.treasury, contract) {
        Some(QuickLendXError::InvalidCurrency)
    } else {
        None
    }
}

/// Whether two sets of parameters are the same.
pub open spec fn same_params(a: InitializationParams, b: InitializationParams) -> bool {
    &&& a.admin == b.admin
    &&& a.treasury == b.treasury
    &&& a.fee_bps == b.fee_bps
    &&& a.min_invoice_amount == b.min_invoice_amount
    &&& a.max_due_date_days == b.max_due_date_days
    &&& a.grace_period_seconds == b.grace_period_seconds
    &&& a.initial_currencies@ == b.initial_currencies@
}

/// `Ok` or the given error.
pub open spec fn outcome(e: Option<QuickLendXError>) -> Result<(), QuickLendXError> {
    match e {
        Some(e) => Err(e),
        None => Ok(()),
    }
}

/// Checks an invoice configuration (see `config_error`).
pub fn validate_protocol_config(min_invoice_amount: i128, max_due_date_days: u64, grace_period_seconds: u64) -> (r:
    Result<(), QuickLendXError>)
    ensures
        r == outcome(
            config_error(min_invoice_amount as int, max_due_date_days as int, grace_period_seconds as int),
        ),
{
    if min_invoice_amount <= 0 {
        return Err(QuickLendXError::InvalidAmount);
    }
    if max_due_date_days == 0 || max_due_date_days > MAX_DUE_DATE_DAYS_LIMIT {
        return Err(QuickLendXError::InvoiceDueDateInvalid);
    }
    if grace_period_seconds > MAX_GRACE_PERIOD_SECONDS {
        return Err(QuickLendXError::InvalidTimestamp);
    }
    Ok(())
}

fn currencies_valid(c: &Vec<Address>, admin: Address, treasury: Address, contract: Address) -> (r:
    bool)
    ensures
        r == currencies_ok(c@, admin, treasury, contract),
{
    let mut i: usize = 0;
    while i < c.len()
        invariant
            0 <= i <= c@.len(),
            forall|a: int, b: int| 0 <= a < b < i ==> #[trigger] c@[a] != #[trigger] c@[b],
            forall|a: int|
                0 <= a < i ==> #[trigger] c@[a] != admin && c@[a] != treasury && c@[a] != contract,
        decreases c@.len() - i,
    {
        let x = c[i];
        if x == admin || x == treasury || x == contract {
            return false;
        }
        let mut j: usize = 0;
        while j < i
            invariant
                0 <= j <= i < c@.len(),
                x == c@[i as int],
                forall|a: int| 0 <= a < j ==> c@[a] != x,
            decreases i - j,
        {
            if c[j] == x {
                assert(c@[j as int] == c@[i as int]);
                return false;
            }
            j = j + 1;
        }
        i = i + 1;
    }
    true
}

/// Checks initialization parameters (see `init_params_error`).
pub fn validate_initialization_params(params: &InitializationParams, contract: Address) -> (r:
    Result<(), QuickLendXError>)
    ensures
        r == outcome(init_params_error(*params, contract)),
{
    if params.admin == params.treasury || params.admin == contract || params.treasury == contract {
        return Err(QuickLendXError::InvalidAddress);
    }
    if params.fee_bps > MAX_FEE_BPS {
        return Err(QuickLendXError::InvalidFeeBasisPoints);
    }
    validate_protocol_config(
        params.min_invoice_amount,
        params.max_due_date_days,
        params.grace_period_seconds,
    )?;
    if !currencies_valid(&params.initial_currencies, params.admin, params.treasury, contract) {
        return Err(QuickLendXError::InvalidCurrency);
    }
    Ok(())
}

fn addresses_equal(a: &Vec<Address>, b: &Vec<Address>) -> (r: bool)
    ensures
        r == (a@ == b@),
{
    if a.len() != b.len() {
        return false;
    }
    let mut i: usize = 0;
    while i < a.len()
        invariant
            0 <= i <= a@.len(),
            a@.len() == b@.len(),
            forall|j: int| 0 <= j < i ==> a@[j] == b@[j],
        decreases a@.len() - i,
    {
        if a[i] != b[i] {
            return false;
        }
        i = i + 1;
    }
    proof {
        assert(a@ =~= b@);
    }
    true
}

pub(crate) fn copy_addresses(a: &Vec<Address>) -> (r: Vec<Address>)
    ensures
        r@ == a@,
{
    let mut r: Vec<Address> = Vec::new();
    let mut i: usize = 0;
    while i < a.len()
        invariant
            0 <= i <= a@.len(),
            r@ == a@.take(i as int),
        decreases a@.len() - i,
    {
        r.push(a[i]);
        i = i + 1;
        proof {
            assert(r@ =~= a@.take(i as int));
        }
    }
    proof {
        assert(a@.take(i as int) =~= a@);
    }
    r
}

/// The protocol's one-time initialization state and configuration.
pub struct ProtocolInitializer {
    initialized_with: Option<InitializationParams>,
    admin: Option<Address>,
    treasury: Option<Address>,
    fee_bps: u32,
    config: Option<ProtocolConfig>,
    currencies: Vec<Address>,
}

impl ProtocolInitializer {
    /// Parameters of the initialization, once it has happened.
    pub closed spec fn initialized_with(&self) -> Option<InitializationParams> {
        self.initialized_with
    }

    /// The admin, once set.
    pub closed spec fn admin(&self) -> Option<Address> {
        self.admin
    }

    /// The treasury, once set.
    pub closed spec fn treasury(&self) -> Option<Address> {
        self.treasury
    }

    /// The platform fee, in basis points.
    pub closed spec fn fee(&self) -> u32 {
        self.fee_bps
    }

    /// The invoice configuration, once set.
    pub closed spec fn config(&self) -> Option<ProtocolConfig> {
        self.config
    }

    /// The currencies accepted.
    pub closed spec fn currencies(&self) -> Seq<Address> {
        self.currencies@
    }

    /// Well-formedness: the fee is at most 10 %, a stored configuration is
    /// valid, the admin and the treasury are distinct, and both are set
    /// exactly once the protocol is initialized.
    pub open spec fn wf(&self) -> bool {
        &&& self.fee() <= MAX_FEE_BPS
        &&& (self.config() matches Some(c) ==> config_error(
            c.min_invoice_amount as int,
            c.max_due_date_days as int,
            c.grace_period_seconds as int,
        ) is None)
        &&& (self.admin() matches Some(a) ==> self.treasury() != Some(a))
        &&& (self.initialized_with() is Some <==> self.admin() is Some)
        &&& (self.initialized_with() is Some <==> self.treasury() is Some)
        &&& (self.initialized_with() is Some <==> self.config() is Some)
    }

    /// Nothing initialized: the default fee, no admin, treasury,
    /// configuration or currency.
    pub fn new() -> (r: Self)
        ensures
            r.wf(),
            r.initialized_with() is None,
            r.admin() is None,
            r.treasury() is None,
            r.fee() == DEFAULT_FEE_BPS,
            r.config() is None,
            r.currencies() == Seq::<Address>::empty(),
    {
        ProtocolInitializer {
            initialized_with: None,
            admin: None,
            treasury: None,
            fee_bps: DEFAULT_FEE_BPS,
            config: None,
            currencies: Vec::new(),
        }
    }

    /// Whether the protocol has been initialized.
    pub fn is_initialized(&self) -> (r: bool)
        ensures
            r == self.initialized_with() is Some,
    {
        self.initialized_with.is_some()
    }

    /// Initializes the protocol with `params` at time `now`.
    ///
    /// Once initialized, the same parameters again succeed and change
    /// nothing, other parameters fail with `OperationNotAllowed` and change
    /// nothing. Before that, invalid parameters fail as
    /// `validate_initialization_params` does, changing nothing; valid ones
    /// set the admin, treasury, fee, configuration and currencies.
    pub fn initialize(&mut self, params: &InitializationParams, contract: Address, now: u64) -> (r:
        Result<(), QuickLendXError>)
        requires
            old(self).wf(),
        ensures
            final(self).wf(),
            old(self).initialized_with() matches Some(p) ==> *final(self) == *old(self) && r == if same_params(
                p,
                *params,
            ) {
                Ok::<(), QuickLendXError>(())
            } else {
                Err::<(), QuickLendXError>(QuickLendXError::OperationNotAllowed)
            },
            old(self).initialized_with() is None ==> r == outcome(init_params_error(*params, contract)),
            old(self).initialized_with() is None && r is Err ==> *final(self) == *old(self),
            old(self).initialized_with() is None && r is Ok ==> {
                &&& final(self).initialized_with() matches Some(p) && same_params(p, *params)
                &&& final(self).admin() == Some(params.admin)
                &&& final(self).treasury() == Some(params.treasury)
                &&& final(self).fee() == params.fee_bps
                &&& final(self).config() == Some(
                    ProtocolConfig {
                        min_invoice_amount: params.min_invoice_amount,
                        max_due_date_days: params.max_due_date_days,
                        grace_period_seconds: params.grace_period_seconds,
                        updated_at: now,
                        updated_by: params.admin,
                    },
                )
                &&& final(self).currencies() == params.initial_currencies@
            },
    {
        match &self.initialized_with {
            Some(p) => {
                let same = p.admin == params.admin && p.treasury == params.treasury && p.fee_bps
                    == params.fee_bps && p.min_invoice_amount == params.min_invoice_amount
                    && p.max_due_date_days == params.max_due_date_days && p.grace_period_seconds
                    == params.grace_period_seconds && addresses_equal(
                    &p.initial_currencies,
                    &params.initial_currencies,
                );
                if same {
                    return Ok(());
                } else {
                    return Err(QuickLendXError::OperationNotAllowed);
                }
            },
            None => {},
        }
        validate_initialization_params(params, contract)?;
        let stored = InitializationParams {
            admin: params.admin,
            treasury: params.treasury,
            fee_bps: params.fee_bps,
            min_invoice_amount: params.min_invoice_amount,
            max_due_date_days: params.max_due_date_days,
            grace_period_seconds: params.grace_period_seconds,
            initial_currencies: copy_addresses(&params.initial_currencies),
        };
        self.initialized_with = Some(stored);
        self.admin = Some(params.admin);
        self.treasury = Some(params.treasury);
        self.fee_bps = params.fee_bps;
        self.config = Some(
            ProtocolConfig {
                min_invoice_amount: params.min_invoice_amount,
                max_due_date_days: params.max_due_date_days,
                grace_period_seconds: params.grace_period_seconds,
                updated_at: now,
                updated_by: params.admin,
            },
        );
        self.currencies = copy_addresses(&params.initial_currencies);
        Ok(())
    }

    /// The invoice configuration, once initialized.
    pub fn get_protocol_config(&self) -> (r: Option<ProtocolConfig>)
        ensures
            r == self.config(),
    {
        self.config
    }

    /// The platform fee, in basis points.
    pub fn get_fee_bps(&self) -> (r: u32)
        ensures
            r == self.fee(),
    {
        self.fee_bps
    }

    /// Smallest invoice amount: the configured one, or the default.
    pub fn get_min_invoice_amount(&self) -> (r: i128)
        ensures
            r == match self.config() {
                Some(c) => c.min_invoice_amount,
                None => DEFAULT_MIN_INVOICE_AMOUNT,
            },
    {
        match self.config {
            Some(c) => c.min_invoice_amount,
            None => DEFAULT_MIN_INVOICE_AMOUNT,
        }
    }

    /// Due-date horizon in days: the configured one, or the default.
    pub fn get_max_due_date_days(&self) -> (r: u64)
        ensures
            r == match self.config() {
                Some(c) => c.max_due_date_days,
                None => DEFAULT_MAX_DUE_DATE_DAYS,
            },
    {
        match self.config {
            Some(c) => c.max_due_date_days,
            None => DEFAULT_MAX_DUE_DATE_DAYS,
        }
    }

    /// Grace period in seconds: the configured one, or the default.
    pub fn get_grace_period_seconds(&self) -> (r: u64)
        ensures
            r == match self.config() {
                Some(c) => c.grace_period_seconds,
                None => DEFAULT_GRACE_PERIOD_SECONDS,
            },
    {
        match self.config {
            Some(c) => c.grace_period_seconds,
            None => DEFAULT_GRACE_PERIOD_SECONDS,
        }
    }

    /// The treasury, once set.
    pub fn get_treasury(&self) -> (r: Option<Address>)
        ensures
            r == self.treasury(),
    {
        self.treasury
    }

    /// The admin, once set.
    pub fn get_current_admin(&self) -> (r: Option<Address>)
        ensures
            r == self.admin(),
    {
        self.admin
    }

    /// Version of the protocol's stored layout; the same before and after
    /// initialization.
    pub fn get_version(&self) -> (r: u32)
        ensures
            r == PROTOCOL_VERSION,
    {
        PROTOCOL_VERSION
    }

    /// Changes the invoice configuration. `NotAdmin` unless `caller` is the
    /// admin; otherwise fails as `validate_protocol_config` does. Nothing
    /// changes on failure.
    pub fn set_protocol_config(
        &mut self,
        caller: Address,
        min_invoice_amount: i128,
        max_due_date_days: u64,
        grace_period_seconds: u64,
        now: u64,
    ) -> (r: Result<(), QuickLendXError>)
        requires
            old(self).wf(),
        ensures
            final(self).wf(),
            old(self).admin() != Some(caller) ==> r == Err::<(), QuickLendXError>(
                QuickLendXError::NotAdmin,
            ),
            old(self).admin() == Some(caller) ==> r == outcome(
                config_error(
                    min_invoice_amount as int,
                    max_due_date_days as int,
                    grace_period_seconds as int,
                ),
            ),
            r is Err ==> *final(self) == *old(self),
            r is Ok ==> final(self).config() == Some(
                ProtocolConfig {
                    min_invoice_amount,
                    max_due_date_days,
                    grace_period_seconds,
                    updated_at: now,
                    updated_by: caller,
                },
            ),
            final(self).initialized_with() == old(self).initialized_with(),
            final(self).admin() == old(self).admin(),
            final(self).treasury() == old(self).treasury(),
            final(self).fee() == old(self).fee(),
            final(self).currencies() == old(self).currencies(),
    {
        if self.admin != Some(caller) {
            return Err(QuickLendXError::NotAdmin);
        }
        validate_protocol_config(min_invoice_amount, max_due_date_days, grace_period_seconds)?;
        self.config = Some(
            ProtocolConfig {
                min_invoice_amount,
                max_due_date_days,
                grace_period_seconds,
                updated_at: now,
                updated_by: caller,
            },
        );
        Ok(())
    }

    /// Changes the platform fee. `NotAdmin` unless `caller` is the admin;
    /// `InvalidFeeBasisPoints` above 10 %. Nothing changes on failure.
    pub fn set_fee_config(&mut self, caller: Address, fee_bps: u32) -> (r: Result<
        (),
        QuickLendXError,
    >)
        requires
            old(self).wf(),
        ensures
            final(self).wf(),
            old(self).admin() != Some(caller) ==> r == Err::<(), QuickLendXError>(
                QuickLendXError::NotAdmin,
            ),
            old(self).admin() == Some(caller) && fee_bps > MAX_FEE_BPS ==> r == Err::<
                (),
                QuickLendXError,
            >(QuickLendXError::InvalidFeeBasisPoints),
            r is Ok <==> old(self).admin() == Some(caller) && fee_bps <= MAX_FEE_BPS,
            r is Err ==> *final(self) == *old(self),
            r is Ok ==> final(self).fee() == fee_bps,
            final(self).initialized_with() == old(self).initialized_with(),
            final(self).admin() == old(self).admin(),
            final(self).treasury() == old(self).treasury(),
            final(self).config() == old(self).config(),
            final(self).currencies() == old(self).currencies(),
    {
        if self.admin != Some(caller) {
            return Err(QuickLendXError::NotAdmin);
        }
        if fee_bps > MAX_FEE_BPS {
            return Err(QuickLendXError::InvalidFeeBasisPoints);
        }
        self.fee_bps = fee_bps;
        Ok(())
    }

    /// Changes the treasury. `NotAdmin` unless `caller` is the admin;
    /// `InvalidAddress` when the treasury would be the admin. Nothing
    /// changes on failure.
    pub fn set_treasury(&mut self, caller: Address, treasury: Address) -> (r: Result<
        (),
        QuickLendXError,
    >)
        requires
            old(self).wf(),
        ensures
            final(self).wf(),
            old(self).admin() != Some(caller) ==> r == Err::<(), QuickLendXError>(
                QuickLendXError::NotAdmin,
            ),
            old(self).admin() == Some(caller) && treasury == caller ==> r == Err::<
                (),
                QuickLendXError,
            >(QuickLendXError::InvalidAddress),
            r is Ok <==> old(self).admin() == Some(caller) && treasury != caller,
            r is Err ==> *final(self) == *old(self),
            r is Ok ==> final(self).treasury() == Some(treasury),
            final(self).initialized_with() == old(self).initialized_with(),
            final(self).admin() == old(self).admin(),
            final(self).fee() == old(self).fee(),
            final(self).config() == old(self).config(),
            final(self).currencies() == old(self).currencies(),
    {
        if self.admin != Some(caller) {
            return Err(QuickLendXError::NotAdmin);
        }
        if treasury == caller {
            return Err(QuickLendXError::InvalidAddress);
        }
        self.treasury = Some(treasury);
        Ok(())
    }

    /// Hands the admin role to `new_admin`. `NotAdmin` unless `caller` is
    /// the admin; `InvalidAddress` when `new_admin` is the treasury. Nothing
    /// changes on failure.
    pub fn transfer_admin(&mut self, caller: Address, new_admin: Address) -> (r: Result<
        (),
        QuickLendXError,
    >)
        requires
            old(self).wf(),
        ensures
            final(self).wf(),
            old(self).admin() != Some(caller) ==> r == Err::<(), QuickLendXError>(
                QuickLendXError::NotAdmin,
            ),
            old(self).admin() == Some(caller) && old(self).treasury() == Some(new_admin) ==> r
                == Err::<(), QuickLendXError>(QuickLendXError::InvalidAddress),
            r is Ok <==> old(self).admin() == Some(caller) && old(self).treasury() != Some(
                new_admin,
            ),
            r is Err ==> *final(self) == *old(self),
            r is Ok ==> final(self).admin() == Some(new_admin),
            final(self).initialized_with() == old(self).initialized_with(),
            final(self).treasury() == old(self).treasury(),
            final(self).fee() == old(self).fee(),
            final(self).config() == old(self).config(),
            final(self).currencies() == old(self).currencies(),
    {
        if self.admin != Some(caller) {
            return Err(QuickLendXError::NotAdmin);
        }
        if self.treasury == Some(new_admin) {
            return Err(QuickLendXError::InvalidAddress);
        }
        self.admin = Some(new_admin);
        Ok(())
    }
}

} // verus!
