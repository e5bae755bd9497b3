//! Token movements and escrow. A transfer is checked against the sender's
//! balance and, unless the protocol itself sends, the allowance it gave the
//! protocol, before anything moves. Escrow holds an investor's funds for an
//! invoice until they are released to the business or refunded. The token
//! itself lives outside: these functions take the balances and allowances
//! read from it and return the transfer to perform, which then cannot fail
//! for want of funds.
use vstd::prelude::*;

use crate::errors::QuickLendXError;
use crate::invoice_id::InvoiceId;
use crate::Address;

verus! {

/// A movement of `amount` of a token from `from` to `to`; when
/// `from_allowance` holds it draws on the allowance `from` gave the
/// protocol, else the protocol sends its own funds.
#[derive(Clone, Copy, Debug, PartialEq, Eq, Structural)]
pub struct Transfer {
    pub from: Address,
    pub to: Address,
    pub amount: i128,
    pub from_allowance: bool,
}

/// Why a transfer of `amount` from `from` (holding `balance`, having
/// allowed the protocol `allowance`) to `to` by the protocol `contract` is
/// refused, if it is: a non-positive amount, then (unless sender and
/// receiver are one) too small a balance, then too small an allowance when
/// the sender is not the protocol.
pub open spec fn transfer_error(
    contract: Address,
    from: Address,
    to: Address,
    amount: i128,
    balance: i128,
    allowance: i128,
) -> Option<QuickLendXError> {
    if amount <= 0 {
        Some(QuickLendXError::InvalidAmount)
    } else if from == to {
        None
    } else if balance < amount {
        Some(QuickLendXError::InsufficientFunds)
    } else if from != contract && allowance < amount {
        Some(QuickLendXError::OperationNotAllowed)
    } else {
        None
    }
}

/// The transfer that moves `amount` from `from` to `to` on behalf of the
/// protocol `contract`.
pub open spec fn transfer_of(contract: Address, from: Address, to: Address, amount: i128) -> Transfer {
    Transfer { from, to, amount, from_allowance: from != contract }
}

/// Checks a transfer of `amount` from `from` to `to` by the protocol
/// `contract`, given the sender's `balance` and the `allowance` it gave the
/// protocol. The error, if any, is `transfer_error`; otherwise nothing is to
/// move when sender and receiver are one, else the transfer to perform.
pub fn transfer_funds(
    contract: Address,
    from: Address,
    to: Address,
    amount: i128,
    balance: i128,
    allowance: i128,
) -> (r: Result<Option<Transfer>, QuickLendXError>)
    ensures
        transfer_error(contract, from, to, amount, balance, allowance) matches Some(e) ==> r
            == Err::<Option<Transfer>, QuickLendXError>(e),
        transfer_error(contract, from, to, amount, balance, allowance) is None ==> r == Ok::<
            Option<Transfer>,
            QuickLendXError,
        >(
            if from == to {
                None
            } else {
                Some(transfer_of(contract, from, to, amount))
            },
        ),
{
    if amount <= 0 {
        return Err(QuickLendXError::InvalidAmount);
    }
    if from == to {
        return Ok(None);
    }
    if balance < amount {
        return Err(QuickLendXError::InsufficientFunds);
    }
    if from != contract && allowance < amount {
        return Err(QuickLendXError::OperationNotAllowed);
    }
    Ok(Some(Transfer { from, to, amount, from_allowance: from != contract }))
}

/// Where escrowed funds stand.
#[derive(Clone, Copy, Debug, PartialEq, Eq, Structural)]
pub enum EscrowStatus {
    Held,
    Released,
    Refunded,
}

/// Funds of `investor` held by the protocol for `invoice_id`.
#[derive(Clone, Copy, Debug, PartialEq, Eq, Structural)]
pub struct Escrow {
    pub escrow_id: u64,
    pub invoice_id: InvoiceId,
    pub investor: Address,
    pub business: Address,
    pub amount: i128,
    pub currency: Address,
    pub created_at: u64,
    pub status: EscrowStatus,
}

/// Position of the latest escrow of `invoice` in `s`, if any.
pub open spec fn latest_for_invoice(s: Seq<Escrow>, invoice: InvoiceId) -> Option<int>
    decreases s.len(),
{
    if s.len() == 0 {
        None
    } else if s.last().invoice_id == invoice {
        Some(s.len() - 1)
    } else {
        latest_for_invoice(s.drop_last(), invoice)
    }
}

/// Position of the escrow with identifier `id` in `s`, if any.
pub open spec fn position_of_id(s: Seq<Escrow>, id: u64) -> Option<int>
    decreases s.len(),
{
    if s.len() == 0 {
        None
    } else if s.last().escrow_id == id {
        Some(s.len() - 1)
    } else {
        position_of_id(s.drop_last(), id)
    }
}

proof fn lemma_latest_for_invoice(s: Seq<Escrow>, invoice: InvoiceId)
    ensures
        latest_for_invoice(s, invoice) matches Some(p) ==> 0 <= p < s.len() && s[p].invoice_id
            == invoice,
        latest_for_invoice(s, invoice) is None ==> forall|k: int|
            0 <= k < s.len() ==> (#[trigger] s[k]).invoice_id != invoice,
    decreases s.len(),
{
    if s.len() > 0 {
        lemma_latest_for_invoice(s.drop_last(), invoice);
        assert forall|k: int| 0 <= k < s.len() - 1 implies #[trigger] s[k] == s.drop_last()[k] by {}
    }
}

proof fn lemma_position_of_id(s: Seq<Escrow>, id: u64)
    ensures
        position_of_id(s, id) matches Some(p) ==> 0 <= p < s.len() && s[p].escrow_id == id,
        position_of_id(s, id) is None ==> forall|k: int|
            0 <= k < s.len() ==> (#[trigger] s[k]).escrow_id != id,
    decreases s.len(),
{
    if s.len() > 0 {
        lemma_position_of_id(s.drop_last(), id);
        assert forall|k: int| 0 <= k < s.len() - 1 implies #[trigger] s[k] == s.drop_last()[k] by {}
    }
}

/// The escrows, in the order they were recorded.
pub struct EscrowStorage {
    escrows: Vec<Escrow>,
    next_id: u128,
}

impl EscrowStorage {
    /// The recorded escrows, in order.
    pub closed spec fn records(&self) -> Seq<Escrow> {
        self.escrows@
    }

    /// Next identifier to hand out.
    pub closed spec fn next_identifier(&self) -> u128 {
        self.next_id
    }

    /// Well-formedness: every identifier is below the next one to hand out,
    /// and no two escrows share one.
    pub open spec fn wf(&self) -> bool {
        &&& forall|i: int|
            0 <= i < self.records().len() ==> (#[trigger] self.records()[i]).escrow_id
                < self.next_identifier()
        &&& forall|i: int, j: int|
            0 <= i < self.records().len() && 0 <= j < self.records().len() && i != j
                ==> (#[trigger] self.records()[i]).escrow_id != (#[trigger] self.records()[j]).escrow_id
    }

    /// No escrows.
    pub fn new() -> (r: Self)
        ensures
            r.wf(),
            r.records() == Seq::<Escrow>::empty(),
            r.next_identifier() == 0,
    {
        EscrowStorage { escrows: Vec::new(), next_id: 0 }
    }

    /// Number of escrows created or stored so far.
    pub fn escrow_count(&self) -> (r: usize)
        ensures
            r == self.records().len(),
    {
        self.escrows.len()
    }

    fn find_latest_for_invoice(&self, invoice_id: InvoiceId) -> (r: Option<usize>)
        ensures
            r matches Some(p) ==> latest_for_invoice(self.records(), invoice_id) == Some(p as int)
                && p < self.records().len() && self.records()[p as int].invoice_id == invoice_id,
            r is None ==> latest_for_invoice(self.records(), invoice_id) is None,
    {
        let mut found: Option<usize> = None;
        let mut i: usize = 0;
        while i < self.escrows.len()
            invariant
                0 <= i <= self.escrows@.len(),
                found matches Some(p) ==> latest_for_invoice(self.escrows@.take(i as int), invoice_id)
                    == Some(p as int),
                found is None ==> latest_for_invoice(self.escrows@.take(i as int), invoice_id) is None,
            decreases self.escrows@.len() - i,
        {
            proof {
                assert(self.escrows@.take(i + 1).drop_last() =~= self.escrows@.take(i as int));
            }
            if self.escrows[i].invoice_id == invoice_id {
                found = Some(i);
            }
            i = i + 1;
        }
        proof {
            assert(self.escrows@.take(i as int) =~= self.escrows@);
            lemma_latest_for_invoice(self.escrows@, invoice_id);
        }
        found
    }

    fn find_id(&self, escrow_id: u64) -> (r: Option<usize>)
        ensures
            r matches Some(p) ==> position_of_id(self.records(), escrow_id) == Some(p as int)
                && p < self.records().len() && self.records()[p as int].escrow_id == escrow_id,
            r is None ==> position_of_id(self.records(), escrow_id) is None,
    {
        let mut found: Option<usize> = None;
        let mut i: usize = 0;
        while i < self.escrows.len()
            invariant
                0 <= i <= self.escrows@.len(),
                found matches Some(p) ==> position_of_id(self.escrows@.take(i as int), escrow_id)
                    == Some(p as int),
                found is None ==> position_of_id(self.escrows@.take(i as int), escrow_id) is None,
            decreases self.escrows@.len() - i,
        {
            proof {
                assert(self.escrows@.take(i + 1).drop_last() =~= self.escrows@.take(i as int));
            }
            if self.escrows[i].escrow_id == escrow_id {
                found = Some(i);
            }
            i = i + 1;
        }
        proof {
            assert(self.escrows@.take(i as int) =~= self.escrows@);
            lemma_position_of_id(self.escrows@, escrow_id);
        }
        found
    }

    /// The escrow with identifier `escrow_id`, if any.
    pub fn get_escrow(&self, escrow_id: u64) -> (r: Option<Escrow>)
        ensures
            match position_of_id(self.records(), escrow_id) {
                Some(p) => r == Some(self.records()[p]),
                None => r is None,
            },
    {
        match self.find_id(escrow_id) {
            Some(p) => Some(self.escrows[p]),
            None => None,
        }
    }

    /// The latest escrow of `invoice_id`, if any.
    pub fn get_escrow_by_invoice(&self, invoice_id: InvoiceId) -> (r: Option<Escrow>)
        ensures
            match latest_for_invoice(self.records(), invoice_id) {
                Some(p) => r == Some(self.records()[p]),
                None => r is None,
            },
    {
        match self.find_latest_for_invoice(invoice_id) {
            Some(p) => Some(self.escrows[p]),
            None => None,
        }
    }

    /// Status of the latest escrow of `invoice_id`; `StorageKeyNotFound`
    /// when it has none.
    pub fn get_escrow_status(&self, invoice_id: InvoiceId) -> (r: Result<EscrowStatus, QuickLendXError>)
        ensures
            match latest_for_invoice(self.records(), invoice_id) {
                Some(p) => r == Ok::<EscrowStatus, QuickLendXError>(self.records()[p].status),
                None => r == Err::<EscrowStatus, QuickLendXError>(
                    QuickLendXError::StorageKeyNotFound,
                ),
            },
    {
        match self.find_latest_for_invoice(invoice_id) {
            Some(p) => Ok(self.escrows[p].status),
            None => Err(QuickLendXError::StorageKeyNotFound),
        }
    }

    /// Records `escrow` as it is: it replaces the escrow with the same
    /// identifier, or is added after the others.
    pub fn store_escrow(&mut self, escrow: Escrow)
        requires
            old(self).wf(),
        ensures
            final(self).wf(),
            match position_of_id(old(self).records(), escrow.escrow_id) {
                Some(p) => final(self).records() == old(self).records().update(p, escrow),
                None => final(self).records() == old(self).records().push(escrow),
            },
    {
        let ghost old_s = self.escrows@;
        proof {
            lemma_position_of_id(old_s, escrow.escrow_id);
        }
        match self.find_id(escrow.escrow_id) {
            Some(p) => {
                self.escrows.set(p, escrow);
                proof {
                    let s = self.escrows@;
                    assert forall|k: int| 0 <= k < s.len() implies (#[trigger] s[k]).escrow_id
                        < self.next_id by {
                        if k != p {
                            assert(s[k] == old_s[k]);
                        }
                    }
                    assert forall|a: int, b: int|
                        0 <= a < s.len() && 0 <= b < s.len() && a != b implies (
                    #[trigger] s[a]).escrow_id != (#[trigger] s[b]).escrow_id by {
                        assert(s[a].escrow_id == old_s[a].escrow_id);
                        assert(s[b].escrow_id == old_s[b].escrow_id);
                    }
                }
            },
            None => {
                self.escrows.push(escrow);
                if (escrow.escrow_id as u128) >= self.next_id {
                    self.next_id = escrow.escrow_id as u128 + 1;
                }
                proof {
                    let s = self.escrows@;
                    assert forall|k: int| 0 <= k < s.len() implies (#[trigger] s[k]).escrow_id
                        < self.next_id by {
                        if k < old_s.len() {
                            assert(s[k] == old_s[k]);
                        }
                    }
                    assert forall|a: int, b: int|
                        0 <= a < s.len() && 0 <= b < s.len() && a != b implies (
                    #[trigger] s[a]).escrow_id != (#[trigger] s[b]).escrow_id by {
                        if a < old_s.len() {
                            assert(s[a] == old_s[a]);
                        }
                        if b < old_s.len() {
                            assert(s[b] == old_s[b]);
                        }
                    }
                }
            },
        }
    }
}

/// The escrow `create_escrow` records for `invoice_id` under identifier `id`.
pub open spec fn new_escrow(
    id: u64,
    invoice_id: InvoiceId,
    investor: Address,
    business: Address,
    amount: i128,
    currency: Address,
    now: u64,
) -> Escrow {
    Escrow {
        escrow_id: id,
        invoice_id,
        investor,
        business,
        amount,
        currency,
        created_at: now,
        status: EscrowStatus::Held,
    }
}

/// Moves `amount` of `currency` from `investor` into escrow with the
/// protocol `contract` for `invoice_id`, given the investor's `balance` and
/// the `allowance` it gave the protocol; returns the new escrow's
/// identifier and the transfer to perform. Fails as `transfer_funds` does,
/// then with `OperationNotAllowed` when identifiers are exhausted; nothing
/// is recorded on failure.
pub fn create_escrow(
    storage: &mut EscrowStorage,
    contract: Address,
    invoice_id: InvoiceId,
    investor: Address,
    business: Address,
    amount: i128,
    currency: Address,
    balance: i128,
    allowance: i128,
    now: u64,
) -> (r: Result<(u64, Option<Transfer>), QuickLendXError>)
    requires
        old(storage).wf(),
    ensures
        final(storage).wf(),
        ({
            let err = transfer_error(contract, investor, contract, amount, balance, allowance);
            let id = old(storage).next_identifier();
            &&& err matches Some(e) ==> r == Err::<(u64, Option<Transfer>), QuickLendXError>(e)
            &&& err is None && id > u64::MAX ==> r == Err::<(u64, Option<Transfer>), QuickLendXError>(
                QuickLendXError::OperationNotAllowed,
            )
            &&& r is Err ==> final(storage).records() == old(storage).records()
                && final(storage).next_identifier() == id
            &&& err is None && id <= u64::MAX ==> {
                &&& r == Ok::<(u64, Option<Transfer>), QuickLendXError>(
                    (
                        id as u64,
                        if investor == contract {
                            None
                        } else {
                            Some(transfer_of(contract, investor, contract, amount))
                        },
                    ),
                )
                &&& final(storage).records() == old(storage).records().push(
                    new_escrow(id as u64, invoice_id, investor, business, amount, currency, now),
                )
                &&& final(storage).next_identifier() == id + 1
            }
        }),
{
    let transfer = transfer_funds(contract, investor, contract, amount, balance, allowance)?;
    if storage.next_id > u64::MAX as u128 {
        return Err(QuickLendXError::OperationNotAllowed);
    }
    let id = storage.next_id as u64;
    let ghost old_s = storage.escrows@;
    storage.escrows.push(
        Escrow {
            escrow_id: id,
            invoice_id,
            investor,
            business,
            amount,
            currency,
            created_at: now,
            status: EscrowStatus::Held,
        },
    );
    storage.next_id = storage.next_id + 1;
    proof {
        let s = storage.escrows@;
        assert forall|k: int| 0 <= k < s.len() implies (#[trigger] s[k]).escrow_id
            < storage.next_id by {
            if k < old_s.len() {
                assert(s[k] == old_s[k]);
            }
        }
        assert forall|a: int, b: int|
            0 <= a < s.len() && 0 <= b < s.len() && a != b implies (#[trigger] s[a]).escrow_id != (
        #[trigger] s[b]).escrow_id by {
            if a < old_s.len() {
                assert(s[a] == old_s[a]);
            }
            if b < old_s.len() {
                assert(s[b] == old_s[b]);
            }
        }
    }
    Ok((id, transfer))
}

/// Why paying out the latest escrow of `invoice` to `to` is refused, if it
/// is: no escrow, an escrow no longer held, then as `transfer_error` for the
/// protocol sending its own funds (`contract_balance`).
pub open spec fn payout_error(
    s: Seq<Escrow>,
    invoice: InvoiceId,
    contract: Address,
    to: Address,
    contract_balance: i128,
) -> Option<QuickLendXError> {
    match latest_for_invoice(s, invoice) {
        None => Some(QuickLendXError::StorageKeyNotFound),
        Some(p) => if s[p].status != EscrowStatus::Held {
            Some(QuickLendXError::InvalidStatus)
        } else {
            transfer_error(contract, contract, to, s[p].amount, contract_balance, 0)
        },
    }
}

/// Changing a field other than the invoice of an escrow keeps which escrow
/// is the latest of each invoice.
proof fn lemma_latest_for_invoice_update(s: Seq<Escrow>, p: int, e: Escrow, invoice: InvoiceId)
    requires
        0 <= p < s.len(),
        e.invoice_id == s[p].invoice_id,
    ensures
        latest_for_invoice(s.update(p, e), invoice) == latest_for_invoice(s, invoice),
    decreases s.len(),
{
    if p < s.len() - 1 {
        assert(s.update(p, e).drop_last() =~= s.drop_last().update(p, e));
        lemma_latest_for_invoice_update(s.drop_last(), p, e, invoice);
    } else {
        assert(s.update(p, e).drop_last() =~= s.drop_last());
    }
}

/// Escrowed funds leave at most once: once the latest escrow of an invoice
/// has been released or refunded, every further release or refund of that
/// invoice is refused with `InvalidStatus`.
pub proof fn lemma_escrow_pays_out_once(
    s: Seq<Escrow>,
    invoice: InvoiceId,
    settled: EscrowStatus,
    contract: Address,
    to: Address,
    contract_balance: i128,
)
    requires
        latest_for_invoice(s, invoice) is Some,
        settled != EscrowStatus::Held,
    ensures
        ({
            let p = latest_for_invoice(s, invoice)->0;
            payout_error(
                s.update(p, Escrow { status: settled, ..s[p] }),
                invoice,
                contract,
                to,
                contract_balance,
            ) == Some(QuickLendXError::InvalidStatus)
        }),
{
    let p = latest_for_invoice(s, invoice)->0;
    lemma_latest_for_invoice(s, invoice);
    lemma_latest_for_invoice_update(s, p, Escrow { status: settled, ..s[p] }, invoice);
}

impl EscrowStorage {
    /// Pays the latest held escrow of `invoice_id` out to its business
    /// (`to_business`) or back to its investor, and marks it released or
    /// refunded accordingly.
    fn pay_out(
        &mut self,
        contract: Address,
        invoice_id: InvoiceId,
        contract_balance: i128,
        to_business: bool,
    ) -> (r: Result<Option<Transfer>, QuickLendXError>)
        requires
            old(self).wf(),
        ensures
            final(self).wf(),
            final(self).next_identifier() == old(self).next_identifier(),
            ({
                let s = old(self).records();
                match latest_for_invoice(s, invoice_id) {
                    None => r == Err::<Option<Transfer>, QuickLendXError>(
                        QuickLendXError::StorageKeyNotFound,
                    ) && final(self).records() == s,
                    Some(p) => {
                        let e = s[p];
                        let to = if to_business {
                            e.business
                        } else {
                            e.investor
                        };
                        match payout_error(s, invoice_id, contract, to, contract_balance) {
                            Some(err) => r == Err::<Option<Transfer>, QuickLendXError>(err)
                                && final(self).records() == s,
                            None => {
                                &&& r == Ok::<Option<Transfer>, QuickLendXError>(
                                    if contract == to {
                                        None
                                    } else {
                                        Some(transfer_of(contract, contract, to, e.amount))
                                    },
                                )
                                &&& final(self).records() == s.update(
                                    p,
                                    Escrow {
                                        status: if to_business {
                                            EscrowStatus::Released
                                        } else {
                                            EscrowStatus::Refunded
                                        },
                                        ..e
                                    },
                                )
                            },
                        }
                    },
                }
            }),
    {
        let p = match self.find_latest_for_invoice(invoice_id) {
            Some(p) => p,
            None => {
                return Err(QuickLendXError::StorageKeyNotFound);
            },
        };
        let e = self.escrows[p];
        if e.status != EscrowStatus::Held {
            return Err(QuickLendXError::InvalidStatus);
        }
        let to = if to_business {
            e.business
        } else {
            e.investor
        };
        let transfer = transfer_funds(contract, contract, to, e.amount, contract_balance, 0)?;
        let ghost old_s = self.escrows@;
        let status = if to_business {
            EscrowStatus::Released
        } else {
            EscrowStatus::Refunded
        };
        self.escrows.set(p, Escrow { status, ..e });
        proof {
            let s = self.escrows@;
            assert forall|k: int| 0 <= k < s.len() implies (#[trigger] s[k]).escrow_id
                < self.next_id by {
                assert(s[k].escrow_id == old_s[k].escrow_id);
            }
            assert forall|a: int, b: int|
                0 <= a < s.len() && 0 <= b < s.len() && a != b implies (
            #[trigger] s[a]).escrow_id != (#[trigger] s[b]).escrow_id by {
                assert(s[a].escrow_id == old_s[a].escrow_id);
                assert(s[b].escrow_id == old_s[b].escrow_id);
            }
        }
        Ok(transfer)
    }
}

/// Releases the latest escrow of `invoice_id` to its business: fails as
/// `payout_error` says (the protocol holding `contract_balance`), changing
/// nothing; otherwise marks it released and returns the transfer to perform.
pub fn release_escrow(
    storage: &mut EscrowStorage,
    contract: Address,
    invoice_id: InvoiceId,
    contract_balance: i128,
) -> (r: Result<Option<Transfer>, QuickLendXError>)
    requires
        old(storage).wf(),
    ensures
        final(storage).wf(),
        final(storage).next_identifier() == old(storage).next_identifier(),
        ({
            let s = old(storage).records();
            match latest_for_invoice(s, invoice_id) {
                None => r == Err::<Option<Transfer>, QuickLendXError>(
                    QuickLendXError::StorageKeyNotFound,
                ) && final(storage).records() == s,
                Some(p) => match payout_error(s, invoice_id, contract, s[p].business, contract_balance) {
                    Some(err) => r == Err::<Option<Transfer>, QuickLendXError>(err)
                        && final(storage).records() == s,
                    None => {
                        &&& r == Ok::<Option<Transfer>, QuickLendXError>(
                            if contract == s[p].business {
                                None
                            } else {
                                Some(transfer_of(contract, contract, s[p].business, s[p].amount))
                            },
                        )
                        &&& final(storage).records() == s.update(
                            p,
                            Escrow { status: EscrowStatus::Released, ..s[p] },
                        )
                    },
                },
            }
        }),
{
    storage.pay_out(contract, invoice_id, contract_balance, true)
}

/// Refunds the latest escrow of `invoice_id` to its investor: fails as
/// `payout_error` says (the protocol holding `contract_balance`), changing
/// nothing; otherwise marks it refunded and returns the transfer to perform.
pub fn refund_escrow(
    storage: &mut EscrowStorage,
    contract: Address,
    invoice_id: InvoiceId,
    contract_balance: i128,
) -> (r: Result<Option<Transfer>, QuickLendXError>)
    requires
        old(storage).wf(),
    ensures
        final(storage).wf(),
        final(storage).next_identifier() == old(storage).next_identifier(),
        ({
            let s = old(storage).records();
            match latest_for_invoice(s, invoice_id) {
                None => r == Err::<Option<Transfer>, QuickLendXError>(
                    QuickLendXError::StorageKeyNotFound,
                ) && final(storage).records() == s,
                Some(p) => match payout_error(s, invoice_id, contract, s[p].investor, contract_balance) {
                    Some(err) => r == Err::<Option<Transfer>, QuickLendXError>(err)
                        && final(storage).records() == s,
                    None => {
                        &&& r == Ok::<Option<Transfer>, QuickLendXError>(
                            if contract == s[p].investor {
                                None
                            } else {
                                Some(transfer_of(contract, contract, s[p].investor, s[p].amount))
                            },
                        )
                        &&& final(storage).records() == s.update(
                            p,
                            Escrow { status: EscrowStatus::Refunded, ..s[p] },
                        )
                    },
                },
            }
        }),
{
    storage.pay_out(contract, invoice_id, contract_balance, false)
}

} // verus!
