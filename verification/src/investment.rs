//! Investments: lifecycle status, insurance premiums and coverage bookkeeping.
use vstd::prelude::*;

use crate::errors::QuickLendXError;
use crate::invoice_id::InvoiceId;
use crate::math::{saturating_mul_nonneg, saturating_product};
use crate::Address;

verus! {

/// Premium charged on the covered amount, in basis points (2 %).
pub const DEFAULT_INSURANCE_PREMIUM_BPS: i128 = 200;

/// Smallest coverage percentage a policy may have.
pub const MIN_COVERAGE_PERCENTAGE: u32 = 1;

/// Largest coverage percentage a single policy may have.
pub const MAX_COVERAGE_PERCENTAGE: u32 = 100;

/// Cap on the summed percentage of all active policies of one investment.
pub const MAX_TOTAL_COVERAGE_PERCENTAGE: u32 = 100;

/// Smallest premium charged when the covered amount is positive.
pub const MIN_PREMIUM_AMOUNT: i128 = 1;

/// Lifecycle status of an investment.
#[derive(Clone, Copy, Debug, PartialEq, Eq, Structural)]
pub enum InvestmentStatus {
    Active,
    Completed,
    Defaulted,
    Refunded,
    Withdrawn,
}

/// The only moves an investment may make: from `Active` to one of the four
/// terminal states.
pub open spec fn transition_allowed(from: InvestmentStatus, to: InvestmentStatus) -> bool {
    from == InvestmentStatus::Active && to != InvestmentStatus::Active
}

impl InvestmentStatus {
    /// Whether the status is terminal (every status but `Active`).
    pub fn is_terminal(&self) -> (r: bool)
        ensures
            r == (*self != InvestmentStatus::Active),
    {
        !matches!(self, InvestmentStatus::Active)
    }

    /// Checks that an investment may move from `from` to `to`.
    pub fn validate_transition(from: &InvestmentStatus, to: &InvestmentStatus) -> (r: Result<
        (),
        QuickLendXError,
    >)
        ensures
            r is Ok <==> transition_allowed(*from, *to),
            r is Err ==> r == Err::<(), QuickLendXError>(QuickLendXError::InvalidStatus),
    {
        match (from, to) {
            (InvestmentStatus::Active, InvestmentStatus::Completed)
            | (InvestmentStatus::Active, InvestmentStatus::Defaulted)
            | (InvestmentStatus::Active, InvestmentStatus::Refunded)
            | (InvestmentStatus::Active, InvestmentStatus::Withdrawn) => Ok(()),
            _ => Err(QuickLendXError::InvalidStatus),
        }
    }
}

/// Amount covered by a policy of `pct` percent on `amount`.
pub open spec fn coverage_amount_of(amount: int, pct: int) -> int {
    saturating_product(amount, pct) / 100
}

/// Premium owed for a policy of `pct` percent on `amount`; zero when the
/// inputs are out of range or nothing would be covered.
pub open spec fn premium_of(amount: int, pct: int) -> int {
    if amount <= 0 || pct < MIN_COVERAGE_PERCENTAGE || pct > MAX_COVERAGE_PERCENTAGE {
        0
    } else {
        let coverage = coverage_amount_of(amount, pct);
        let raw = saturating_product(coverage, DEFAULT_INSURANCE_PREMIUM_BPS as int) / 10_000;
        if coverage <= 0 {
            0
        } else if raw < MIN_PREMIUM_AMOUNT {
            MIN_PREMIUM_AMOUNT as int
        } else {
            raw
        }
    }
}

/// One insurance policy attached to an investment.
#[derive(Clone, Copy, Debug, PartialEq, Eq, Structural)]
pub struct InsuranceCoverage {
    pub provider: Address,
    pub coverage_amount: i128,
    pub premium_amount: i128,
    pub coverage_percentage: u32,
    pub active: bool,
}

/// Summed percentage of the active policies in `s`.
pub open spec fn active_coverage_total(s: Seq<InsuranceCoverage>) -> int
    decreases s.len(),
{
    if s.len() == 0 {
        0
    } else {
        active_coverage_total(s.drop_last()) + if s.last().active {
            s.last().coverage_percentage as int
        } else {
            0
        }
    }
}

/// Whether some policy in `s` is active.
pub open spec fn any_active(s: Seq<InsuranceCoverage>) -> bool {
    exists|i: int| 0 <= i < s.len() && #[trigger] s[i].active
}

/// Claims paid out by the active policies of `s`, in order.
pub open spec fn active_claims(s: Seq<InsuranceCoverage>) -> Seq<(Address, i128)>
    decreases s.len(),
{
    if s.len() == 0 {
        Seq::empty()
    } else if s.last().active {
        active_claims(s.drop_last()).push((s.last().provider, s.last().coverage_amount))
    } else {
        active_claims(s.drop_last())
    }
}

/// `s` with every policy marked inactive.
pub open spec fn all_deactivated(s: Seq<InsuranceCoverage>) -> Seq<InsuranceCoverage> {
    s.map_values(|c: InsuranceCoverage| InsuranceCoverage { active: false, ..c })
}

/// Error for attaching a policy of `pct` percent for `premium` to `inv`, if
/// any, in the order checked: `InvalidStatus` unless `inv` is `Active`,
/// `InvalidCoveragePercentage` for a percentage outside `1..=100`,
/// `InvalidAmount` when the amount, the covered amount or the premium is not
/// positive or the premium exceeds the covered amount, and
/// `OperationNotAllowed` when the active policies would cover more than
/// 100 % together.
pub open spec fn add_insurance_error(inv: Investment, pct: int, premium: int) -> Option<QuickLendXError> {
    let coverage = coverage_amount_of(inv.amount as int, pct);
    if inv.status != InvestmentStatus::Active {
        Some(QuickLendXError::InvalidStatus)
    } else if pct < MIN_COVERAGE_PERCENTAGE || pct > MAX_COVERAGE_PERCENTAGE {
        Some(QuickLendXError::InvalidCoveragePercentage)
    } else if inv.amount <= 0 || coverage <= 0 || premium <= 0 || premium > coverage {
        Some(QuickLendXError::InvalidAmount)
    } else if active_coverage_total(inv.insurance@) + pct > MAX_TOTAL_COVERAGE_PERCENTAGE {
        Some(QuickLendXError::OperationNotAllowed)
    } else {
        None
    }
}

/// The active policy from `provider` of `pct` percent of `inv` for
/// `premium`.
pub open spec fn new_policy(inv: Investment, provider: Address, pct: u32, premium: i128) -> InsuranceCoverage {
    InsuranceCoverage {
        provider,
        coverage_amount: coverage_amount_of(inv.amount as int, pct as int) as i128,
        premium_amount: premium,
        coverage_percentage: pct,
        active: true,
    }
}

/// Whether `a` and `b` agree on everything but their policies.
pub open spec fn same_except_insurance(a: Investment, b: Investment) -> bool {
    &&& a.investment_id == b.investment_id
    &&& a.invoice_id == b.invoice_id
    &&& a.investor == b.investor
    &&& a.amount == b.amount
    &&& a.funded_at == b.funded_at
    &&& a.status == b.status
}

/// An investment made by an investor into a funded invoice.
#[derive(Clone, Debug)]
pub struct Investment {
    pub investment_id: u64,
    pub invoice_id: InvoiceId,
    pub investor: Address,
    pub amount: i128,
    pub funded_at: u64,
    pub status: InvestmentStatus,
    pub insurance: Vec<InsuranceCoverage>,
}

impl Investment {
    /// Premium for a policy of `coverage_percentage` percent on `amount`:
    /// 2 % of the covered amount, at least 1 when something is covered, and 0
    /// for a non-positive amount or a percentage outside `1..=100`.
    pub fn calculate_premium(amount: i128, coverage_percentage: u32) -> (r: i128)
        ensures
            r == premium_of(amount as int, coverage_percentage as int),
            r >= 0,
    {
        if amount <= 0 || coverage_percentage < MIN_COVERAGE_PERCENTAGE || coverage_percentage
            > MAX_COVERAGE_PERCENTAGE {
            return 0;
        }
        let product = saturating_mul_nonneg(amount, coverage_percentage as i128);
        let coverage = product / 100;
        if coverage <= 0 {
            return 0;
        }
        let raw = saturating_mul_nonneg(coverage, DEFAULT_INSURANCE_PREMIUM_BPS) / 10_000;
        if raw < MIN_PREMIUM_AMOUNT {
            MIN_PREMIUM_AMOUNT
        } else {
            raw
        }
    }

    /// Amount covered by a policy of `coverage_percentage` percent on
    /// `amount` (non-negative inputs).
    pub fn calculate_coverage_amount(amount: i128, coverage_percentage: u32) -> (r: i128)
        requires
            amount >= 0,
        ensures
            r == coverage_amount_of(amount as int, coverage_percentage as int),
            0 <= r,
            coverage_percentage <= 100 ==> r <= amount,
    {
        let product = saturating_mul_nonneg(amount, coverage_percentage as i128);
        proof {
            lemma_coverage_bounds(amount as int, coverage_percentage as int);
        }
        product / 100
    }

    /// Summed percentage of the active policies, saturated at `u32::MAX`.
    pub fn total_active_coverage_percentage(&self) -> (r: u32)
        ensures
            r == if active_coverage_total(self.insurance@) > u32::MAX {
                u32::MAX as int
            } else {
                active_coverage_total(self.insurance@)
            },
    {
        let mut acc: u32 = 0;
        let mut i: usize = 0;
        while i < self.insurance.len()
            invariant
                0 <= i <= self.insurance.len(),
                acc == if active_coverage_total(self.insurance@.take(i as int)) > u32::MAX {
                    u32::MAX as int
                } else {
                    active_coverage_total(self.insurance@.take(i as int))
                },
            decreases self.insurance.len() - i,
        {
            let c = self.insurance[i];
            proof {
                assert(self.insurance@.take(i + 1).drop_last() =~= self.insurance@.take(i as int));
                lemma_active_total_nonneg(self.insurance@.take(i as int));
            }
            if c.active {
                let next: u64 = acc as u64 + c.coverage_percentage as u64;
                acc = if next > u32::MAX as u64 {
                    u32::MAX
                } else {
                    next as u32
                };
            }
            i = i + 1;
        }
        proof {
            assert(self.insurance@.take(i as int) =~= self.insurance@);
        }
        acc
    }

    /// Attaches a policy from `provider` covering `coverage_percentage`
    /// percent of the investment for `premium`.
    ///
    /// Fails with `InvalidStatus` unless the investment is `Active`, with
    /// `InvalidCoveragePercentage` for a percentage outside `1..=100`, with
    /// `InvalidAmount` when the amount, the covered amount or the premium is
    /// not positive or the premium exceeds the covered amount, and with
    /// `OperationNotAllowed` when the active policies would cover more than
    /// 100 % together. On success the policy is appended and its covered
    /// amount returned.
    pub fn add_insurance(&mut self, provider: Address, coverage_percentage: u32, premium: i128) -> (r:
        Result<i128, QuickLendXError>)
        ensures
            ({
                let coverage = coverage_amount_of(old(self).amount as int, coverage_percentage as int);
                &&& old(self).status != InvestmentStatus::Active ==> r == Err::<i128, QuickLendXError>(
                    QuickLendXError::InvalidStatus,
                )
                &&& old(self).status == InvestmentStatus::Active && (coverage_percentage
                    < MIN_COVERAGE_PERCENTAGE || coverage_percentage > MAX_COVERAGE_PERCENTAGE)
                    ==> r == Err::<i128, QuickLendXError>(
                    QuickLendXError::InvalidCoveragePercentage,
                )
                &&& old(self).status == InvestmentStatus::Active && MIN_COVERAGE_PERCENTAGE
                    <= coverage_percentage <= MAX_COVERAGE_PERCENTAGE && (old(self).amount <= 0
                    || coverage <= 0 || premium <= 0 || premium > coverage) ==> r == Err::<
                    i128,
                    QuickLendXError,
                >(QuickLendXError::InvalidAmount)
                &&& old(self).status == InvestmentStatus::Active && MIN_COVERAGE_PERCENTAGE
                    <= coverage_percentage <= MAX_COVERAGE_PERCENTAGE && old(self).amount > 0
                    && 0 < premium <= coverage && active_coverage_total(old(self).insurance@)
                    + coverage_percentage > MAX_TOTAL_COVERAGE_PERCENTAGE ==> r == Err::<
                    i128,
                    QuickLendXError,
                >(QuickLendXError::OperationNotAllowed)
                &&& r is Ok <==> (old(self).status == InvestmentStatus::Active
                    && MIN_COVERAGE_PERCENTAGE <= coverage_percentage <= MAX_COVERAGE_PERCENTAGE
                    && old(self).amount > 0 && 0 < premium <= coverage && active_coverage_total(
                    old(self).insurance@,
                ) + coverage_percentage <= MAX_TOTAL_COVERAGE_PERCENTAGE)
                &&& r is Ok ==> r == Ok::<i128, QuickLendXError>(coverage as i128)
                    && final(self).insurance@ == old(self).insurance@.push(
                    InsuranceCoverage {
                        provider,
                        coverage_amount: coverage as i128,
                        premium_amount: premium,
                        coverage_percentage,
                        active: true,
                    },
                )
                &&& r is Err ==> final(self).insurance@ == old(self).insurance@
            }),
            match add_insurance_error(*old(self), coverage_percentage as int, premium as int) {
                Some(e) => r == Err::<i128, QuickLendXError>(e),
                None => r == Ok::<i128, QuickLendXError>(
                    coverage_amount_of(old(self).amount as int, coverage_percentage as int) as i128,
                ) && final(self).insurance@ == old(self).insurance@.push(
                    new_policy(*old(self), provider, coverage_percentage, premium),
                ),
            },
            active_coverage_total(old(self).insurance@) <= MAX_TOTAL_COVERAGE_PERCENTAGE
                ==> active_coverage_total(final(self).insurance@) <= MAX_TOTAL_COVERAGE_PERCENTAGE,
            final(self).investment_id == old(self).investment_id,
            final(self).invoice_id == old(self).invoice_id,
            final(self).investor == old(self).investor,
            final(self).amount == old(self).amount,
            final(self).funded_at == old(self).funded_at,
            final(self).status == old(self).status,
    {
        if self.status != InvestmentStatus::Active {
            return Err(QuickLendXError::InvalidStatus);
        }
        if coverage_percentage < MIN_COVERAGE_PERCENTAGE || coverage_percentage
            > MAX_COVERAGE_PERCENTAGE {
            return Err(QuickLendXError::InvalidCoveragePercentage);
        }
        if self.amount <= 0 {
            return Err(QuickLendXError::InvalidAmount);
        }
        let coverage = Self::calculate_coverage_amount(self.amount, coverage_percentage);
        if coverage <= 0 || premium <= 0 || premium > coverage {
            return Err(QuickLendXError::InvalidAmount);
        }
        let active = self.total_active_coverage_percentage();
        if active as u64 + coverage_percentage as u64 > MAX_TOTAL_COVERAGE_PERCENTAGE as u64 {
            return Err(QuickLendXError::OperationNotAllowed);
        }
        self.insurance.push(
            InsuranceCoverage {
                provider,
                coverage_amount: coverage,
                premium_amount: premium,
                coverage_percentage,
                active: true,
            },
        );
        proof {
            assert(self.insurance@.drop_last() =~= old(self).insurance@);
        }
        Ok(coverage)
    }

    /// Whether some policy of the investment is active.
    pub fn has_active_insurance(&self) -> (r: bool)
        ensures
            r == any_active(self.insurance@),
    {
        let mut i: usize = 0;
        while i < self.insurance.len()
            invariant
                0 <= i <= self.insurance.len(),
                forall|j: int| 0 <= j < i ==> !(#[trigger] self.insurance@[j]).active,
            decreases self.insurance.len() - i,
        {
            if self.insurance[i].active {
                return true;
            }
            i = i + 1;
        }
        false
    }

    /// Pays out the first active policy: marks it inactive and returns its
    /// provider and covered amount; `None` when no policy is active.
    pub fn process_insurance_claim(&mut self) -> (r: Option<(Address, i128)>)
        ensures
            !any_active(old(self).insurance@) ==> r is None && final(self).insurance@
                == old(self).insurance@,
            any_active(old(self).insurance@) ==> exists|k: int|
                {
                    &&& 0 <= k < old(self).insurance@.len()
                    &&& old(self).insurance@[k].active
                    &&& forall|j: int| 0 <= j < k ==> !(#[trigger] old(self).insurance@[j]).active
                    &&& r == Some((old(self).insurance@[k].provider, old(self).insurance@[k].coverage_amount))
                    &&& final(self).insurance@ == old(self).insurance@.update(
                        k,
                        InsuranceCoverage { active: false, ..old(self).insurance@[k] },
                    )
                },
            active_coverage_total(final(self).insurance@) <= active_coverage_total(
                old(self).insurance@,
            ),
            final(self).investment_id == old(self).investment_id,
            final(self).invoice_id == old(self).invoice_id,
            final(self).investor == old(self).investor,
            final(self).amount == old(self).amount,
            final(self).funded_at == old(self).funded_at,
            final(self).status == old(self).status,
    {
        let mut i: usize = 0;
        while i < self.insurance.len()
            invariant
                0 <= i <= self.insurance.len(),
                self.insurance@ == old(self).insurance@,
                self.investment_id == old(self).investment_id,
                self.invoice_id == old(self).invoice_id,
                self.investor == old(self).investor,
                self.amount == old(self).amount,
                self.funded_at == old(self).funded_at,
                self.status == old(self).status,
                forall|j: int| 0 <= j < i ==> !(#[trigger] self.insurance@[j]).active,
            decreases self.insurance.len() - i,
        {
            let c = self.insurance[i];
            if c.active {
                let updated = InsuranceCoverage { active: false, ..c };
                self.insurance.set(i, updated);
                proof {
                    lemma_deactivate_one(old(self).insurance@, i as int);
                }
                return Some((c.provider, c.coverage_amount));
            }
            i = i + 1;
        }
        None
    }

    /// Pays out every active policy, in order: marks all policies inactive
    /// and returns the provider and covered amount of each that was active.
    pub fn process_all_insurance_claims(&mut self) -> (r: Vec<(Address, i128)>)
        ensures
            r@ == active_claims(old(self).insurance@),
            final(self).insurance@ == all_deactivated(old(self).insurance@),
            !any_active(final(self).insurance@),
            active_coverage_total(final(self).insurance@) == 0,
            final(self).investment_id == old(self).investment_id,
            final(self).invoice_id == old(self).invoice_id,
            final(self).investor == old(self).investor,
            final(self).amount == old(self).amount,
            final(self).funded_at == old(self).funded_at,
            final(self).status == old(self).status,
    {
        let mut claims: Vec<(Address, i128)> = Vec::new();
        let mut i: usize = 0;
        while i < self.insurance.len()
            invariant
                0 <= i <= self.insurance.len(),
                self.insurance@.len() == old(self).insurance@.len(),
                forall|j: int|
                    0 <= j < i ==> #[trigger] self.insurance@[j] == (InsuranceCoverage {
                        active: false,
                        ..old(self).insurance@[j]
                    }),
                forall|j: int|
                    i <= j < self.insurance@.len() ==> #[trigger] self.insurance@[j]
                        == old(self).insurance@[j],
                claims@ == active_claims(old(self).insurance@.take(i as int)),
                self.investment_id == old(self).investment_id,
                self.invoice_id == old(self).invoice_id,
                self.investor == old(self).investor,
                self.amount == old(self).amount,
                self.funded_at == old(self).funded_at,
                self.status == old(self).status,
            decreases self.insurance.len() - i,
        {
            let c = self.insurance[i];
            proof {
                assert(old(self).insurance@.take(i + 1).drop_last() =~= old(self).insurance@.take(
                    i as int,
                ));
            }
            if c.active {
                claims.push((c.provider, c.coverage_amount));
            }
            let updated = InsuranceCoverage { active: false, ..c };
            self.insurance.set(i, updated);
            i = i + 1;
        }
        proof {
            assert(old(self).insurance@.take(i as int) =~= old(self).insurance@);
            assert(self.insurance@ =~= all_deactivated(old(self).insurance@));
            lemma_all_deactivated_total(old(self).insurance@);
        }
        claims
    }
}

proof fn lemma_coverage_bounds(amount: int, pct: int)
    requires
        amount >= 0,
        0 <= pct <= u32::MAX,
    ensures
        0 <= coverage_amount_of(amount, pct),
        amount <= i128::MAX ==> pct <= 100 ==> coverage_amount_of(amount, pct) <= amount,
        amount <= i128::MAX ==> coverage_amount_of(amount, pct) <= i128::MAX,
{
    assert(amount * pct >= 0) by (nonlinear_arith)
        requires
            amount >= 0,
            pct >= 0,
    ;
    if amount <= i128::MAX && pct <= 100 {
        assert(amount * pct <= amount * 100) by (nonlinear_arith)
            requires
                amount >= 0,
                pct <= 100,
        ;
        if saturating_product(amount, pct) == amount * pct {
            assert((amount * pct) / 100 <= amount) by (nonlinear_arith)
                requires
                    amount >= 0,
                    amount * pct <= amount * 100,
            ;
        } else {
            assert(i128::MAX as int / 100 <= amount) by (nonlinear_arith)
                requires
                    amount * pct > i128::MAX,
                    amount * pct <= amount * 100,
            ;
        }
    }
}

proof fn lemma_active_total_nonneg(s: Seq<InsuranceCoverage>)
    ensures
        active_coverage_total(s) >= 0,
    decreases s.len(),
{
    if s.len() > 0 {
        lemma_active_total_nonneg(s.drop_last());
    }
}

/// Marking one policy inactive never raises the active coverage.
proof fn lemma_deactivate_one(s: Seq<InsuranceCoverage>, k: int)
    requires
        0 <= k < s.len(),
    ensures
        active_coverage_total(s.update(k, InsuranceCoverage { active: false, ..s[k] }))
            <= active_coverage_total(s),
    decreases s.len(),
{
    let x = InsuranceCoverage { active: false, ..s[k] };
    if k == s.len() - 1 {
        assert(s.update(k, x).drop_last() =~= s.drop_last());
    } else {
        assert(s.update(k, x).drop_last() =~= s.drop_last().update(k, x));
        lemma_deactivate_one(s.drop_last(), k);
    }
}

/// With every policy inactive nothing is covered.
proof fn lemma_all_deactivated_total(s: Seq<InsuranceCoverage>)
    ensures
        active_coverage_total(all_deactivated(s)) == 0,
    decreases s.len(),
{
    if s.len() > 0 {
        assert(all_deactivated(s).drop_last() =~= all_deactivated(s.drop_last()));
        lemma_all_deactivated_total(s.drop_last());
    }
}

/// For a positive amount and a percentage in `1..=100`, the premium never
/// exceeds the covered amount and the covered amount never exceeds the
/// investment.
pub proof fn lemma_premium_within_coverage(amount: int, pct: int)
    requires
        0 < amount <= i128::MAX,
        MIN_COVERAGE_PERCENTAGE <= pct <= MAX_COVERAGE_PERCENTAGE,
    ensures
        0 <= premium_of(amount, pct) <= coverage_amount_of(amount, pct) <= amount,
{
    lemma_coverage_bounds(amount, pct);
    let coverage = coverage_amount_of(amount, pct);
    if coverage > 0 {
        if coverage * 200 <= i128::MAX {
            assert(0 <= coverage * 200 / 10_000 <= coverage) by (nonlinear_arith)
                requires
                    coverage > 0,
            ;
        } else {
            assert(i128::MAX / 10_000 <= coverage) by (nonlinear_arith)
                requires
                    coverage * 200 > i128::MAX,
            ;
        }
    }
}

} // verus!
