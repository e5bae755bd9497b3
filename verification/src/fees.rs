//! Fee schedule: fee structures, volume tiers, transaction fees, the platform
//! fee on profit, and the revenue split.
use vstd::prelude::*;

use crate::errors::QuickLendXError;
use crate::Address;
use std::collections::HashMap;
use crate::math::{
    apply_discount, discounted, lemma_discounted_antitone_in_bps, lemma_discounted_bounds,
    lemma_discounted_monotone_in_value, saturating_mul_nonneg, saturating_product,
};

verus! {

/// Basis points in a whole.
pub const BPS_DENOMINATOR: i128 = 10_000;

/// Highest base rate a fee structure may charge (10 %).
pub const MAX_FEE_BPS: u32 = 1_000;

/// Highest maximum a fee structure may have.
pub const MAX_FEE_AMOUNT: i128 = 10_000_000_000_000;

/// Highest minimum a single fee structure may have.
pub const MAX_MIN_FEE: i128 = 1_000_000_000_000;

/// Cap on the summed minimum fees of the active structures.
pub const MAX_TOTAL_MIN_FEES: i128 = 2_500_000_000_000;

/// Reduction of the platform fee for an early payment (10 %).
pub const EARLY_PAYMENT_DISCOUNT_BPS: i128 = 1_000;

/// Surcharge on the late-payment fee (20 %).
pub const LATE_PAYMENT_PENALTY_BPS: i128 = 2_000;

/// Default platform fee (2 %).
pub const DEFAULT_PLATFORM_FEE_BPS: u32 = 200;

/// Length of a revenue period in seconds (30 days).
pub const PERIOD_SECONDS: u64 = 2_592_000;

/// Volume at which a user reaches the Silver tier.
pub const SILVER_VOLUME_THRESHOLD: i128 = 10_000_000_000;

/// Volume at which a user reaches the Gold tier.
pub const GOLD_VOLUME_THRESHOLD: i128 = 500_000_000_000;

/// Volume at which a user reaches the Platinum tier.
pub const PLATINUM_VOLUME_THRESHOLD: i128 = 1_000_000_000_000;

/// Kinds of fee.
#[derive(Clone, Copy, Debug, PartialEq, Eq, Structural)]
pub enum FeeType {
    Platform,
    Processing,
    Verification,
    EarlyPayment,
    LatePayment,
}

/// Volume tiers; higher tiers earn a discount on the regular fees.
#[derive(Clone, Copy, Debug, PartialEq, Eq, Structural)]
pub enum VolumeTier {
    Standard,
    Silver,
    Gold,
    Platinum,
}

/// Tier reached with cumulative volume `volume`.
pub open spec fn tier_for_volume(volume: int) -> VolumeTier {
    if volume >= PLATINUM_VOLUME_THRESHOLD {
        VolumeTier::Platinum
    } else if volume >= GOLD_VOLUME_THRESHOLD {
        VolumeTier::Gold
    } else if volume >= SILVER_VOLUME_THRESHOLD {
        VolumeTier::Silver
    } else {
        VolumeTier::Standard
    }
}

/// Discount of a tier, in basis points.
pub open spec fn tier_discount(tier: VolumeTier) -> int {
    match tier {
        VolumeTier::Standard => 0,
        VolumeTier::Silver => 500,
        VolumeTier::Gold => 1_000,
        VolumeTier::Platinum => 1_500,
    }
}

/// Rank of a tier, from Standard (0) to Platinum (3).
pub open spec fn tier_rank(tier: VolumeTier) -> int {
    match tier {
        VolumeTier::Standard => 0,
        VolumeTier::Silver => 1,
        VolumeTier::Gold => 2,
        VolumeTier::Platinum => 3,
    }
}

impl VolumeTier {
    /// Tier reached with cumulative volume `volume`.
    pub fn from_volume(volume: i128) -> (r: VolumeTier)
        ensures
            r == tier_for_volume(volume as int),
    {
        if volume >= PLATINUM_VOLUME_THRESHOLD {
            VolumeTier::Platinum
        } else if volume >= GOLD_VOLUME_THRESHOLD {
            VolumeTier::Gold
        } else if volume >= SILVER_VOLUME_THRESHOLD {
            VolumeTier::Silver
        } else {
            VolumeTier::Standard
        }
    }

    /// Discount of the tier, in basis points.
    pub fn discount_bps(&self) -> (r: i128)
        ensures
            r == tier_discount(*self),
            0 <= r <= 1_500,
    {
        match self {
            VolumeTier::Standard => 0,
            VolumeTier::Silver => 500,
            VolumeTier::Gold => 1_000,
            VolumeTier::Platinum => 1_500,
        }
    }
}

/// How one kind of fee is charged.
#[derive(Clone, Copy, Debug, PartialEq, Eq, Structural)]
pub struct FeeStructure {
    pub fee_type: FeeType,
    pub base_fee_bps: u32,
    pub min_fee: i128,
    pub max_fee: i128,
    pub is_active: bool,
    pub updated_at: u64,
    pub updated_by: u64,
}

/// Bounds every stored fee structure satisfies.
pub open spec fn structure_bounds_ok(s: FeeStructure) -> bool {
    &&& s.base_fee_bps <= MAX_FEE_BPS
    &&& 0 <= s.min_fee <= s.max_fee <= MAX_FEE_AMOUNT
    &&& s.min_fee <= MAX_MIN_FEE
}

/// `value` clamped into `[lo, hi]`.
pub open spec fn clamp(value: int, lo: int, hi: int) -> int {
    if value < lo {
        lo
    } else if value > hi {
        hi
    } else {
        value
    }
}

/// Fee of structure `s` on `amount` before any modifier: the base rate,
/// rounded down, clamped into the structure's bounds.
pub open spec fn base_fee(s: FeeStructure, amount: int) -> int {
    clamp(saturating_product(amount, s.base_fee_bps as int) / 10_000, s.min_fee as int, s.max_fee as int)
}

/// Fee that structure `s` adds to a transaction of `amount` for a user of
/// tier `tier`: nothing when inactive; the tier discount on the platform,
/// processing and verification fees, and on the platform fee a further 10 %
/// off for an early payment; the early-payment fee only on an early payment;
/// the late-payment fee plus a 20 % surcharge only on a late payment.
pub open spec fn adjusted_fee(
    s: FeeStructure,
    amount: int,
    tier: VolumeTier,
    early: bool,
    late: bool,
) -> int {
    let base = base_fee(s, amount);
    if !s.is_active {
        0
    } else {
        match s.fee_type {
            FeeType::Platform => {
                let f = discounted(base, tier_discount(tier));
                if early {
                    discounted(f, EARLY_PAYMENT_DISCOUNT_BPS as int)
                } else {
                    f
                }
            },
            FeeType::Processing => discounted(base, tier_discount(tier)),
            FeeType::Verification => discounted(base, tier_discount(tier)),
            FeeType::EarlyPayment => if early {
                base
            } else {
                0
            },
            FeeType::LatePayment => if late {
                base + base * LATE_PAYMENT_PENALTY_BPS / 10_000
            } else {
                0
            },
        }
    }
}

/// Sum of the fees the structures of `s` add to a transaction.
pub open spec fn total_fees(
    s: Seq<FeeStructure>,
    amount: int,
    tier: VolumeTier,
    early: bool,
    late: bool,
) -> int
    decreases s.len(),
{
    if s.len() == 0 {
        0
    } else {
        total_fees(s.drop_last(), amount, tier, early, late) + adjusted_fee(
            s.last(),
            amount,
            tier,
            early,
            late,
        )
    }
}

/// Checks the parameters of a fee structure: `InvalidFeeBasisPoints` for a
/// rate above 10 %, `InvalidAmount` for a negative bound or a minimum above
/// the maximum.
pub fn validate_fee_parameters(base_fee_bps: u32, min_fee: i128, max_fee: i128) -> (r: Result<
    (),
    QuickLendXError,
>)
    ensures
        base_fee_bps > MAX_FEE_BPS ==> r == Err::<(), QuickLendXError>(
            QuickLendXError::InvalidFeeBasisPoints,
        ),
        base_fee_bps <= MAX_FEE_BPS && (min_fee < 0 || max_fee < 0 || min_fee > max_fee) ==> r
            == Err::<(), QuickLendXError>(QuickLendXError::InvalidAmount),
        r is Ok <==> (base_fee_bps <= MAX_FEE_BPS && 0 <= min_fee <= max_fee),
{
    if base_fee_bps > MAX_FEE_BPS {
        return Err(QuickLendXError::InvalidFeeBasisPoints);
    }
    if min_fee < 0 || max_fee < 0 || min_fee > max_fee {
        return Err(QuickLendXError::InvalidAmount);
    }
    Ok(())
}

/// Base fee of structure `s` on `amount` (non-negative), clamped into its
/// bounds.
pub fn calculate_base_fee(s: &FeeStructure, amount: i128) -> (r: i128)
    requires
        amount >= 0,
        structure_bounds_ok(*s),
    ensures
        r == base_fee(*s, amount as int),
        s.min_fee <= r <= s.max_fee,
{
    let raw = saturating_mul_nonneg(amount, s.base_fee_bps as i128) / BPS_DENOMINATOR;
    if raw < s.min_fee {
        s.min_fee
    } else if raw > s.max_fee {
        s.max_fee
    } else {
        raw
    }
}

/// Fee structure `s` adds to a transaction of `amount` for a user of tier
/// `tier`.
pub fn calculate_adjusted_fee(
    s: &FeeStructure,
    amount: i128,
    tier: VolumeTier,
    is_early_payment: bool,
    is_late_payment: bool,
) -> (r: i128)
    requires
        amount >= 0,
        structure_bounds_ok(*s),
    ensures
        r == adjusted_fee(*s, amount as int, tier, is_early_payment, is_late_payment),
        0 <= r <= 2 * MAX_FEE_AMOUNT,
{
    if !s.is_active {
        return 0;
    }
    let base = calculate_base_fee(s, amount);
    match s.fee_type {
        FeeType::Platform => {
            let f = apply_discount(base, tier.discount_bps());
            if is_early_payment {
                apply_discount(f, EARLY_PAYMENT_DISCOUNT_BPS)
            } else {
                f
            }
        },
        FeeType::Processing | FeeType::Verification => apply_discount(base, tier.discount_bps()),
        FeeType::EarlyPayment => {
            if is_early_payment {
                base
            } else {
                0
            }
        },
        FeeType::LatePayment => {
            if is_late_payment {
                assert(0 <= base * LATE_PAYMENT_PENALTY_BPS / 10_000 <= base) by (nonlinear_arith)
                    requires
                        0 <= base <= MAX_FEE_AMOUNT,
                ;
                base + base * LATE_PAYMENT_PENALTY_BPS / BPS_DENOMINATOR
            } else {
                0
            }
        },
    }
}

/// Total fees on a transaction of `amount` for a user of tier `tier` under
/// the fee structures `structures`: `InvalidAmount` unless the amount is
/// positive, otherwise the sum over all structures.
pub fn calculate_total_fees(
    structures: &Vec<FeeStructure>,
    amount: i128,
    tier: VolumeTier,
    is_early_payment: bool,
    is_late_payment: bool,
) -> (r: Result<i128, QuickLendXError>)
    requires
        forall|i: int| 0 <= i < structures@.len() ==> structure_bounds_ok(#[trigger] structures@[i]),
    ensures
        amount <= 0 ==> r == Err::<i128, QuickLendXError>(QuickLendXError::InvalidAmount),
        amount > 0 ==> (r matches Ok(v) && v == total_fees(
            structures@,
            amount as int,
            tier,
            is_early_payment,
            is_late_payment,
        )),
        amount > 0 ==> 0 <= total_fees(
            structures@,
            amount as int,
            tier,
            is_early_payment,
            is_late_payment,
        ),
{
    if amount <= 0 {
        return Err(QuickLendXError::InvalidAmount);
    }
    let mut total: i128 = 0;
    let mut i: usize = 0;
    while i < structures.len()
        invariant
            0 <= i <= structures@.len(),
            amount > 0,
            forall|j: int| 0 <= j < structures@.len() ==> structure_bounds_ok(#[trigger] structures@[j]),
            total == total_fees(
                structures@.take(i as int),
                amount as int,
                tier,
                is_early_payment,
                is_late_payment,
            ),
            0 <= total <= 20_000_000_000_000 * i,
        decreases structures@.len() - i,
    {
        let f = calculate_adjusted_fee(
            &structures[i],
            amount,
            tier,
            is_early_payment,
            is_late_payment,
        );
        proof {
            assert(structures@.take(i + 1).drop_last() =~= structures@.take(i as int));
        }
        total = total + f;
        i = i + 1;
    }
    proof {
        assert(structures@.take(i as int) =~= structures@);
    }
    Ok(total)
}

/// Profit of an investment: what the payment exceeds the investment by,
/// saturated at `i128::MAX`; zero on a loss.
pub open spec fn profit_of(investment: int, payment: int) -> int {
    if payment > investment {
        if payment - investment > i128::MAX {
            i128::MAX as int
        } else {
            payment - investment
        }
    } else {
        0
    }
}

/// Platform fee on the profit of an investment: `fee_bps` basis points of
/// the profit, rounded down.
pub open spec fn platform_fee_on(investment: int, payment: int, fee_bps: int) -> int {
    saturating_product(profit_of(investment, payment), fee_bps) / 10_000
}

/// Splits a payment into the investor's return and the platform fee on the
/// profit, at `fee_bps` basis points.
pub fn split_profit(investment_amount: i128, payment_amount: i128, fee_bps: u32) -> (r: (i128, i128))
    requires
        fee_bps <= MAX_FEE_BPS,
    ensures
        r.1 == platform_fee_on(investment_amount as int, payment_amount as int, fee_bps as int),
        r.0 + r.1 == payment_amount,
        0 <= r.1 <= profit_of(investment_amount as int, payment_amount as int),
        payment_amount <= investment_amount ==> r.1 == 0,
{
    let profit: i128 = if payment_amount > investment_amount {
        if investment_amount < 0 && payment_amount > i128::MAX + investment_amount {
            i128::MAX
        } else {
            payment_amount - investment_amount
        }
    } else {
        0
    };
    let fee = saturating_mul_nonneg(profit, fee_bps as i128) / BPS_DENOMINATOR;
    proof {
        if profit * fee_bps <= i128::MAX {
            assert(profit * fee_bps / 10_000 <= profit) by (nonlinear_arith)
                requires
                    profit >= 0,
                    0 <= fee_bps <= 1_000,
            ;
        } else {
            assert(profit * fee_bps <= profit * 1_000) by (nonlinear_arith)
                requires
                    profit >= 0,
                    0 <= fee_bps <= 1_000,
            ;
        }
    }
    (payment_amount - fee, fee)
}

/// Revenue shares are valid when each is at most 10 000 basis points and
/// together they make exactly 10 000.
pub open spec fn revenue_shares_valid(treasury: int, developer: int, platform: int) -> bool {
    &&& treasury <= 10_000
    &&& developer <= 10_000
    &&& platform <= 10_000
    &&& treasury + developer + platform == 10_000
}

/// Amounts `(treasury, developer, platform)` that `amount` splits into: the
/// first two are their share rounded down, the platform takes the rest.
pub open spec fn revenue_split(amount: int, treasury_bps: int, developer_bps: int) -> (int, int, int) {
    let t = amount * treasury_bps / 10_000;
    let d = amount * developer_bps / 10_000;
    (t, d, amount - t - d)
}

/// `amount * bps / 10_000`, rounded down, for non-negative `amount` and
/// `bps` at most 10 000.
fn share_of(amount: i128, bps: u32) -> (r: i128)
    requires
        amount >= 0,
        bps <= 10_000,
    ensures
        r == amount * bps / 10_000,
        0 <= r <= amount,
{
    let rest = apply_discount(amount, bps as i128);
    amount - rest
}

/// Splits `amount` into treasury, developer and platform parts by valid
/// shares; nothing is lost and no part is negative.
pub fn split_revenue(amount: i128, treasury_bps: u32, developer_bps: u32, platform_bps: u32) -> (r: (
    i128,
    i128,
    i128,
))
    requires
        amount >= 0,
        revenue_shares_valid(treasury_bps as int, developer_bps as int, platform_bps as int),
    ensures
        (r.0 as int, r.1 as int, r.2 as int) == revenue_split(
            amount as int,
            treasury_bps as int,
            developer_bps as int,
        ),
        r.0 + r.1 + r.2 == amount,
        r.0 >= 0,
        r.1 >= 0,
        r.2 >= 0,
{
    let t = share_of(amount, treasury_bps);
    let d = share_of(amount, developer_bps);
    assert(t + d <= amount) by (nonlinear_arith)
        requires
            t == amount * treasury_bps / 10_000,
            d == amount * developer_bps / 10_000,
            treasury_bps + developer_bps <= 10_000,
            amount >= 0,
            treasury_bps >= 0,
            developer_bps >= 0,
    ;
    (t, d, amount - t - d)
}

/// Platform fee configuration.
#[derive(Clone, Copy, Debug, PartialEq, Eq, Structural)]
pub struct PlatformFeeConfig {
    pub fee_bps: u32,
    pub treasury_address: Option<Address>,
    pub updated_at: u64,
    pub updated_by: Address,
}

/// Cumulative transaction volume of a user.
#[derive(Clone, Copy, Debug, PartialEq, Eq, Structural)]
pub struct UserVolumeData {
    pub user: Address,
    pub total_volume: i128,
    pub transaction_count: u32,
    pub current_tier: VolumeTier,
    pub last_updated: u64,
}

/// How collected revenue is split.
#[derive(Clone, Copy, Debug, PartialEq, Eq, Structural)]
pub struct RevenueConfig {
    pub treasury_address: Address,
    pub treasury_share_bps: u32,
    pub developer_share_bps: u32,
    pub platform_share_bps: u32,
    pub auto_distribution: bool,
    pub min_distribution_amount: i128,
}

/// Revenue collected in one period.
#[derive(Clone, Copy, Debug, PartialEq, Eq, Structural)]
pub struct RevenueData {
    pub period: u64,
    pub total_collected: i128,
    pub total_distributed: i128,
    pub pending_distribution: i128,
    pub transaction_count: u32,
}

/// Fee figures of one period.
#[derive(Clone, Copy, Debug, PartialEq, Eq, Structural)]
pub struct FeeAnalytics {
    pub period: u64,
    pub total_fees: i128,
    pub total_transactions: u32,
}

/// The three structures set up by `FeeManager::initialize`.
pub open spec fn default_structures(now: u64, admin: Address) -> Seq<FeeStructure> {
    seq![
        FeeStructure {
            fee_type: FeeType::Platform,
            base_fee_bps: 200,
            min_fee: 100,
            max_fee: 1_000_000,
            is_active: true,
            updated_at: now,
            updated_by: admin,
        },
        FeeStructure {
            fee_type: FeeType::Processing,
            base_fee_bps: 50,
            min_fee: 50,
            max_fee: 500_000,
            is_active: true,
            updated_at: now,
            updated_by: admin,
        },
        FeeStructure {
            fee_type: FeeType::Verification,
            base_fee_bps: 100,
            min_fee: 100,
            max_fee: 100_000,
            is_active: true,
            updated_at: now,
            updated_by: admin,
        },
    ]
}

/// Position of the structure of type `t` in `s`, if any.
pub open spec fn has_fee_type(s: Seq<FeeStructure>, t: FeeType) -> bool {
    exists|i: int| 0 <= i < s.len() && (#[trigger] s[i]).fee_type == t
}

/// Summed minimum fee of the active structures of `s`.
pub open spec fn active_min_total(s: Seq<FeeStructure>) -> int
    decreases s.len(),
{
    if s.len() == 0 {
        0
    } else {
        active_min_total(s.drop_last()) + if s.last().is_active {
            s.last().min_fee as int
        } else {
            0
        }
    }
}

/// `s` with structure `n` in place of the one of the same type, or appended.
pub open spec fn with_structure(s: Seq<FeeStructure>, n: FeeStructure) -> Seq<FeeStructure> {
    if has_fee_type(s, n.fee_type) {
        let i = choose|i: int| 0 <= i < s.len() && (#[trigger] s[i]).fee_type == n.fee_type;
        s.update(i, n)
    } else {
        s.push(n)
    }
}

/// The late-payment minimum is at least half the platform minimum whenever
/// both structures exist.
pub open spec fn late_min_consistent(s: Seq<FeeStructure>) -> bool {
    forall|i: int, j: int|
        0 <= i < s.len() && 0 <= j < s.len() && (#[trigger] s[i]).fee_type == FeeType::LatePayment
            && (#[trigger] s[j]).fee_type == FeeType::Platform ==> 2 * s[i].min_fee >= s[j].min_fee
}

/// Tier on record for `user` (Standard when none).
pub open spec fn recorded_tier(v: Map<Address, UserVolumeData>, user: Address) -> VolumeTier {
    if v.contains_key(user) {
        v[user].current_tier
    } else {
        VolumeTier::Standard
    }
}

/// Volume record of `user`: the stored one, or an empty Standard record.
pub open spec fn volume_record(v: Map<Address, UserVolumeData>, user: Address) -> UserVolumeData {
    if v.contains_key(user) {
        v[user]
    } else {
        UserVolumeData {
            user,
            total_volume: 0,
            transaction_count: 0,
            current_tier: VolumeTier::Standard,
            last_updated: 0,
        }
    }
}

/// Record `d` after one more transaction of `amount` at `now`; the count
/// saturates at `u32::MAX`.
pub open spec fn volume_after(d: UserVolumeData, amount: int, now: u64) -> UserVolumeData {
    UserVolumeData {
        user: d.user,
        total_volume: (d.total_volume + amount) as i128,
        transaction_count: if d.transaction_count == u32::MAX {
            u32::MAX
        } else {
            (d.transaction_count + 1) as u32
        },
        current_tier: tier_for_volume(d.total_volume + amount),
        last_updated: now,
    }
}

/// Revenue record of `period`: the stored one, or an empty record.
pub open spec fn revenue_record(r: Map<u64, RevenueData>, period: u64) -> RevenueData {
    if r.contains_key(period) {
        r[period]
    } else {
        RevenueData {
            period,
            total_collected: 0,
            total_distributed: 0,
            pending_distribution: 0,
            transaction_count: 0,
        }
    }
}

/// Record `d` after collecting `amount` more; the count saturates at
/// `u32::MAX`.
pub open spec fn revenue_after_collect(d: RevenueData, amount: int) -> RevenueData {
    RevenueData {
        period: d.period,
        total_collected: (d.total_collected + amount) as i128,
        total_distributed: d.total_distributed,
        pending_distribution: (d.pending_distribution + amount) as i128,
        transaction_count: if d.transaction_count == u32::MAX {
            u32::MAX
        } else {
            (d.transaction_count + 1) as u32
        },
    }
}

/// Record `d` after its pending amount has been distributed.
pub open spec fn revenue_after_distribution(d: RevenueData) -> RevenueData {
    RevenueData {
        period: d.period,
        total_collected: d.total_collected,
        total_distributed: (d.total_distributed + d.pending_distribution) as i128,
        pending_distribution: 0,
        transaction_count: d.transaction_count,
    }
}

/// Revenue period of timestamp `now`.
pub open spec fn period_of(now: u64) -> u64 {
    (now / PERIOD_SECONDS) as u64
}

/// Platform fee configuration reported before one is stored.
pub open spec fn default_platform_config(contract: Address) -> PlatformFeeConfig {
    PlatformFeeConfig {
        fee_bps: DEFAULT_PLATFORM_FEE_BPS,
        treasury_address: None,
        updated_at: 0,
        updated_by: contract,
    }
}

/// Platform fee rate in force under configuration `c`.
pub open spec fn effective_fee_bps(c: Option<PlatformFeeConfig>) -> u32 {
    match c {
        Some(c) => c.fee_bps,
        None => DEFAULT_PLATFORM_FEE_BPS,
    }
}

/// Treasury named by configuration `c`, if any.
pub open spec fn treasury_of(c: Option<PlatformFeeConfig>) -> Option<Address> {
    match c {
        Some(c) => c.treasury_address,
        None => None,
    }
}

/// Every volume record is filed under its user, with a non-negative volume
/// and the tier that volume reaches.
pub open spec fn volumes_wf(v: Map<Address, UserVolumeData>) -> bool {
    forall|u: Address|
        #[trigger] v.contains_key(u) ==> {
            &&& v[u].user == u
            &&& v[u].total_volume >= 0
            &&& v[u].current_tier == tier_for_volume(v[u].total_volume as int)
        }
}

/// Every revenue record is filed under its period, and what was collected
/// in it is exactly what was distributed plus what is pending.
pub open spec fn revenue_wf(r: Map<u64, RevenueData>) -> bool {
    forall|p: u64|
        #[trigger] r.contains_key(p) ==> {
            &&& r[p].period == p
            &&& r[p].pending_distribution >= 0
            &&& r[p].total_distributed >= 0
            &&& r[p].total_distributed + r[p].pending_distribution == r[p].total_collected
        }
}

/// No two structures of `s` have the same fee type.
pub open spec fn fee_types_unique(s: Seq<FeeStructure>) -> bool {
    forall|i: int, j: int|
        0 <= i < s.len() && 0 <= j < s.len() && i != j ==> (#[trigger] s[i]).fee_type
            != (#[trigger] s[j]).fee_type
}

/// Every structure of `s` is within the stored bounds.
pub open spec fn all_bounds_ok(s: Seq<FeeStructure>) -> bool {
    forall|i: int| 0 <= i < s.len() ==> structure_bounds_ok(#[trigger] s[i])
}

/// Position of the structure of type `t` in `s`, if any.
fn find_fee_type(s: &Vec<FeeStructure>, t: FeeType) -> (r: Option<usize>)
    ensures
        r matches Some(i) ==> i < s@.len() && s@[i as int].fee_type == t,
        r is None ==> !has_fee_type(s@, t),
{
    let mut i: usize = 0;
    while i < s.len()
        invariant
            0 <= i <= s@.len(),
            forall|j: int| 0 <= j < i ==> (#[trigger] s@[j]).fee_type != t,
        decreases s@.len() - i,
    {
        if s[i].fee_type == t {
            return Some(i);
        }
        i = i + 1;
    }
    None
}

/// A copy of `s`.
fn copy_structures(s: &Vec<FeeStructure>) -> (r: Vec<FeeStructure>)
    ensures
        r@ == s@,
{
    let mut r: Vec<FeeStructure> = Vec::new();
    let mut i: usize = 0;
    while i < s.len()
        invariant
            0 <= i <= s@.len(),
            r@ == s@.take(i as int),
        decreases s@.len() - i,
    {
        r.push(s[i]);
        i = i + 1;
        proof {
            assert(r@ =~= s@.take(i as int));
        }
    }
    proof {
        assert(s@.take(i as int) =~= s@);
    }
    r
}

/// Whether the late-payment minimum is at least half the platform minimum
/// in `s` (true when either structure is missing).
fn min_fees_consistent(s: &Vec<FeeStructure>) -> (r: bool)
    requires
        fee_types_unique(s@),
        all_bounds_ok(s@),
    ensures
        r == late_min_consistent(s@),
{
    let late = find_fee_type(s, FeeType::LatePayment);
    let platform = find_fee_type(s, FeeType::Platform);
    match (late, platform) {
        (Some(i), Some(j)) => {
            let ok = 2 * s[i].min_fee >= s[j].min_fee;
            proof {
                if ok {
                    assert forall|a: int, b: int|
                        0 <= a < s@.len() && 0 <= b < s@.len() && (#[trigger] s@[a]).fee_type
                            == FeeType::LatePayment && (#[trigger] s@[b]).fee_type
                            == FeeType::Platform implies 2 * s@[a].min_fee >= s@[b].min_fee by {
                        assert(a == i);
                        assert(b == j);
                    }
                } else {
                    assert(s@[i as int].fee_type == FeeType::LatePayment);
                    assert(s@[j as int].fee_type == FeeType::Platform);
                }
            }
            ok
        },
        _ => true,
    }
}

/// Summed minimum fee of the active structures of `s`, capped at
/// `MAX_TOTAL_MIN_FEES + 1`.
fn capped_active_min_total(s: &Vec<FeeStructure>) -> (r: i128)
    requires
        all_bounds_ok(s@),
    ensures
        r == if active_min_total(s@) > MAX_TOTAL_MIN_FEES {
            MAX_TOTAL_MIN_FEES + 1
        } else {
            active_min_total(s@)
        },
{
    let mut acc: i128 = 0;
    let mut i: usize = 0;
    while i < s.len()
        invariant
            0 <= i <= s@.len(),
            all_bounds_ok(s@),
            acc == if active_min_total(s@.take(i as int)) > MAX_TOTAL_MIN_FEES {
                MAX_TOTAL_MIN_FEES + 1
            } else {
                active_min_total(s@.take(i as int))
            },
            0 <= acc <= MAX_TOTAL_MIN_FEES + 1,
        decreases s@.len() - i,
    {
        let st = s[i];
        proof {
            assert(s@.take(i + 1).drop_last() =~= s@.take(i as int));
            assert(structure_bounds_ok(s@[i as int]));
        }
        if st.is_active {
            let next = acc + st.min_fee;
            acc = if next > MAX_TOTAL_MIN_FEES {
                MAX_TOTAL_MIN_FEES + 1
            } else {
                next
            };
        }
        i = i + 1;
    }
    proof {
        assert(s@.take(i as int) =~= s@);
    }
    acc
}

/// Replacing the structure of a type present in `s` is `with_structure`.
proof fn lemma_with_structure_update(s: Seq<FeeStructure>, i: int, n: FeeStructure)
    requires
        fee_types_unique(s),
        0 <= i < s.len(),
        s[i].fee_type == n.fee_type,
    ensures
        with_structure(s, n) == s.update(i, n),
{
    assert(has_fee_type(s, n.fee_type));
    let j = choose|j: int| 0 <= j < s.len() && (#[trigger] s[j]).fee_type == n.fee_type;
    assert(j == i);
}

/// Fee schedule, user volumes and revenue bookkeeping.
pub struct FeeManager {
    initialized: bool,
    structures: Vec<FeeStructure>,
    platform_config: Option<PlatformFeeConfig>,
    user_volumes: HashMap<Address, UserVolumeData>,
    revenue_config: Option<RevenueConfig>,
    revenue: HashMap<u64, RevenueData>,
}

impl FeeManager {
    /// Whether `initialize` has run.
    pub closed spec fn is_initialized(&self) -> bool {
        self.initialized
    }

    /// The fee structures.
    pub closed spec fn structures(&self) -> Seq<FeeStructure> {
        self.structures@
    }

    /// The platform fee configuration, once set.
    pub closed spec fn platform_config(&self) -> Option<PlatformFeeConfig> {
        self.platform_config
    }

    /// Volume records by user.
    pub closed spec fn volumes(&self) -> Map<Address, UserVolumeData> {
        self.user_volumes@
    }

    /// Revenue split configuration, once set.
    pub closed spec fn revenue_config(&self) -> Option<RevenueConfig> {
        self.revenue_config
    }

    /// Revenue records by period.
    pub closed spec fn revenue(&self) -> Map<u64, RevenueData> {
        self.revenue@
    }

    /// Well-formedness of the fee state.
    pub open spec fn wf(&self) -> bool {
        &&& all_bounds_ok(self.structures())
        &&& fee_types_unique(self.structures())
        &&& late_min_consistent(self.structures())
        &&& (self.platform_config() matches Some(c) ==> c.fee_bps <= MAX_FEE_BPS)
        &&& volumes_wf(self.volumes())
        &&& (self.revenue_config() matches Some(c) ==> revenue_shares_valid(
            c.treasury_share_bps as int,
            c.developer_share_bps as int,
            c.platform_share_bps as int,
        ) && c.min_distribution_amount >= 0)
        &&& revenue_wf(self.revenue())
    }

    /// A fee system with nothing configured.
    pub fn new() -> (r: Self)
        ensures
            r.wf(),
            !r.is_initialized(),
            r.structures() == Seq::<FeeStructure>::empty(),
            r.platform_config() is None,
            r.volumes() == Map::<Address, UserVolumeData>::empty(),
            r.revenue_config() is None,
            r.revenue() == Map::<u64, RevenueData>::empty(),
    {
        broadcast use vstd::std_specs::hash::group_hash_axioms;

        FeeManager {
            initialized: false,
            structures: Vec::new(),
            platform_config: None,
            user_volumes: HashMap::new(),
            revenue_config: None,
            revenue: HashMap::new(),
        }
    }

    /// Sets up the default platform, processing and verification structures
    /// and a 2 % platform fee configuration without treasury. Fails,
    /// changing nothing, with `NotAdmin` unless `admin` is the protocol
    /// admin `stored_admin`, then with `InvalidFeeConfiguration` when already
    /// done.
    pub fn initialize(&mut self, admin: Address, stored_admin: Option<Address>, now: u64) -> (r: Result<
        (),
        QuickLendXError,
    >)
        requires
            old(self).wf(),
        ensures
            final(self).wf(),
            stored_admin != Some(admin) ==> r == Err::<(), QuickLendXError>(QuickLendXError::NotAdmin)
                && *final(self) == *old(self),
            stored_admin == Some(admin) && old(self).is_initialized() ==> r == Err::<
                (),
                QuickLendXError,
            >(QuickLendXError::InvalidFeeConfiguration) && *final(self) == *old(self),
            stored_admin == Some(admin) && !old(self).is_initialized() ==> r is Ok && final(self).is_initialized()
                && final(self).structures() == default_structures(now, admin)
                && final(self).platform_config() == Some(
                PlatformFeeConfig {
                    fee_bps: DEFAULT_PLATFORM_FEE_BPS,
                    treasury_address: None,
                    updated_at: now,
                    updated_by: admin,
                },
            ) && final(self).volumes() == old(self).volumes() && final(self).revenue_config()
                == old(self).revenue_config() && final(self).revenue() == old(self).revenue(),
    {
        if stored_admin != Some(admin) {
            return Err(QuickLendXError::NotAdmin);
        }
        if self.initialized {
            return Err(QuickLendXError::InvalidFeeConfiguration);
        }
        let mut v: Vec<FeeStructure> = Vec::new();
        v.push(
            FeeStructure {
                fee_type: FeeType::Platform,
                base_fee_bps: 200,
                min_fee: 100,
                max_fee: 1_000_000,
                is_active: true,
                updated_at: now,
                updated_by: admin,
            },
        );
        v.push(
            FeeStructure {
                fee_type: FeeType::Processing,
                base_fee_bps: 50,
                min_fee: 50,
                max_fee: 500_000,
                is_active: true,
                updated_at: now,
                updated_by: admin,
            },
        );
        v.push(
            FeeStructure {
                fee_type: FeeType::Verification,
                base_fee_bps: 100,
                min_fee: 100,
                max_fee: 100_000,
                is_active: true,
                updated_at: now,
                updated_by: admin,
            },
        );
        self.structures = v;
        self.platform_config = Some(
            PlatformFeeConfig {
                fee_bps: DEFAULT_PLATFORM_FEE_BPS,
                treasury_address: None,
                updated_at: now,
                updated_by: admin,
            },
        );
        self.initialized = true;
        proof {
            assert(self.structures@ =~= default_structures(now, admin));
        }
        Ok(())
    }

    /// The structure of type `fee_type`; `StorageKeyNotFound` when none.
    pub fn get_fee_structure(&self, fee_type: FeeType) -> (r: Result<
        FeeStructure,
        QuickLendXError,
    >)
        requires
            self.wf(),
        ensures
            r is Err <==> !has_fee_type(self.structures(), fee_type),
            r is Err ==> r == Err::<FeeStructure, QuickLendXError>(
                QuickLendXError::StorageKeyNotFound,
            ),
            r matches Ok(s) ==> s.fee_type == fee_type && self.structures().contains(s),
    {
        match find_fee_type(&self.structures, fee_type) {
            Some(i) => Ok(self.structures[i]),
            None => Err(QuickLendXError::StorageKeyNotFound),
        }
    }

    /// Sets the structure of type `fee_type` (replacing or adding it).
    ///
    /// Fails with `NotAdmin` unless `updater` is the protocol admin
    /// `stored_admin`; then as `validate_fee_parameters` does; with
    /// `InvalidFeeConfiguration` when the maximum exceeds `MAX_FEE_AMOUNT`,
    /// the minimum exceeds `MAX_MIN_FEE`, the late-payment minimum would fall
    /// below half the platform minimum, or the active minimums would sum
    /// above `MAX_TOTAL_MIN_FEES`. Nothing changes on failure.
    pub fn update_fee_structure(
        &mut self,
        updater: Address,
        stored_admin: Option<Address>,
        fee_type: FeeType,
        base_fee_bps: u32,
        min_fee: i128,
        max_fee: i128,
        is_active: bool,
        now: u64,
    ) -> (r: Result<FeeStructure, QuickLendXError>)
        requires
            old(self).wf(),
        ensures
            final(self).wf(),
            stored_admin != Some(updater) ==> r == Err::<FeeStructure, QuickLendXError>(
                QuickLendXError::NotAdmin,
            ) && *final(self) == *old(self),
            stored_admin == Some(updater) ==> ({
                let n = FeeStructure {
                    fee_type,
                    base_fee_bps,
                    min_fee,
                    max_fee,
                    is_active,
                    updated_at: now,
                    updated_by: updater,
                };
                let cand = with_structure(old(self).structures(), n);
                let allowed = structure_bounds_ok(n) && late_min_consistent(cand)
                    && active_min_total(cand) <= MAX_TOTAL_MIN_FEES;
                &&& base_fee_bps > MAX_FEE_BPS ==> r == Err::<FeeStructure, QuickLendXError>(
                    QuickLendXError::InvalidFeeBasisPoints,
                )
                &&& base_fee_bps <= MAX_FEE_BPS && !(0 <= min_fee <= max_fee) ==> r == Err::<
                    FeeStructure,
                    QuickLendXError,
                >(QuickLendXError::InvalidAmount)
                &&& base_fee_bps <= MAX_FEE_BPS && 0 <= min_fee <= max_fee && !allowed ==> r
                    == Err::<FeeStructure, QuickLendXError>(
                    QuickLendXError::InvalidFeeConfiguration,
                )
                &&& allowed ==> r == Ok::<FeeStructure, QuickLendXError>(n)
                    && final(self).structures() == cand
                &&& !allowed ==> *final(self) == *old(self)
            }),
            final(self).platform_config() == old(self).platform_config(),
            final(self).volumes() == old(self).volumes(),
            final(self).revenue_config() == old(self).revenue_config(),
            final(self).revenue() == old(self).revenue(),
            final(self).is_initialized() == old(self).is_initialized(),
    {
        if stored_admin != Some(updater) {
            return Err(QuickLendXError::NotAdmin);
        }
        validate_fee_parameters(base_fee_bps, min_fee, max_fee)?;
        if max_fee > MAX_FEE_AMOUNT || min_fee > MAX_MIN_FEE {
            return Err(QuickLendXError::InvalidFeeConfiguration);
        }
        let n = FeeStructure {
            fee_type,
            base_fee_bps,
            min_fee,
            max_fee,
            is_active,
            updated_at: now,
            updated_by: updater,
        };
        let ghost old_s = self.structures@;
        let mut cand = copy_structures(&self.structures);
        match find_fee_type(&self.structures, fee_type) {
            Some(i) => {
                cand.set(i, n);
                proof {
                    lemma_with_structure_update(old_s, i as int, n);
                }
            },
            None => {
                cand.push(n);
            },
        }
        proof {
            let s = cand@;
            assert(s == with_structure(old_s, n));
            assert forall|a: int, b: int|
                0 <= a < s.len() && 0 <= b < s.len() && a != b implies (#[trigger] s[a]).fee_type
                != (#[trigger] s[b]).fee_type by {
                if a < old_s.len() && b < old_s.len() {
                    if s[a] != old_s[a] {
                        assert(s[b] == old_s[b]);
                    } else if s[b] != old_s[b] {
                        assert(s[a] == old_s[a]);
                    }
                }
            }
            assert forall|a: int| 0 <= a < s.len() implies structure_bounds_ok(#[trigger] s[a]) by {
                if a < old_s.len() && s[a] == old_s[a] {
                    assert(structure_bounds_ok(old_s[a]));
                }
            }
        }
        if !min_fees_consistent(&cand) {
            return Err(QuickLendXError::InvalidFeeConfiguration);
        }
        if capped_active_min_total(&cand) > MAX_TOTAL_MIN_FEES {
            return Err(QuickLendXError::InvalidFeeConfiguration);
        }
        self.structures = cand;
        Ok(n)
    }

    /// Fees on a transaction of `amount` by `user`, at the user's recorded
    /// tier; `InvalidAmount` unless the amount is positive.
    pub fn calculate_transaction_fees(
        &self,
        user: Address,
        amount: i128,
        is_early_payment: bool,
        is_late_payment: bool,
    ) -> (r: Result<i128, QuickLendXError>)
        requires
            self.wf(),
        ensures
            amount <= 0 ==> r == Err::<i128, QuickLendXError>(QuickLendXError::InvalidAmount),
            amount > 0 ==> (r matches Ok(v) && v == total_fees(
                self.structures(),
                amount as int,
                recorded_tier(self.volumes(), user),
                is_early_payment,
                is_late_payment,
            )),
    {
        broadcast use vstd::std_specs::hash::group_hash_axioms;

        let tier = match self.user_volumes.get(&user) {
            Some(d) => d.current_tier,
            None => VolumeTier::Standard,
        };
        calculate_total_fees(&self.structures, amount, tier, is_early_payment, is_late_payment)
    }

    /// Volume record of `user` (an empty Standard record when none).
    pub fn get_user_volume_data(&self, user: Address) -> (r: UserVolumeData)
        ensures
            r == volume_record(self.volumes(), user),
    {
        broadcast use vstd::std_specs::hash::group_hash_axioms;

        match self.user_volumes.get(&user) {
            Some(d) => *d,
            None => UserVolumeData {
                user,
                total_volume: 0,
                transaction_count: 0,
                current_tier: VolumeTier::Standard,
                last_updated: 0,
            },
        }
    }

    /// Adds a transaction of `amount` to `user`'s volume and recomputes the
    /// tier. `InvalidAmount`, changing nothing, for a negative amount or a
    /// volume that would overflow.
    pub fn update_user_transaction_volume(&mut self, user: Address, amount: i128, now: u64) -> (r:
        Result<UserVolumeData, QuickLendXError>)
        requires
            old(self).wf(),
        ensures
            final(self).wf(),
            ({
                let d = volume_record(old(self).volumes(), user);
                &&& (amount < 0 || d.total_volume + amount > i128::MAX) ==> r == Err::<
                    UserVolumeData,
                    QuickLendXError,
                >(QuickLendXError::InvalidAmount) && *final(self) == *old(self)
                &&& !(amount < 0 || d.total_volume + amount > i128::MAX) ==> r == Ok::<
                    UserVolumeData,
                    QuickLendXError,
                >(volume_after(d, amount as int, now)) && final(self).volumes() == old(self).volumes().insert(user, volume_after(d, amount as int, now))
                    && tier_rank(volume_after(d, amount as int, now).current_tier) >= tier_rank(
                    recorded_tier(old(self).volumes(), user),
                )
            }),
            final(self).structures() == old(self).structures(),
            final(self).platform_config() == old(self).platform_config(),
            final(self).revenue_config() == old(self).revenue_config(),
            final(self).revenue() == old(self).revenue(),
            final(self).is_initialized() == old(self).is_initialized(),
    {
        broadcast use vstd::std_specs::hash::group_hash_axioms;

        let d = self.get_user_volume_data(user);
        if amount < 0 || d.total_volume > i128::MAX - amount {
            return Err(QuickLendXError::InvalidAmount);
        }
        let total = d.total_volume + amount;
        let n = UserVolumeData {
            user,
            total_volume: total,
            transaction_count: d.transaction_count.saturating_add(1),
            current_tier: VolumeTier::from_volume(total),
            last_updated: now,
        };
        proof {
            lemma_tier_rank_monotone(d.total_volume as int, total as int);
        }
        self.user_volumes.insert(user, n);
        proof {
            assert(n == volume_after(d, amount as int, now));
        }
        Ok(n)
    }

    /// Platform fee configuration, or the default one (2 %, no treasury,
    /// never updated, by `contract`) before any is stored.
    pub fn get_platform_fee(&self, contract: Address) -> (r: PlatformFeeConfig)
        ensures
            r == match self.platform_config() {
                Some(c) => c,
                None => default_platform_config(contract),
            },
    {
        match self.platform_config {
            Some(c) => c,
            None => PlatformFeeConfig {
                fee_bps: DEFAULT_PLATFORM_FEE_BPS,
                treasury_address: None,
                updated_at: 0,
                updated_by: contract,
            },
        }
    }

    /// Stored platform fee configuration; `StorageKeyNotFound` before one is.
    pub fn get_platform_fee_config(&self) -> (r: Result<PlatformFeeConfig, QuickLendXError>)
        ensures
            r == match self.platform_config() {
                Some(c) => Ok::<PlatformFeeConfig, QuickLendXError>(c),
                None => Err::<PlatformFeeConfig, QuickLendXError>(
                    QuickLendXError::StorageKeyNotFound,
                ),
            },
    {
        match self.platform_config {
            Some(c) => Ok(c),
            None => Err(QuickLendXError::StorageKeyNotFound),
        }
    }

    /// Sets the platform fee rate, keeping the treasury. `NotAdmin` unless
    /// `admin` is the protocol admin `stored_admin`; then a rate above 10 %
    /// fails with `InvalidFeeBasisPoints`. Nothing changes on failure.
    pub fn update_platform_fee(
        &mut self,
        admin: Address,
        stored_admin: Option<Address>,
        fee_bps: u32,
        now: u64,
    ) -> (r: Result<(), QuickLendXError>)
        requires
            old(self).wf(),
        ensures
            final(self).wf(),
            stored_admin != Some(admin) ==> r == Err::<(), QuickLendXError>(QuickLendXError::NotAdmin)
                && *final(self) == *old(self),
            stored_admin == Some(admin) && fee_bps > MAX_FEE_BPS ==> r == Err::<(), QuickLendXError>(
                QuickLendXError::InvalidFeeBasisPoints,
            ) && *final(self) == *old(self),
            stored_admin == Some(admin) && fee_bps <= MAX_FEE_BPS ==> r is Ok && final(self).platform_config() == Some(
                PlatformFeeConfig {
                    fee_bps,
                    treasury_address: treasury_of(old(self).platform_config()),
                    updated_at: now,
                    updated_by: admin,
                },
            ),
            final(self).structures() == old(self).structures(),
            final(self).volumes() == old(self).volumes(),
            final(self).revenue_config() == old(self).revenue_config(),
            final(self).revenue() == old(self).revenue(),
            final(self).is_initialized() == old(self).is_initialized(),
    {
        if stored_admin != Some(admin) {
            return Err(QuickLendXError::NotAdmin);
        }
        if fee_bps > MAX_FEE_BPS {
            return Err(QuickLendXError::InvalidFeeBasisPoints);
        }
        let treasury = match self.platform_config {
            Some(c) => c.treasury_address,
            None => None,
        };
        self.platform_config = Some(
            PlatformFeeConfig { fee_bps, treasury_address: treasury, updated_at: now, updated_by: admin },
        );
        Ok(())
    }

    /// Routes platform fees to `treasury`. `NotAdmin` unless `admin` is the
    /// protocol admin `stored_admin`; then `InvalidAddress` when it is the
    /// contract itself, `StorageKeyNotFound` before a platform fee
    /// configuration exists, `InvalidFeeConfiguration` when it is already
    /// the treasury; nothing changes on failure.
    pub fn configure_treasury(
        &mut self,
        admin: Address,
        stored_admin: Option<Address>,
        treasury: Address,
        contract: Address,
        now: u64,
    ) -> (r: Result<(), QuickLendXError>)
        requires
            old(self).wf(),
        ensures
            final(self).wf(),
            stored_admin != Some(admin) ==> r == Err::<(), QuickLendXError>(QuickLendXError::NotAdmin),
            stored_admin == Some(admin) && treasury == contract ==> r == Err::<(), QuickLendXError>(
                QuickLendXError::InvalidAddress,
            ),
            stored_admin == Some(admin) && treasury != contract && old(self).platform_config() is None
                ==> r == Err::<(), QuickLendXError>(QuickLendXError::StorageKeyNotFound),
            stored_admin == Some(admin) && treasury != contract && treasury_of(
                old(self).platform_config(),
            ) == Some(treasury) ==> r == Err::<(), QuickLendXError>(
                QuickLendXError::InvalidFeeConfiguration,
            ),
            r is Err ==> *final(self) == *old(self),
            r is Ok <==> (stored_admin == Some(admin) && treasury != contract && old(self).platform_config() is Some
                && treasury_of(old(self).platform_config()) != Some(treasury)),
            r is Ok ==> final(self).platform_config() == Some(
                PlatformFeeConfig {
                    fee_bps: old(self).platform_config()->0.fee_bps,
                    treasury_address: Some(treasury),
                    updated_at: now,
                    updated_by: admin,
                },
            ),
            final(self).structures() == old(self).structures(),
            final(self).volumes() == old(self).volumes(),
            final(self).revenue_config() == old(self).revenue_config(),
            final(self).revenue() == old(self).revenue(),
            final(self).is_initialized() == old(self).is_initialized(),
    {
        if stored_admin != Some(admin) {
            return Err(QuickLendXError::NotAdmin);
        }
        if treasury == contract {
            return Err(QuickLendXError::InvalidAddress);
        }
        match self.platform_config {
            None => Err(QuickLendXError::StorageKeyNotFound),
            Some(c) => {
                if c.treasury_address == Some(treasury) {
                    return Err(QuickLendXError::InvalidFeeConfiguration);
                }
                self.platform_config = Some(
                    PlatformFeeConfig {
                        fee_bps: c.fee_bps,
                        treasury_address: Some(treasury),
                        updated_at: now,
                        updated_by: admin,
                    },
                );
                Ok(())
            },
        }
    }

    /// Treasury that platform fees are routed to, if configured.
    pub fn get_treasury_address(&self) -> (r: Option<Address>)
        ensures
            r == treasury_of(self.platform_config()),
    {
        match self.platform_config {
            Some(c) => c.treasury_address,
            None => None,
        }
    }

    /// Splits a settlement payment into the investor's return and the
    /// platform fee on the profit, at the rate in force.
    pub fn calculate_platform_fee(&self, investment_amount: i128, payment_amount: i128) -> (r: (
        i128,
        i128,
    ))
        requires
            self.wf(),
        ensures
            r.1 == platform_fee_on(
                investment_amount as int,
                payment_amount as int,
                effective_fee_bps(self.platform_config()) as int,
            ),
            r.0 + r.1 == payment_amount,
            0 <= r.1 <= profit_of(investment_amount as int, payment_amount as int),
            payment_amount >= investment_amount ==> r.0 >= investment_amount,
    {
        let bps = match self.platform_config {
            Some(c) => c.fee_bps,
            None => DEFAULT_PLATFORM_FEE_BPS,
        };
        split_profit(investment_amount, payment_amount, bps)
    }

    /// Checks revenue shares: `InvalidFeeConfiguration` unless each is at
    /// most 10 000 basis points and they sum to exactly 10 000.
    pub fn validate_revenue_shares(treasury_share_bps: u32, developer_share_bps: u32, platform_share_bps: u32) -> (r:
        Result<(), QuickLendXError>)
        ensures
            r is Ok <==> revenue_shares_valid(
                treasury_share_bps as int,
                developer_share_bps as int,
                platform_share_bps as int,
            ),
            r is Err ==> r == Err::<(), QuickLendXError>(QuickLendXError::InvalidFeeConfiguration),
    {
        if treasury_share_bps > 10_000 || developer_share_bps > 10_000 || platform_share_bps
            > 10_000 {
            return Err(QuickLendXError::InvalidFeeConfiguration);
        }
        if treasury_share_bps + developer_share_bps + platform_share_bps != 10_000 {
            return Err(QuickLendXError::InvalidFeeConfiguration);
        }
        Ok(())
    }

    /// Sets how collected revenue is split. `NotAdmin` unless `admin` is the
    /// protocol admin `stored_admin`; then `InvalidFeeConfiguration` for
    /// invalid shares, `InvalidAmount` for a negative minimum; nothing
    /// changes on failure.
    pub fn configure_revenue_distribution(
        &mut self,
        admin: Address,
        stored_admin: Option<Address>,
        treasury_address: Address,
        treasury_share_bps: u32,
        developer_share_bps: u32,
        platform_share_bps: u32,
        auto_distribution: bool,
        min_distribution_amount: i128,
    ) -> (r: Result<(), QuickLendXError>)
        requires
            old(self).wf(),
        ensures
            final(self).wf(),
            stored_admin != Some(admin) ==> r == Err::<(), QuickLendXError>(QuickLendXError::NotAdmin),
            stored_admin == Some(admin) && !revenue_shares_valid(
                treasury_share_bps as int,
                developer_share_bps as int,
                platform_share_bps as int,
            ) ==> r == Err::<(), QuickLendXError>(QuickLendXError::InvalidFeeConfiguration),
            stored_admin == Some(admin) && revenue_shares_valid(
                treasury_share_bps as int,
                developer_share_bps as int,
                platform_share_bps as int,
            ) && min_distribution_amount < 0 ==> r == Err::<(), QuickLendXError>(
                QuickLendXError::InvalidAmount,
            ),
            r is Err ==> *final(self) == *old(self),
            r is Ok ==> final(self).revenue_config() == Some(
                RevenueConfig {
                    treasury_address,
                    treasury_share_bps,
                    developer_share_bps,
                    platform_share_bps,
                    auto_distribution,
                    min_distribution_amount,
                },
            ),
            r is Ok <==> (stored_admin == Some(admin) && revenue_shares_valid(
                treasury_share_bps as int,
                developer_share_bps as int,
                platform_share_bps as int,
            ) && min_distribution_amount >= 0),
            final(self).structures() == old(self).structures(),
            final(self).platform_config() == old(self).platform_config(),
            final(self).volumes() == old(self).volumes(),
            final(self).revenue() == old(self).revenue(),
            final(self).is_initialized() == old(self).is_initialized(),
    {
        if stored_admin != Some(admin) {
            return Err(QuickLendXError::NotAdmin);
        }
        Self::validate_revenue_shares(treasury_share_bps, developer_share_bps, platform_share_bps)?;
        if min_distribution_amount < 0 {
            return Err(QuickLendXError::InvalidAmount);
        }
        self.revenue_config = Some(
            RevenueConfig {
                treasury_address,
                treasury_share_bps,
                developer_share_bps,
                platform_share_bps,
                auto_distribution,
                min_distribution_amount,
            },
        );
        Ok(())
    }

    /// Stored revenue split configuration; `StorageKeyNotFound` before one is.
    pub fn get_revenue_split_config(&self) -> (r: Result<RevenueConfig, QuickLendXError>)
        ensures
            r == match self.revenue_config() {
                Some(c) => Ok::<RevenueConfig, QuickLendXError>(c),
                None => Err::<RevenueConfig, QuickLendXError>(QuickLendXError::StorageKeyNotFound),
            },
    {
        match self.revenue_config {
            Some(c) => Ok(c),
            None => Err(QuickLendXError::StorageKeyNotFound),
        }
    }

    /// Books `amount` of collected fees in the period of `now`, pending
    /// distribution. `InvalidAmount`, changing nothing, for a negative amount
    /// or a total that would overflow.
    pub fn collect_transaction_fees(&mut self, amount: i128, now: u64) -> (r: Result<
        (),
        QuickLendXError,
    >)
        requires
            old(self).wf(),
        ensures
            final(self).wf(),
            ({
                let p = period_of(now);
                let d = revenue_record(old(self).revenue(), p);
                &&& (amount < 0 || d.total_collected + amount > i128::MAX) ==> r == Err::<
                    (),
                    QuickLendXError,
                >(QuickLendXError::InvalidAmount) && *final(self) == *old(self)
                &&& !(amount < 0 || d.total_collected + amount > i128::MAX) ==> r is Ok && final(self).revenue() == old(self).revenue().insert(p, revenue_after_collect(d, amount as int))
            }),
            final(self).structures() == old(self).structures(),
            final(self).platform_config() == old(self).platform_config(),
            final(self).volumes() == old(self).volumes(),
            final(self).revenue_config() == old(self).revenue_config(),
            final(self).is_initialized() == old(self).is_initialized(),
    {
        broadcast use vstd::std_specs::hash::group_hash_axioms;

        let period = now / PERIOD_SECONDS;
        let d = match self.revenue.get(&period) {
            Some(d) => *d,
            None => RevenueData {
                period,
                total_collected: 0,
                total_distributed: 0,
                pending_distribution: 0,
                transaction_count: 0,
            },
        };
        if amount < 0 || d.total_collected > i128::MAX - amount {
            return Err(QuickLendXError::InvalidAmount);
        }
        let n = RevenueData {
            period,
            total_collected: d.total_collected + amount,
            total_distributed: d.total_distributed,
            pending_distribution: d.pending_distribution + amount,
            transaction_count: d.transaction_count.saturating_add(1),
        };
        self.revenue.insert(period, n);
        Ok(())
    }

    /// Fee figures of `period`; `StorageKeyNotFound` when nothing was
    /// collected in it.
    pub fn get_fee_analytics(&self, period: u64) -> (r: Result<FeeAnalytics, QuickLendXError>)
        ensures
            !self.revenue().contains_key(period) ==> r == Err::<FeeAnalytics, QuickLendXError>(
                QuickLendXError::StorageKeyNotFound,
            ),
            self.revenue().contains_key(period) ==> r == Ok::<FeeAnalytics, QuickLendXError>(
                FeeAnalytics {
                    period,
                    total_fees: self.revenue()[period].total_collected,
                    total_transactions: self.revenue()[period].transaction_count,
                },
            ),
    {
        broadcast use vstd::std_specs::hash::group_hash_axioms;

        match self.revenue.get(&period) {
            Some(d) => Ok(
                FeeAnalytics {
                    period,
                    total_fees: d.total_collected,
                    total_transactions: d.transaction_count,
                },
            ),
            None => Err(QuickLendXError::StorageKeyNotFound),
        }
    }

    /// Distributes the pending revenue of `period` by the configured split
    /// and returns the `(treasury, developer, platform)` amounts.
    ///
    /// `StorageKeyNotFound` without a split configuration or without revenue
    /// in the period; `OperationNotAllowed` when nothing is pending;
    /// `InvalidAmount` when the pending amount is below the configured
    /// minimum; `InvalidFeeConfiguration` when platform fees are routed to a
    /// treasury other than the split's. Nothing changes on failure.
    pub fn distribute_revenue(&mut self, period: u64) -> (r: Result<
        (i128, i128, i128),
        QuickLendXError,
    >)
        requires
            old(self).wf(),
        ensures
            final(self).wf(),
            old(self).revenue_config() is None ==> r == Err::<
                (i128, i128, i128),
                QuickLendXError,
            >(QuickLendXError::StorageKeyNotFound),
            old(self).revenue_config() is Some && !old(self).revenue().contains_key(period) ==> r
                == Err::<(i128, i128, i128), QuickLendXError>(QuickLendXError::StorageKeyNotFound),
            ({
                let c = old(self).revenue_config()->0;
                let d = old(self).revenue()[period];
                let t = treasury_of(old(self).platform_config());
                &&& old(self).revenue_config() is Some && old(self).revenue().contains_key(period)
                    ==> {
                    &&& d.pending_distribution == 0 ==> r == Err::<
                        (i128, i128, i128),
                        QuickLendXError,
                    >(QuickLendXError::OperationNotAllowed)
                    &&& 0 < d.pending_distribution < c.min_distribution_amount ==> r == Err::<
                        (i128, i128, i128),
                        QuickLendXError,
                    >(QuickLendXError::InvalidAmount)
                    &&& (0 < d.pending_distribution && d.pending_distribution
                        >= c.min_distribution_amount && t is Some && t != Some(c.treasury_address))
                        ==> r == Err::<(i128, i128, i128), QuickLendXError>(
                        QuickLendXError::InvalidFeeConfiguration,
                    )
                    &&& (0 < d.pending_distribution && d.pending_distribution
                        >= c.min_distribution_amount && (t is None || t == Some(c.treasury_address)))
                        ==> {
                        &&& r matches Ok(parts) && (parts.0 as int, parts.1 as int, parts.2 as int)
                            == revenue_split(
                            d.pending_distribution as int,
                            c.treasury_share_bps as int,
                            c.developer_share_bps as int,
                        )
                        &&& r matches Ok(parts) && parts.0 + parts.1 + parts.2
                            == d.pending_distribution
                        &&& final(self).revenue() == old(self).revenue().insert(
                            period,
                            revenue_after_distribution(d),
                        )
                    }
                }
            }),
            r is Err ==> *final(self) == *old(self),
            final(self).structures() == old(self).structures(),
            final(self).platform_config() == old(self).platform_config(),
            final(self).volumes() == old(self).volumes(),
            final(self).revenue_config() == old(self).revenue_config(),
            final(self).is_initialized() == old(self).is_initialized(),
    {
        broadcast use vstd::std_specs::hash::group_hash_axioms;

        let c = match self.revenue_config {
            Some(c) => c,
            None => {
                return Err(QuickLendXError::StorageKeyNotFound);
            },
        };
        let d = match self.revenue.get(&period) {
            Some(d) => *d,
            None => {
                return Err(QuickLendXError::StorageKeyNotFound);
            },
        };
        if d.pending_distribution == 0 {
            return Err(QuickLendXError::OperationNotAllowed);
        }
        if d.pending_distribution < c.min_distribution_amount {
            return Err(QuickLendXError::InvalidAmount);
        }
        match self.platform_config {
            Some(p) => {
                match p.treasury_address {
                    Some(t) => {
                        if t != c.treasury_address {
                            return Err(QuickLendXError::InvalidFeeConfiguration);
                        }
                    },
                    None => {},
                }
            },
            None => {},
        }
        let parts = split_revenue(
            d.pending_distribution,
            c.treasury_share_bps,
            c.developer_share_bps,
            c.platform_share_bps,
        );
        let n = RevenueData {
            period: d.period,
            total_collected: d.total_collected,
            total_distributed: d.total_distributed + d.pending_distribution,
            pending_distribution: 0,
            transaction_count: d.transaction_count,
        };
        self.revenue.insert(period, n);
        Ok(parts)
    }
}

/// A higher volume never gives a lower tier.
pub proof fn lemma_tier_rank_monotone(a: int, b: int)
    requires
        a <= b,
    ensures
        tier_rank(tier_for_volume(a)) <= tier_rank(tier_for_volume(b)),
{
}

/// A higher tier never makes the fee of one structure larger.
proof fn lemma_adjusted_fee_tier(
    s: FeeStructure,
    amount: int,
    lower: VolumeTier,
    higher: VolumeTier,
    early: bool,
    late: bool,
)
    requires
        structure_bounds_ok(s),
        amount >= 0,
        tier_rank(lower) <= tier_rank(higher),
    ensures
        adjusted_fee(s, amount, higher, early, late) <= adjusted_fee(s, amount, lower, early, late),
{
    let base = base_fee(s, amount);
    let dl = tier_discount(lower);
    let dh = tier_discount(higher);
    lemma_discounted_antitone_in_bps(base, dl, dh);
    lemma_discounted_bounds(base, dl);
    lemma_discounted_bounds(base, dh);
    lemma_discounted_monotone_in_value(discounted(base, dh), discounted(base, dl), 1_000);
}

/// A user in a higher volume tier never pays more in total on the same
/// transaction than one in a lower tier.
pub proof fn lemma_higher_tier_pays_no_more(
    s: Seq<FeeStructure>,
    amount: int,
    lower: VolumeTier,
    higher: VolumeTier,
    early: bool,
    late: bool,
)
    requires
        all_bounds_ok(s),
        amount >= 0,
        tier_rank(lower) <= tier_rank(higher),
    ensures
        total_fees(s, amount, higher, early, late) <= total_fees(s, amount, lower, early, late),
    decreases s.len(),
{
    if s.len() > 0 {
        assert(all_bounds_ok(s.drop_last())) by {
            assert forall|i: int| 0 <= i < s.drop_last().len() implies structure_bounds_ok(
                #[trigger] s.drop_last()[i],
            ) by {
                assert(s.drop_last()[i] == s[i]);
            }
        }
        lemma_higher_tier_pays_no_more(s.drop_last(), amount, lower, higher, early, late);
        lemma_adjusted_fee_tier(s.last(), amount, lower, higher, early, late);
    }
}

/// Paying late never lowers the total fees of a transaction.
pub proof fn lemma_late_payment_never_lowers_fees(
    s: Seq<FeeStructure>,
    amount: int,
    tier: VolumeTier,
    early: bool,
)
    requires
        all_bounds_ok(s),
        amount >= 0,
    ensures
        total_fees(s, amount, tier, early, false) <= total_fees(s, amount, tier, early, true),
    decreases s.len(),
{
    if s.len() > 0 {
        assert(all_bounds_ok(s.drop_last())) by {
            assert forall|i: int| 0 <= i < s.drop_last().len() implies structure_bounds_ok(
                #[trigger] s.drop_last()[i],
            ) by {
                assert(s.drop_last()[i] == s[i]);
            }
        }
        lemma_late_payment_never_lowers_fees(s.drop_last(), amount, tier, early);
        let base = base_fee(s.last(), amount);
        assert(base * LATE_PAYMENT_PENALTY_BPS / 10_000 >= 0) by (nonlinear_arith)
            requires
                base >= 0,
        ;
    }
}

/// Without an active early-payment structure, paying early never raises
/// the total fees of a transaction.
pub proof fn lemma_early_payment_never_raises_fees(
    s: Seq<FeeStructure>,
    amount: int,
    tier: VolumeTier,
    late: bool,
)
    requires
        all_bounds_ok(s),
        amount >= 0,
        forall|i: int|
            0 <= i < s.len() && (#[trigger] s[i]).fee_type == FeeType::EarlyPayment
                ==> !s[i].is_active,
    ensures
        total_fees(s, amount, tier, true, late) <= total_fees(s, amount, tier, false, late),
    decreases s.len(),
{
    if s.len() > 0 {
        let t = s.drop_last();
        assert forall|i: int| 0 <= i < t.len() implies structure_bounds_ok(#[trigger] t[i]) && (
        t[i].fee_type == FeeType::EarlyPayment ==> !t[i].is_active) by {
            assert(t[i] == s[i]);
        }
        lemma_early_payment_never_raises_fees(t, amount, tier, late);
        let last = s.last();
        assert(last == s[s.len() - 1]);
        let base = base_fee(last, amount);
        lemma_discounted_bounds(base, tier_discount(tier));
        lemma_discounted_bounds(discounted(base, tier_discount(tier)), 1_000);
    }
}

/// Revenue is never lost or created: if what a period collected equals what
/// it distributed plus what is pending, that stays so after collecting more,
/// and after a distribution nothing is pending any more, so the period
/// cannot be paid out twice without new collections.
pub proof fn lemma_revenue_conserved(d: RevenueData, amount: int)
    requires
        d.total_distributed + d.pending_distribution == d.total_collected,
        0 <= amount,
        d.total_collected + amount <= i128::MAX,
        d.pending_distribution >= 0,
        d.total_distributed >= 0,
    ensures
        revenue_after_collect(d, amount).total_distributed + revenue_after_collect(
            d,
            amount,
        ).pending_distribution == revenue_after_collect(d, amount).total_collected,
        revenue_after_collect(d, amount).total_collected == d.total_collected + amount,
        revenue_after_distribution(d).total_distributed + revenue_after_distribution(
            d,
        ).pending_distribution == revenue_after_distribution(d).total_collected,
        revenue_after_distribution(d).pending_distribution == 0,
        revenue_after_distribution(d).total_distributed == d.total_collected,
{
}

} // verus!
