//! Protocol limits: bounds on invoice amounts, due dates and text fields,
//! and the normalized form of invoice tags.
use vstd::prelude::*;

use crate::errors::QuickLendXError;
use crate::Address;

verus! {

/// Longest invoice description, in bytes.
pub const MAX_DESCRIPTION_LENGTH: u32 = 1024;

/// Longest name, in bytes.
pub const MAX_NAME_LENGTH: u32 = 150;

/// Longest postal address, in bytes.
pub const MAX_ADDRESS_LENGTH: u32 = 300;

/// Longest tax identifier, in bytes.
pub const MAX_TAX_ID_LENGTH: u32 = 50;

/// Longest free-form notes, in bytes.
pub const MAX_NOTES_LENGTH: u32 = 2000;

/// Longest tag after normalization, in bytes.
pub const MAX_TAG_LENGTH: u32 = 50;

/// Most tags an invoice may carry.
pub const MAX_TAGS_PER_INVOICE: u32 = 10;

/// Longest dispute reason, in bytes.
pub const MAX_DISPUTE_REASON_LENGTH: u32 = 1000;

/// Longest dispute evidence, in bytes.
pub const MAX_DISPUTE_EVIDENCE_LENGTH: u32 = 2000;

/// Longest rejection reason, in bytes.
pub const MAX_REJECTION_REASON_LENGTH: u32 = 500;

/// Longest feedback text, in bytes.
pub const MAX_FEEDBACK_LENGTH: u32 = 1000;

/// Longest KYC payload, in bytes.
pub const MAX_KYC_DATA_LENGTH: u32 = 5000;

/// Longest due-date horizon a configuration may allow, in days.
pub const MAX_DUE_DATE_DAYS_LIMIT: u64 = 730;

/// Longest grace period a configuration may allow, in seconds (30 days).
pub const MAX_GRACE_PERIOD_SECONDS: u64 = 2_592_000;

/// Seconds in a day.
pub const SECONDS_PER_DAY: u64 = 86_400;

/// Smallest invoice amount before the limits are configured.
pub const DEFAULT_MIN_INVOICE_AMOUNT: i128 = 10;

/// Due-date horizon before the limits are configured, in days.
pub const DEFAULT_MAX_DUE_DATE_DAYS: u64 = 365;

/// Grace period before the limits are configured, in seconds.
pub const DEFAULT_GRACE_PERIOD_SECONDS: u64 = 604_800;

/// Cap on the active invoices of one business before the limits are
/// configured.
pub const DEFAULT_MAX_INVOICES_PER_BUSINESS: u32 = 100;

/// Configurable protocol limits. A cap of 0 on the invoices per business
/// means no cap.
#[derive(Clone, Copy, Debug, PartialEq, Eq, Structural)]
pub struct ProtocolLimits {
    pub min_invoice_amount: i128,
    pub max_due_date_days: u64,
    pub grace_period_seconds: u64,
    pub max_invoices_per_business: u32,
}

/// Error for a limits configuration, if it is invalid: the minimum amount
/// must be positive, the horizon between 1 and 730 days, and the grace
/// period at most 30 days and at most the horizon.
pub open spec fn limits_error(min_invoice_amount: int, max_due_date_days: int, grace_period_seconds: int) -> Option<QuickLendXError> {
    if min_invoice_amount <= 0 {
        Some(QuickLendXError::InvalidAmount)
    } else if max_due_date_days == 0 || max_due_date_days > MAX_DUE_DATE_DAYS_LIMIT {
        Some(QuickLendXError::InvoiceDueDateInvalid)
    } else if grace_period_seconds > MAX_GRACE_PERIOD_SECONDS || grace_period_seconds
        > max_due_date_days * SECONDS_PER_DAY {
        Some(QuickLendXError::InvalidTimestamp)
    } else {
        None
    }
}

/// `Ok` or the given error.
pub open spec fn result_of(e: Option<QuickLendXError>) -> Result<(), QuickLendXError> {
    match e {
        Some(e) => Err(e),
        None => Ok(()),
    }
}

impl ProtocolLimits {
    /// The limits in force before any configuration.
    pub fn default_limits() -> (r: Self)
        ensures
            r == (ProtocolLimits {
                min_invoice_amount: DEFAULT_MIN_INVOICE_AMOUNT,
                max_due_date_days: DEFAULT_MAX_DUE_DATE_DAYS,
                grace_period_seconds: DEFAULT_GRACE_PERIOD_SECONDS,
                max_invoices_per_business: DEFAULT_MAX_INVOICES_PER_BUSINESS,
            }),
    {
        ProtocolLimits {
            min_invoice_amount: DEFAULT_MIN_INVOICE_AMOUNT,
            max_due_date_days: DEFAULT_MAX_DUE_DATE_DAYS,
            grace_period_seconds: DEFAULT_GRACE_PERIOD_SECONDS,
            max_invoices_per_business: DEFAULT_MAX_INVOICES_PER_BUSINESS,
        }
    }

    /// Checks a limits configuration (see `limits_error`).
    pub fn validate_limits(min_invoice_amount: i128, max_due_date_days: u64, grace_period_seconds: u64) -> (r:
        Result<(), QuickLendXError>)
        ensures
            r == result_of(
                limits_error(
                    min_invoice_amount as int,
                    max_due_date_days as int,
                    grace_period_seconds as int,
                ),
            ),
    {
        if min_invoice_amount <= 0 {
            return Err(QuickLendXError::InvalidAmount);
        }
        if max_due_date_days == 0 || max_due_date_days > MAX_DUE_DATE_DAYS_LIMIT {
            return Err(QuickLendXError::InvoiceDueDateInvalid);
        }
        if grace_period_seconds > MAX_GRACE_PERIOD_SECONDS || grace_period_seconds
            > max_due_date_days * SECONDS_PER_DAY {
            return Err(QuickLendXError::InvalidTimestamp);
        }
        Ok(())
    }

    /// Sets the amount, horizon and grace limits, keeping the invoice cap.
    /// `NotAdmin` unless `caller` is the admin; otherwise fails as
    /// `validate_limits` does. Nothing changes on failure.
    pub fn set_protocol_limits(
        &mut self,
        caller: Address,
        admin: Option<Address>,
        min_invoice_amount: i128,
        max_due_date_days: u64,
        grace_period_seconds: u64,
    ) -> (r: Result<(), QuickLendXError>)
        ensures
            admin != Some(caller) ==> r == Err::<(), QuickLendXError>(QuickLendXError::NotAdmin),
            admin == Some(caller) ==> r == result_of(
                limits_error(
                    min_invoice_amount as int,
                    max_due_date_days as int,
                    grace_period_seconds as int,
                ),
            ),
            r is Err ==> *final(self) == *old(self),
            r is Ok ==> *final(self) == (ProtocolLimits {
                min_invoice_amount,
                max_due_date_days,
                grace_period_seconds,
                max_invoices_per_business: old(self).max_invoices_per_business,
            }),
    {
        if admin != Some(caller) {
            return Err(QuickLendXError::NotAdmin);
        }
        Self::validate_limits(min_invoice_amount, max_due_date_days, grace_period_seconds)?;
        self.min_invoice_amount = min_invoice_amount;
        self.max_due_date_days = max_due_date_days;
        self.grace_period_seconds = grace_period_seconds;
        Ok(())
    }

    /// Sets every limit, the cap on active invoices per business included
    /// (0 for no cap). Fails as `set_protocol_limits` does.
    pub fn update_limits_max_invoices(
        &mut self,
        caller: Address,
        admin: Option<Address>,
        min_invoice_amount: i128,
        max_due_date_days: u64,
        grace_period_seconds: u64,
        max_invoices_per_business: u32,
    ) -> (r: Result<(), QuickLendXError>)
        ensures
            admin != Some(caller) ==> r == Err::<(), QuickLendXError>(QuickLendXError::NotAdmin),
            admin == Some(caller) ==> r == result_of(
                limits_error(
                    min_invoice_amount as int,
                    max_due_date_days as int,
                    grace_period_seconds as int,
                ),
            ),
            r is Err ==> *final(self) == *old(self),
            r is Ok ==> *final(self) == (ProtocolLimits {
                min_invoice_amount,
                max_due_date_days,
                grace_period_seconds,
                max_invoices_per_business,
            }),
    {
        if admin != Some(caller) {
            return Err(QuickLendXError::NotAdmin);
        }
        Self::validate_limits(min_invoice_amount, max_due_date_days, grace_period_seconds)?;
        *self = ProtocolLimits {
            min_invoice_amount,
            max_due_date_days,
            grace_period_seconds,
            max_invoices_per_business,
        };
        Ok(())
    }
}

/// Checks that a text of `s.len()` bytes fits in `max_len` bytes;
/// `InvalidDescription` when it does not.
pub fn check_string_length(s: &[u8], max_len: u32) -> (r: Result<(), QuickLendXError>)
    ensures
        r is Ok <==> s@.len() <= max_len,
        r is Err ==> r == Err::<(), QuickLendXError>(QuickLendXError::InvalidDescription),
{
    if s.len() > max_len as usize {
        Err(QuickLendXError::InvalidDescription)
    } else {
        Ok(())
    }
}

/// ASCII whitespace: space, tab, line feed, form feed, carriage return.
pub open spec fn is_ascii_space(b: u8) -> bool {
    b == 32 || b == 9 || b == 10 || b == 12 || b == 13
}

/// `b` with an ASCII capital letter turned into its lowercase form.
pub open spec fn lower_byte(b: u8) -> u8 {
    if 65 <= b <= 90 {
        (b + 32) as u8
    } else {
        b
    }
}

/// `s` without its leading ASCII whitespace.
pub open spec fn trim_start(s: Seq<u8>) -> Seq<u8>
    decreases s.len(),
{
    if s.len() > 0 && is_ascii_space(s[0]) {
        trim_start(s.drop_first())
    } else {
        s
    }
}

/// `s` without its trailing ASCII whitespace.
pub open spec fn trim_end(s: Seq<u8>) -> Seq<u8>
    decreases s.len(),
{
    if s.len() > 0 && is_ascii_space(s.last()) {
        trim_end(s.drop_last())
    } else {
        s
    }
}

/// Normalized form of a tag: surrounding ASCII whitespace removed and ASCII
/// letters in lowercase.
pub open spec fn normalized_tag(s: Seq<u8>) -> Seq<u8> {
    trim_end(trim_start(s)).map_values(|b: u8| lower_byte(b))
}

/// A normalized tag is valid when it is neither empty nor longer than
/// `MAX_TAG_LENGTH`.
pub open spec fn tag_valid(normalized: Seq<u8>) -> bool {
    0 < normalized.len() <= MAX_TAG_LENGTH
}

/// The byte contents of each tag.
pub open spec fn tag_views(tags: Seq<Vec<u8>>) -> Seq<Seq<u8>> {
    tags.map_values(|t: Vec<u8>| t@)
}

/// Whether the normalized forms of the tags of `tags` are pairwise distinct.
pub open spec fn normalized_distinct(tags: Seq<Seq<u8>>) -> bool {
    forall|i: int, j: int|
        0 <= i < j < tags.len() ==> normalized_tag(#[trigger] tags[i]) != normalized_tag(
            #[trigger] tags[j],
        )
}

/// Whether a tag list is accepted: at most `MAX_TAGS_PER_INVOICE` tags,
/// each valid once normalized, no two alike once normalized.
pub open spec fn tags_accepted(tags: Seq<Seq<u8>>) -> bool {
    &&& tags.len() <= MAX_TAGS_PER_INVOICE
    &&& forall|i: int| 0 <= i < tags.len() ==> tag_valid(normalized_tag(#[trigger] tags[i]))
    &&& normalized_distinct(tags)
}

/// After `trim_start`, the first byte (if any) is not whitespace.
proof fn lemma_trim_start_clean(s: Seq<u8>)
    ensures
        trim_start(s).len() > 0 ==> !is_ascii_space(trim_start(s)[0]),
    decreases s.len(),
{
    if s.len() > 0 && is_ascii_space(s[0]) {
        lemma_trim_start_clean(s.drop_first());
    }
}

/// `trim_end` keeps a prefix of its input whose last byte (if any) is not
/// whitespace.
proof fn lemma_trim_end_prefix(s: Seq<u8>)
    ensures
        trim_end(s).len() <= s.len(),
        trim_end(s) == s.subrange(0, trim_end(s).len() as int),
        trim_end(s).len() > 0 ==> !is_ascii_space(trim_end(s).last()),
    decreases s.len(),
{
    if s.len() > 0 && is_ascii_space(s.last()) {
        lemma_trim_end_prefix(s.drop_last());
        assert(s.drop_last().subrange(0, trim_end(s).len() as int) =~= s.subrange(
            0,
            trim_end(s).len() as int,
        ));
    } else {
        assert(s.subrange(0, s.len() as int) =~= s);
    }
}

/// Lowercasing neither creates nor removes whitespace, and lowercasing twice
/// is lowercasing once.
proof fn lemma_lower_byte(b: u8)
    ensures
        is_ascii_space(lower_byte(b)) == is_ascii_space(b),
        lower_byte(lower_byte(b)) == lower_byte(b),
{
}

/// Normalizing a tag twice gives the same as normalizing it once, so
/// comparing normalized forms is an equivalence that normalized storage
/// respects.
pub proof fn lemma_normalized_tag_idempotent(s: Seq<u8>)
    ensures
        normalized_tag(normalized_tag(s)) == normalized_tag(s),
{
    let ts = trim_start(s);
    let core = trim_end(ts);
    let t = normalized_tag(s);
    lemma_trim_start_clean(s);
    lemma_trim_end_prefix(ts);
    assert(t == core.map_values(|b: u8| lower_byte(b)));
    if t.len() > 0 {
        assert(core[0] == ts[0]);
        lemma_lower_byte(core[0]);
        lemma_lower_byte(core.last());
        assert(t[0] == lower_byte(core[0]));
        assert(t.last() == lower_byte(core.last()));
        assert(!is_ascii_space(t[0]));
        assert(!is_ascii_space(t.last()));
    }
    assert(trim_start(t) == t);
    assert(trim_end(t) == t);
    assert forall|i: int| 0 <= i < t.len() implies #[trigger] lower_byte(t[i]) == t[i] by {
        lemma_lower_byte(core[i]);
    }
    assert(t.map_values(|b: u8| lower_byte(b)) =~= t);
}

fn is_space_byte(b: u8) -> (r: bool)
    ensures
        r == is_ascii_space(b),
{
    b == 32 || b == 9 || b == 10 || b == 12 || b == 13
}

fn lower(b: u8) -> (r: u8)
    ensures
        r == lower_byte(b),
{
    if 65 <= b && b <= 90 {
        b + 32
    } else {
        b
    }
}

/// Normalized form of `tag` (see `normalized_tag`).
pub fn normalize_tag(tag: &Vec<u8>) -> (r: Vec<u8>)
    ensures
        r@ == normalized_tag(tag@),
{
    let n = tag.len();
    let mut start: usize = 0;
    assert(tag@.subrange(0, n as int) =~= tag@);
    while start < n && is_space_byte(tag[start])
        invariant
            0 <= start <= n,
            n == tag@.len(),
            trim_start(tag@) == trim_start(tag@.subrange(start as int, n as int)),
        decreases n - start,
    {
        proof {
            assert(tag@.subrange(start as int, n as int).drop_first() =~= tag@.subrange(
                start + 1,
                n as int,
            ));
        }
        start = start + 1;
    }
    let ghost rest = tag@.subrange(start as int, n as int);
    assert(trim_start(tag@) == rest);
    let mut end: usize = n;
    while end > start && is_space_byte(tag[end - 1])
        invariant
            start <= end <= n,
            n == tag@.len(),
            rest == tag@.subrange(start as int, n as int),
            trim_end(rest) == trim_end(tag@.subrange(start as int, end as int)),
        decreases end - start,
    {
        proof {
            assert(tag@.subrange(start as int, end as int).drop_last() =~= tag@.subrange(
                start as int,
                end - 1,
            ));
        }
        end = end - 1;
    }
    let ghost core = tag@.subrange(start as int, end as int);
    assert(trim_end(rest) == core);
    let mut out: Vec<u8> = Vec::new();
    let mut k: usize = start;
    while k < end
        invariant
            start <= k <= end <= n,
            n == tag@.len(),
            core == tag@.subrange(start as int, end as int),
            out@ == core.subrange(0, k - start).map_values(|b: u8| lower_byte(b)),
        decreases end - k,
    {
        out.push(lower(tag[k]));
        k = k + 1;
        proof {
            assert(out@ =~= core.subrange(0, k - start).map_values(|b: u8| lower_byte(b)));
        }
    }
    proof {
        assert(core.subrange(0, end - start) =~= core);
    }
    out
}

/// Whether two byte strings are equal.
pub fn bytes_equal(a: &Vec<u8>, b: &Vec<u8>) -> (r: bool)
    ensures
        r == (a@ == b@),
{
    if a.len() != b.len() {
        return false;
    }
    let mut i: usize = 0;
    while i < a.len()
        invariant
            0 <= i <= a@.len(),
            a@.len() == b@.len(),
            forall|j: int| 0 <= j < i ==> a@[j] == b@[j],
        decreases a@.len() - i,
    {
        if a[i] != b[i] {
            return false;
        }
        i = i + 1;
    }
    proof {
        assert(a@ =~= b@);
    }
    true
}

/// Normalizes `tag` and checks it: `InvalidTag` when the result is empty or
/// longer than `MAX_TAG_LENGTH`.
pub fn validate_tag(tag: &Vec<u8>) -> (r: Result<Vec<u8>, QuickLendXError>)
    ensures
        r is Ok <==> tag_valid(normalized_tag(tag@)),
        r matches Ok(t) ==> t@ == normalized_tag(tag@),
        r is Err ==> r == Err::<Vec<u8>, QuickLendXError>(QuickLendXError::InvalidTag),
{
    let t = normalize_tag(tag);
    if t.len() == 0 || t.len() > MAX_TAG_LENGTH as usize {
        return Err(QuickLendXError::InvalidTag);
    }
    Ok(t)
}

/// Normalizes a tag list. `TagLimitExceeded` for more than
/// `MAX_TAGS_PER_INVOICE` tags; `InvalidTag` when a tag is invalid once
/// normalized or two tags are alike once normalized.
pub fn normalize_tags(tags: &Vec<Vec<u8>>) -> (r: Result<Vec<Vec<u8>>, QuickLendXError>)
    ensures
        r is Ok <==> tags_accepted(tag_views(tags@)),
        tags@.len() > MAX_TAGS_PER_INVOICE ==> r == Err::<Vec<Vec<u8>>, QuickLendXError>(
            QuickLendXError::TagLimitExceeded,
        ),
        tags@.len() <= MAX_TAGS_PER_INVOICE && !tags_accepted(tag_views(tags@)) ==> r == Err::<
            Vec<Vec<u8>>,
            QuickLendXError,
        >(QuickLendXError::InvalidTag),
        r matches Ok(v) ==> tag_views(v@) == tag_views(tags@).map_values(
            |t: Seq<u8>| normalized_tag(t),
        ),
{
    let ghost views = tag_views(tags@);
    if tags.len() > MAX_TAGS_PER_INVOICE as usize {
        return Err(QuickLendXError::TagLimitExceeded);
    }
    let mut out: Vec<Vec<u8>> = Vec::new();
    let mut i: usize = 0;
    while i < tags.len()
        invariant
            0 <= i <= tags@.len(),
            views == tag_views(tags@),
            tags@.len() <= MAX_TAGS_PER_INVOICE,
            out@.len() == i,
            forall|k: int| 0 <= k < i ==> (#[trigger] out@[k])@ == normalized_tag(views[k]),
            forall|k: int| 0 <= k < i ==> tag_valid(normalized_tag(#[trigger] views[k])),
            forall|a: int, b: int|
                0 <= a < b < i ==> normalized_tag(#[trigger] views[a]) != normalized_tag(
                    #[trigger] views[b],
                ),
        decreases tags@.len() - i,
    {
        let t = match validate_tag(&tags[i]) {
            Ok(t) => t,
            Err(e) => {
                proof {
                    assert(views[i as int] == tags@[i as int]@);
                    assert(!tag_valid(normalized_tag(views[i as int])));
                }
                return Err(e);
            },
        };
        proof {
            assert(views[i as int] == tags@[i as int]@);
        }
        let mut j: usize = 0;
        while j < out.len()
            invariant
                0 <= j <= out@.len(),
                out@.len() == i,
                i < tags@.len(),
                tags@.len() <= MAX_TAGS_PER_INVOICE,
                views == tag_views(tags@),
                t@ == normalized_tag(views[i as int]),
                forall|k: int| 0 <= k < i ==> (#[trigger] out@[k])@ == normalized_tag(views[k]),
                forall|k: int| 0 <= k < j ==> normalized_tag(#[trigger] views[k]) != t@,
            decreases out@.len() - j,
        {
            if bytes_equal(&out[j], &t) {
                proof {
                    assert(normalized_tag(views[j as int]) == normalized_tag(views[i as int]));
                    assert(!normalized_distinct(views));
                }
                return Err(QuickLendXError::InvalidTag);
            }
            j = j + 1;
        }
        out.push(t);
        i = i + 1;
    }
    proof {
        assert(tag_views(out@) =~= views.map_values(|t: Seq<u8>| normalized_tag(t)));
    }
    Ok(out)
}

/// Error for the fields of a new invoice under `limits` at time `now`, if
/// any: `InvalidAmount` for an amount that is not positive or below the
/// minimum; `InvoiceDueDateInvalid` for a due date not after `now` or past
/// the horizon; `InvalidDescription` for an empty or too long description;
/// `TagLimitExceeded` for too many tags; `InvalidTag` for a tag list that is
/// not accepted.
pub open spec fn invoice_params_error(
    limits: ProtocolLimits,
    amount: int,
    due_date: int,
    now: int,
    description_len: int,
    tags: Seq<Seq<u8>>,
) -> Option<QuickLendXError> {
    if amount <= 0 || amount < limits.min_invoice_amount {
        Some(QuickLendXError::InvalidAmount)
    } else if due_date <= now || due_date > now + limits.max_due_date_days * SECONDS_PER_DAY {
        Some(QuickLendXError::InvoiceDueDateInvalid)
    } else if description_len == 0 || description_len > MAX_DESCRIPTION_LENGTH {
        Some(QuickLendXError::InvalidDescription)
    } else if tags.len() > MAX_TAGS_PER_INVOICE {
        Some(QuickLendXError::TagLimitExceeded)
    } else if !tags_accepted(tags) {
        Some(QuickLendXError::InvalidTag)
    } else {
        None
    }
}

/// Checks the fields of a new invoice against `limits` at time `now` (see
/// `invoice_params_error`) and returns its normalized tags.
pub fn validate_invoice_params(
    limits: &ProtocolLimits,
    amount: i128,
    due_date: u64,
    now: u64,
    description: &Vec<u8>,
    tags: &Vec<Vec<u8>>,
) -> (r: Result<Vec<Vec<u8>>, QuickLendXError>)
    ensures
        match invoice_params_error(
            *limits,
            amount as int,
            due_date as int,
            now as int,
            description@.len() as int,
            tag_views(tags@),
        ) {
            Some(e) => r == Err::<Vec<Vec<u8>>, QuickLendXError>(e),
            None => r is Ok,
        },
        r matches Ok(v) ==> tag_views(v@) == tag_views(tags@).map_values(
            |t: Seq<u8>| normalized_tag(t),
        ),
{
    if amount <= 0 || amount < limits.min_invoice_amount {
        return Err(QuickLendXError::InvalidAmount);
    }
    if due_date <= now {
        return Err(QuickLendXError::InvoiceDueDateInvalid);
    }
    let horizon: u128 = limits.max_due_date_days as u128 * SECONDS_PER_DAY as u128;
    if due_date as u128 > now as u128 + horizon {
        return Err(QuickLendXError::InvoiceDueDateInvalid);
    }
    if description.len() == 0 || description.len() > MAX_DESCRIPTION_LENGTH as usize {
        return Err(QuickLendXError::InvalidDescription);
    }
    normalize_tags(tags)
}

} // verus!
