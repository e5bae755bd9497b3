//! Payment defaults: a funded invoice that stays unpaid past its due date is
//! overdue, and once the grace period after the due date has passed too it
//! is defaulted. Funded invoices are scanned in bounded batches from a
//! cursor that wraps around, so that repeated scans visit every one of them.
use vstd::prelude::*;

use crate::errors::QuickLendXError;
use crate::invoice_id::InvoiceId;
use crate::invoice::{has_invoice, status_count, Invoice, InvoiceRegistry, InvoiceStatus};

verus! {

/// Grace period after the due date before a funded invoice defaults, in
/// seconds (seven days).
pub const DEFAULT_GRACE_PERIOD: u64 = 604_800;

/// Funded invoices looked at by one scan when the caller names no limit.
pub const DEFAULT_OVERDUE_SCAN_BATCH_LIMIT: u32 = 25;

/// Largest number of funded invoices one scan may look at.
pub const MAX_OVERDUE_SCAN_BATCH_LIMIT: u32 = 100;

/// The grace period in force: the one given, else `DEFAULT_GRACE_PERIOD`.
pub open spec fn grace_or_default(grace: Option<u64>) -> u64 {
    match grace {
        Some(g) => g,
        None => DEFAULT_GRACE_PERIOD,
    }
}

/// The batch size in force: the one given, else the default, brought into
/// `1..=MAX_OVERDUE_SCAN_BATCH_LIMIT`.
pub open spec fn effective_batch_limit(limit: Option<u32>) -> nat {
    let l = match limit {
        Some(l) => l,
        None => DEFAULT_OVERDUE_SCAN_BATCH_LIMIT,
    };
    if l == 0 {
        1
    } else if l > MAX_OVERDUE_SCAN_BATCH_LIMIT {
        MAX_OVERDUE_SCAN_BATCH_LIMIT as nat
    } else {
        l as nat
    }
}

/// Whether `inv` is funded and `now` lies strictly after its due date.
pub open spec fn is_overdue(inv: Invoice, now: u64) -> bool {
    inv.status == InvoiceStatus::Funded && now > inv.due_date
}

/// Whether `inv` is funded and `now` lies strictly after its due date plus
/// `grace` seconds.
pub open spec fn past_grace(inv: Invoice, grace: u64, now: u64) -> bool {
    inv.status == InvoiceStatus::Funded && now > inv.due_date + grace
}

/// Rank of position `p` among the funded invoices of `s`: how many funded
/// invoices come before it.
pub open spec fn funded_rank(s: Seq<Invoice>, p: int) -> nat {
    status_count(s.take(p), InvoiceStatus::Funded)
}

/// Whether a scan that starts at funded rank `start` and looks at `scanned`
/// funded invoices, wrapping around after the last, visits position `p`.
pub open spec fn in_scan_window(s: Seq<Invoice>, p: int, start: nat, scanned: nat) -> bool {
    &&& s[p].status == InvoiceStatus::Funded
    &&& (funded_rank(s, p) - start) % (status_count(s, InvoiceStatus::Funded) as int) < scanned
}

/// Number of positions below `upto` that the scan visits and finds overdue.
pub open spec fn window_overdue_count(
    s: Seq<Invoice>,
    upto: int,
    start: nat,
    scanned: nat,
    now: u64,
) -> nat
    decreases upto,
{
    if upto <= 0 {
        0
    } else {
        window_overdue_count(s, upto - 1, start, scanned, now) + if in_scan_window(
            s,
            upto - 1,
            start,
            scanned,
        ) && is_overdue(s[upto - 1], now) {
            1nat
        } else {
            0nat
        }
    }
}

/// Invoice `inv` after a scan: defaulted when the scan visits it and its
/// grace period has passed, else unchanged.
pub open spec fn after_scan(inv: Invoice, visited: bool, grace: u64, now: u64) -> Invoice {
    if visited && past_grace(inv, grace, now) {
        Invoice { status: InvoiceStatus::Defaulted, ..inv }
    } else {
        inv
    }
}

/// Defaulting settles an invoice: once a visit has defaulted it, or found it
/// not past its grace period, a second visit at the same time with the same
/// grace period changes nothing and defaults nothing.
pub proof fn lemma_default_settles(inv: Invoice, grace: u64, now: u64)
    ensures
        past_grace(inv, grace, now) ==> !past_grace(after_scan(inv, true, grace, now), grace, now),
        after_scan(after_scan(inv, true, grace, now), true, grace, now) == after_scan(
            inv,
            true,
            grace,
            now,
        ),
{
}

/// A prefix never holds more invoices of a status than the whole sequence.
proof fn lemma_prefix_status_count(s: Seq<Invoice>, i: int, st: InvoiceStatus)
    requires
        0 <= i <= s.len(),
    ensures
        status_count(s.take(i), st) <= status_count(s, st),
    decreases s.len(),
{
    if i == s.len() {
        assert(s.take(i) =~= s);
    } else {
        assert(s.drop_last().take(i) =~= s.take(i));
        lemma_prefix_status_count(s.drop_last(), i, st);
    }
}

/// For ranks below `n`, the wrapped distance from `start` to `r` has the
/// closed form the scan computes.
proof fn lemma_wrapped_offset(r: int, start: int, n: int)
    requires
        0 <= r < n,
        0 <= start < n,
    ensures
        (r - start) % n == if r >= start {
            r - start
        } else {
            r + (n - start)
        },
{
    if r >= start {
        vstd::arithmetic::div_mod::lemma_small_mod((r - start) as nat, n as nat);
    } else {
        vstd::arithmetic::div_mod::lemma_mod_add_multiples_vanish(r - start, n);
        vstd::arithmetic::div_mod::lemma_small_mod((n + (r - start)) as nat, n as nat);
    }
}

/// For a start below `n` and a step of at most `n`, the wrapped cursor has
/// the closed form the scan computes.
proof fn lemma_wrapped_cursor(start: int, step: int, n: int)
    requires
        0 <= start < n,
        0 <= step <= n,
    ensures
        (start + step) % n == if step >= n - start {
            step - (n - start)
        } else {
            start + step
        },
{
    if step >= n - start {
        vstd::arithmetic::div_mod::lemma_mod_sub_multiples_vanish(start + step, n);
        vstd::arithmetic::div_mod::lemma_small_mod((-n + (start + step)) as nat, n as nat);
    } else {
        vstd::arithmetic::div_mod::lemma_small_mod((start + step) as nat, n as nat);
    }
}

/// What one scan reports.
#[derive(Clone, Copy, Debug, PartialEq, Eq, Structural)]
pub struct OverdueScanResult {
    /// Funded invoices looked at.
    pub scanned_count: u64,
    /// Of those, the ones past their due date.
    pub overdue_count: u64,
    /// Funded invoices when the scan began.
    pub total_funded: u64,
    /// Funded rank the next scan starts from.
    pub next_cursor: u64,
}

/// Where the next scan of funded invoices starts.
pub struct OverdueScanner {
    cursor: u64,
}

impl OverdueScanner {
    /// The stored cursor.
    pub closed spec fn cursor(&self) -> u64 {
        self.cursor
    }

    /// A scanner that starts from the first funded invoice.
    pub fn new() -> (r: Self)
        ensures
            r.cursor() == 0,
    {
        OverdueScanner { cursor: 0 }
    }

    /// Funded rank the next scan starts from.
    pub fn get_overdue_scan_cursor(&self) -> (r: u64)
        ensures
            r == self.cursor(),
    {
        self.cursor
    }

    /// Batch size of a scan that names none.
    pub fn get_overdue_scan_batch_limit(&self) -> (r: u32)
        ensures
            r == DEFAULT_OVERDUE_SCAN_BATCH_LIMIT,
    {
        DEFAULT_OVERDUE_SCAN_BATCH_LIMIT
    }

    /// Largest batch size a scan may use.
    pub fn get_overdue_scan_batch_limit_max(&self) -> (r: u32)
        ensures
            r == MAX_OVERDUE_SCAN_BATCH_LIMIT,
    {
        MAX_OVERDUE_SCAN_BATCH_LIMIT
    }

    /// Looks at up to `limit` funded invoices (see `effective_batch_limit`),
    /// in upload order, starting from the cursor and wrapping around after
    /// the last; counts those past their due date at `now` and defaults those
    /// past their grace period (see `grace_or_default`). The cursor moves on
    /// by the number looked at, modulo the number of funded invoices, and is
    /// reset to 0 when there are none.
    pub fn scan_overdue_invoices(
        &mut self,
        registry: &mut InvoiceRegistry,
        grace: Option<u64>,
        limit: Option<u32>,
        now: u64,
    ) -> (r: OverdueScanResult)
        requires
            old(registry).wf(),
        ensures
            final(registry).wf(),
            final(registry).id_allocator() == old(registry).id_allocator(),
            final(registry).stored().len() == old(registry).stored().len(),
            ({
                let s = old(registry).stored();
                let n = status_count(s, InvoiceStatus::Funded);
                let start = ((old(self).cursor() as int) % (n as int)) as nat;
                let scanned = if effective_batch_limit(limit) < n {
                    effective_batch_limit(limit)
                } else {
                    n
                };
                &&& r.total_funded == n
                &&& n == 0 ==> r == (OverdueScanResult {
                    scanned_count: 0,
                    overdue_count: 0,
                    total_funded: 0,
                    next_cursor: 0,
                }) && final(registry).stored() == s
                &&& n > 0 ==> {
                    &&& r.scanned_count == scanned
                    &&& r.overdue_count == window_overdue_count(s, s.len() as int, start, scanned, now)
                    &&& r.next_cursor == ((start + scanned) as int) % (n as int)
                    &&& forall|p: int|
                        0 <= p < s.len() ==> #[trigger] final(registry).stored()[p] == after_scan(
                            s[p],
                            in_scan_window(s, p, start, scanned),
                            grace_or_default(grace),
                            now,
                        )
                }
            }),
            final(self).cursor() == r.next_cursor,
    {
        let g: u64 = match grace {
            Some(g) => g,
            None => DEFAULT_GRACE_PERIOD,
        };
        let l: u32 = match limit {
            Some(l) => l,
            None => DEFAULT_OVERDUE_SCAN_BATCH_LIMIT,
        };
        let lim: u64 = if l == 0 {
            1
        } else if l > MAX_OVERDUE_SCAN_BATCH_LIMIT {
            MAX_OVERDUE_SCAN_BATCH_LIMIT as u64
        } else {
            l as u64
        };
        let ghost s = registry.stored();
        let len = registry.get_total_invoice_count();
        let n = registry.get_invoice_count_by_status(InvoiceStatus::Funded) as u64;
        if n == 0 {
            self.cursor = 0;
            return OverdueScanResult {
                scanned_count: 0,
                overdue_count: 0,
                total_funded: 0,
                next_cursor: 0,
            };
        }
        let start = self.cursor % n;
        let scanned = if lim < n {
            lim
        } else {
            n
        };
        let mut rank: u64 = 0;
        let mut overdue: u64 = 0;
        let mut p: usize = 0;
        while p < len
            invariant
                len == s.len(),
                n == status_count(s, InvoiceStatus::Funded),
                0 < n,
                start < n,
                scanned <= n,
                g == grace_or_default(grace),
                0 <= p <= len,
                rank == funded_rank(s, p as int),
                overdue == window_overdue_count(s, p as int, start as nat, scanned as nat, now),
                overdue <= p,
                registry.wf(),
                registry.id_allocator() == old(registry).id_allocator(),
                registry.stored().len() == s.len(),
                forall|k: int|
                    0 <= k < p ==> #[trigger] registry.stored()[k] == after_scan(
                        s[k],
                        in_scan_window(s, k, start as nat, scanned as nat),
                        g,
                        now,
                    ),
                forall|k: int| p <= k < len ==> #[trigger] registry.stored()[k] == s[k],
            decreases len - p,
        {
            proof {
                assert(s.take(p + 1).drop_last() =~= s.take(p as int));
                lemma_prefix_status_count(s, p + 1, InvoiceStatus::Funded);
            }
            let inv = registry.invoice_at(p);
            assert(*inv == s[p as int]);
            if inv.status == InvoiceStatus::Funded {
                let offset = if rank >= start {
                    rank - start
                } else {
                    rank + (n - start)
                };
                proof {
                    lemma_wrapped_offset(rank as int, start as int, n as int);
                }
                if offset < scanned {
                    let due = inv.due_date;
                    if now > due {
                        overdue = overdue + 1;
                    }
                    let defaulted = match due.checked_add(g) {
                        Some(deadline) => now > deadline,
                        None => false,
                    };
                    if defaulted {
                        let ghost before = registry.stored();
                        registry.set_status_at(p, InvoiceStatus::Defaulted);
                        proof {
                            assert forall|k: int| 0 <= k < len && k != p implies #[trigger] registry.stored()[k] == before[k] by {}
                        }
                    }
                }
                rank = rank + 1;
            }
            p = p + 1;
        }
        proof {
            assert(s.take(len as int) =~= s);
        }
        let next = if scanned >= n - start {
            scanned - (n - start)
        } else {
            start + scanned
        };
        proof {
            lemma_wrapped_cursor(start as int, scanned as int, n as int);
        }
        self.cursor = next;
        OverdueScanResult {
            scanned_count: scanned,
            overdue_count: overdue,
            total_funded: n,
            next_cursor: next,
        }
    }

    /// One scan with the default grace period and batch size; returns how
    /// many of the funded invoices looked at are past their due date.
    pub fn check_overdue_invoices(&mut self, registry: &mut InvoiceRegistry, now: u64) -> (r: u64)
        requires
            old(registry).wf(),
        ensures
            final(registry).wf(),
            final(registry).id_allocator() == old(registry).id_allocator(),
            final(registry).stored().len() == old(registry).stored().len(),
            ({
                let s = old(registry).stored();
                let n = status_count(s, InvoiceStatus::Funded);
                let start = ((old(self).cursor() as int) % (n as int)) as nat;
                let lim = DEFAULT_OVERDUE_SCAN_BATCH_LIMIT as nat;
                let scanned = if lim < n {
                    lim
                } else {
                    n
                };
                &&& n == 0 ==> r == 0 && final(registry).stored() == s && final(self).cursor() == 0
                &&& n > 0 ==> {
                    &&& r == window_overdue_count(s, s.len() as int, start, scanned, now)
                    &&& final(self).cursor() == ((start + scanned) as int) % (n as int)
                    &&& forall|p: int|
                        0 <= p < s.len() ==> #[trigger] final(registry).stored()[p] == after_scan(
                            s[p],
                            in_scan_window(s, p, start, scanned),
                            DEFAULT_GRACE_PERIOD,
                            now,
                        )
                }
            }),
    {
        self.scan_overdue_invoices(registry, None, None, now).overdue_count
    }

    /// One scan with grace period `grace` and the default batch size;
    /// returns how many of the funded invoices looked at are past their due
    /// date.
    pub fn check_overdue_invoices_grace(
        &mut self,
        registry: &mut InvoiceRegistry,
        grace: u64,
        now: u64,
    ) -> (r: u64)
        requires
            old(registry).wf(),
        ensures
            final(registry).wf(),
            final(registry).id_allocator() == old(registry).id_allocator(),
            final(registry).stored().len() == old(registry).stored().len(),
            ({
                let s = old(registry).stored();
                let n = status_count(s, InvoiceStatus::Funded);
                let start = ((old(self).cursor() as int) % (n as int)) as nat;
                let lim = DEFAULT_OVERDUE_SCAN_BATCH_LIMIT as nat;
                let scanned = if lim < n {
                    lim
                } else {
                    n
                };
                &&& n == 0 ==> r == 0 && final(registry).stored() == s && final(self).cursor() == 0
                &&& n > 0 ==> {
                    &&& r == window_overdue_count(s, s.len() as int, start, scanned, now)
                    &&& final(self).cursor() == ((start + scanned) as int) % (n as int)
                    &&& forall|p: int|
                        0 <= p < s.len() ==> #[trigger] final(registry).stored()[p] == after_scan(
                            s[p],
                            in_scan_window(s, p, start, scanned),
                            grace,
                            now,
                        )
                }
            }),
    {
        self.scan_overdue_invoices(registry, Some(grace), None, now).overdue_count
    }
}

/// Defaults invoice `id` when it is funded and its grace period (see
/// `grace_or_default`) has passed at `now`, and says whether it did.
/// `InvoiceNotFound`, changing nothing, when no such invoice is stored.
pub fn check_invoice_expiration(
    registry: &mut InvoiceRegistry,
    id: InvoiceId,
    grace: Option<u64>,
    now: u64,
) -> (r: Result<bool, QuickLendXError>)
    requires
        old(registry).wf(),
    ensures
        final(registry).wf(),
        final(registry).id_allocator() == old(registry).id_allocator(),
        !has_invoice(old(registry).stored(), id) ==> r == Err::<bool, QuickLendXError>(
            QuickLendXError::InvoiceNotFound,
        ) && final(registry).stored() == old(registry).stored(),
        has_invoice(old(registry).stored(), id) ==> exists|i: int|
            {
                &&& 0 <= i < old(registry).stored().len()
                &&& #[trigger] old(registry).stored()[i].id == id
                &&& r == Ok::<bool, QuickLendXError>(
                    past_grace(old(registry).stored()[i], grace_or_default(grace), now),
                )
                &&& final(registry).stored() == old(registry).stored().update(
                    i,
                    after_scan(old(registry).stored()[i], true, grace_or_default(grace), now),
                )
            },
{
    let g: u64 = match grace {
        Some(g) => g,
        None => DEFAULT_GRACE_PERIOD,
    };
    let p = match registry.find(id) {
        Some(p) => p,
        None => {
            return Err(QuickLendXError::InvoiceNotFound);
        },
    };
    let ghost s = registry.stored();
    let inv = registry.invoice_at(p);
    let defaulted = inv.status == InvoiceStatus::Funded && match inv.due_date.checked_add(g) {
        Some(deadline) => now > deadline,
        None => false,
    };
    if defaulted {
        registry.set_status_at(p, InvoiceStatus::Defaulted);
    } else {
        assert(registry.stored() =~= s.update(p as int, s[p as int]));
    }
    assert(s[p as int].id == id);
    Ok(defaulted)
}

} // verus!
