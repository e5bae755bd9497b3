//! Offset/limit pagination over ordered collections.
use vstd::prelude::*;

verus! {

/// Most items a single query may return.
pub const MAX_QUERY_LIMIT: u32 = 100;

/// `a` if it is below `b`, else `b`.
pub open spec fn min_of(a: int, b: int) -> int {
    if a <= b {
        a
    } else {
        b
    }
}

/// Start of the page `(offset, limit)` of a collection of `total` items.
pub open spec fn page_start(offset: int, total: int) -> int {
    min_of(offset, total)
}

/// End (exclusive) of the page `(offset, limit)` of a collection of `total`
/// items: at most `MAX_QUERY_LIMIT` items past the start, never past the end.
pub open spec fn page_end(offset: int, limit: int, total: int) -> int {
    min_of(page_start(offset, total) + min_of(limit, MAX_QUERY_LIMIT as int), total)
}

/// `limit` clamped to `MAX_QUERY_LIMIT`.
pub fn cap_query_limit(limit: u32) -> (r: u32)
    ensures
        r == min_of(limit as int, MAX_QUERY_LIMIT as int),
{
    if limit > MAX_QUERY_LIMIT {
        MAX_QUERY_LIMIT
    } else {
        limit
    }
}

/// Bounds `(start, end)` of the page `(offset, limit)` of a collection of
/// `collection_size` items.
pub fn calculate_safe_bounds(offset: u32, limit: u32, collection_size: u32) -> (r: (u32, u32))
    ensures
        r.0 == page_start(offset as int, collection_size as int),
        r.1 == page_end(offset as int, limit as int, collection_size as int),
        r.0 <= r.1 <= collection_size,
        r.1 - r.0 <= MAX_QUERY_LIMIT,
{
    let start = if offset < collection_size {
        offset
    } else {
        collection_size
    };
    let capped = cap_query_limit(limit);
    let remaining = collection_size - start;
    let take = if capped < remaining {
        capped
    } else {
        remaining
    };
    (start, start + take)
}

/// Safe offset, effective limit and whether items remain past the page
/// `(offset, limit)` of a collection of `total_count` items.
pub fn validate_pagination_params(offset: u32, limit: u32, total_count: u32) -> (r: (
    u32,
    u32,
    bool,
))
    ensures
        r.0 == page_start(offset as int, total_count as int),
        r.1 == page_end(offset as int, limit as int, total_count as int) - page_start(
            offset as int,
            total_count as int,
        ),
        r.2 == (page_end(offset as int, limit as int, total_count as int) < total_count),
        r.0 <= total_count,
        r.1 <= MAX_QUERY_LIMIT,
        r.0 + r.1 <= total_count,
{
    let (start, end) = calculate_safe_bounds(offset, limit, total_count);
    (start, end - start, end < total_count)
}

/// The page `(offset, limit)` of `items`: the items from the page start to
/// the page end, in order, each a clone of the original.
pub fn paginate_slice<T: Clone>(items: &[T], offset: u32, limit: u32) -> (r: Vec<T>)
    ensures
        ({
            let start = page_start(offset as int, items@.len() as int);
            let end = page_end(offset as int, limit as int, items@.len() as int);
            &&& r@.len() == end - start
            &&& forall|i: int| 0 <= i < r@.len() ==> cloned::<T>(items@[start + i], #[trigger] r@[i])
        }),
{
    let len = items.len();
    let start: usize = if (offset as usize) < len {
        offset as usize
    } else {
        len
    };
    let capped = cap_query_limit(limit) as usize;
    let end: usize = if capped < len - start {
        start + capped
    } else {
        len
    };
    let mut out: Vec<T> = Vec::new();
    let mut i: usize = start;
    while i < end
        invariant
            start <= i <= end <= len,
            len == items@.len(),
            start == page_start(offset as int, len as int),
            end == page_end(offset as int, limit as int, len as int),
            out@.len() == i - start,
            forall|j: int| 0 <= j < out@.len() ==> cloned::<T>(items@[start + j], #[trigger] out@[j]),
        decreases end - i,
    {
        let item = items[i].clone();
        out.push(item);
        i = i + 1;
    }
    out
}

/// Walking a collection page by page with a limit of at most
/// `MAX_QUERY_LIMIT`, each page begins where the previous one ended, so no
/// item is skipped or returned twice.
pub proof fn lemma_pages_are_adjacent(offset: int, limit: int, total: int)
    requires
        0 <= offset,
        0 <= limit <= MAX_QUERY_LIMIT,
        0 <= total,
    ensures
        page_end(offset, limit, total) == page_start(offset + limit, total),
{
}

} // verus!
