//! Offset pagination: the page metadata a list call returns.

use vstd::prelude::*;

verus! {

/// The page size used when the caller asks for none (limit `0`).
pub const DEFAULT_LIMIT: u64 = 20;

/// The largest page size served.
pub const MAX_LIMIT: u64 = 200;

/// Pagination metadata of one page of an offset-paginated list.
#[derive(Debug, Clone, Copy, PartialEq, Eq, Structural)]
pub struct OffsetPage {
    pub(super) total_count: u64,
    pub(super) has_more: bool,
    pub(super) limit: u64,
    pub(super) offset: u64,
}

impl OffsetPage {
    pub closed spec fn spec_total_count(&self) -> u64 {
        self.total_count
    }

    pub closed spec fn spec_has_more(&self) -> bool {
        self.has_more
    }

    pub closed spec fn spec_limit(&self) -> u64 {
        self.limit
    }

    pub closed spec fn spec_offset(&self) -> u64 {
        self.offset
    }

    /// `(total_count, has_more, limit, offset)`.
    pub fn into_parts(self) -> (r: (u64, bool, u64, u64))
        ensures
            r == (self.spec_total_count(), self.spec_has_more(), self.spec_limit(),
                self.spec_offset()),
    {
        (self.total_count, self.has_more, self.limit, self.offset)
    }

    /// Total number of items in the list.
    pub fn total_count(&self) -> (r: u64)
        ensures
            r == self.spec_total_count(),
    {
        self.total_count
    }

    /// Whether items remain after this page.
    pub fn has_more(&self) -> (r: bool)
        ensures
            r == self.spec_has_more(),
    {
        self.has_more
    }

    /// The page size in effect.
    pub fn limit(&self) -> (r: u64)
        ensures
            r == self.spec_limit(),
    {
        self.limit
    }

    /// The offset of this page.
    pub fn offset(&self) -> (r: u64)
        ensures
            r == self.spec_offset(),
    {
        self.offset
    }
}

/// The page size in effect: the default for `0`, otherwise the request capped
/// at the maximum.
pub open spec fn effective_limit(limit_in: u64, default_limit: u64, max_limit: u64) -> u64 {
    if limit_in == 0 {
        default_limit
    } else if limit_in <= max_limit {
        limit_in
    } else {
        max_limit
    }
}

/// Page metadata for `item_count` items served at `offset` out of `total`.
pub fn build_offset_page(
    limit_in: u64,
    offset: u64,
    item_count: usize,
    total: u64,
    default_limit: u64,
    max_limit: u64,
) -> (r: OffsetPage)
    requires
        offset + item_count <= u64::MAX,
    ensures
        r.spec_total_count() == total,
        r.spec_has_more() == (offset + item_count < total),
        r.spec_limit() == effective_limit(limit_in, default_limit, max_limit),
        r.spec_offset() == offset,
{
    let limit = if limit_in == 0 {
        default_limit
    } else if limit_in <= max_limit {
        limit_in
    } else {
        max_limit
    };
    let has_more = offset + (item_count as u64) < total;
    OffsetPage { total_count: total, has_more, limit, offset }
}

/// [`build_offset_page`] with [`DEFAULT_LIMIT`] and [`MAX_LIMIT`].
pub fn build_page(limit_in: u64, offset: u64, item_count: usize, total: u64) -> (r: OffsetPage)
    requires
        offset + item_count <= u64::MAX,
    ensures
        r.spec_total_count() == total,
        r.spec_has_more() == (offset + item_count < total),
        r.spec_limit() == effective_limit(limit_in, DEFAULT_LIMIT, MAX_LIMIT),
        r.spec_offset() == offset,
{
    build_offset_page(limit_in, offset, item_count, total, DEFAULT_LIMIT, MAX_LIMIT)
}

/// The page size in effect is never above the maximum (given a default that
/// is not either) and never `0` (given a non-zero default).
pub proof fn lemma_limit_bounds(limit_in: u64, default_limit: u64, max_limit: u64)
    requires
        default_limit <= max_limit,
    ensures
        effective_limit(limit_in, default_limit, max_limit) <= max_limit,
        default_limit > 0 ==> effective_limit(limit_in, default_limit, max_limit) > 0,
{
}

} // verus!
