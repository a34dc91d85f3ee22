//! Bulk operations: a request with many items, and a response with one
//! result, success or failure, per item.

use vstd::prelude::*;
use crate::error::ApiError;

verus! {

/// A request carrying several items.
#[derive(Debug, Clone, PartialEq)]
pub struct BulkRequest<T> {
    /// The items, in order.
    pub items: Vec<T>,
}

/// The result for one item of a bulk request.
#[derive(Debug, Clone, PartialEq)]
pub enum BulkItemResult<T> {
    /// The item succeeded.
    Success {
        /// What the item produced.
        data: T,
    },
    /// The item failed.
    Failure {
        /// Position of the item in the request.
        index: usize,
        /// Why it failed.
        error: ApiError,
    },
}

impl<T> BulkItemResult<T> {
    /// Whether the item succeeded.
    pub fn is_success(&self) -> (r: bool)
        ensures
            r == (*self is Success),
    {
        match self {
            BulkItemResult::Success { .. } => true,
            BulkItemResult::Failure { .. } => false,
        }
    }

    /// Whether the item failed.
    pub fn is_failure(&self) -> (r: bool)
        ensures
            r == (*self is Failure),
    {
        match self {
            BulkItemResult::Success { .. } => false,
            BulkItemResult::Failure { .. } => true,
        }
    }
}

/// Number of successes.
pub open spec fn count_success<T>(s: Seq<BulkItemResult<T>>) -> nat
    decreases s.len(),
{
    if s.len() == 0 {
        0
    } else {
        count_success(s.drop_last()) + if s.last() is Success {
            1nat
        } else {
            0nat
        }
    }
}

/// Number of failures.
pub open spec fn count_failure<T>(s: Seq<BulkItemResult<T>>) -> nat
    decreases s.len(),
{
    if s.len() == 0 {
        0
    } else {
        count_failure(s.drop_last()) + if s.last() is Failure {
            1nat
        } else {
            0nat
        }
    }
}

/// The response to a bulk request: one result per item.
#[derive(Debug, Clone, PartialEq)]
pub struct BulkResponse<T> {
    /// The results, in item order.
    pub results: Vec<BulkItemResult<T>>,
}

proof fn lemma_count_bound<T>(s: Seq<BulkItemResult<T>>)
    ensures
        count_success(s) + count_failure(s) == s.len(),
    decreases s.len(),
{
    if s.len() > 0 {
        lemma_count_bound(s.drop_last());
    }
}

impl<T> BulkResponse<T> {
    /// Number of successful items.
    pub fn succeeded_count(&self) -> (r: usize)
        ensures
            r == count_success(self.results@),
    {
        let mut n: usize = 0;
        let mut i: usize = 0;
        while i < self.results.len()
            invariant
                i <= self.results@.len(),
                n == count_success(self.results@.subrange(0, i as int)),
                n <= i,
            decreases self.results@.len() - i,
        {
            let ghost prev = self.results@.subrange(0, i as int);
            assert(self.results@.subrange(0, i + 1).drop_last() =~= prev);
            proof {
                lemma_count_bound(prev);
            }
            if self.results[i].is_success() {
                n = n + 1;
            }
            i = i + 1;
        }
        assert(self.results@.subrange(0, i as int) =~= self.results@);
        n
    }

    /// Number of failed items.
    pub fn failed_count(&self) -> (r: usize)
        ensures
            r == count_failure(self.results@),
    {
        let mut n: usize = 0;
        let mut i: usize = 0;
        while i < self.results.len()
            invariant
                i <= self.results@.len(),
                n == count_failure(self.results@.subrange(0, i as int)),
                n <= i,
            decreases self.results@.len() - i,
        {
            let ghost prev = self.results@.subrange(0, i as int);
            assert(self.results@.subrange(0, i + 1).drop_last() =~= prev);
            proof {
                lemma_count_bound(prev);
            }
            if self.results[i].is_failure() {
                n = n + 1;
            }
            i = i + 1;
        }
        assert(self.results@.subrange(0, i as int) =~= self.results@);
        n
    }

    /// Whether any item failed.
    pub fn has_failures(&self) -> (r: bool)
        ensures
            r == exists|i: int| 0 <= i < self.results@.len() && (#[trigger] self.results@[i]) is Failure,
    {
        let mut i: usize = 0;
        while i < self.results.len()
            invariant
                i <= self.results@.len(),
                forall|j: int| 0 <= j < i ==> !((#[trigger] self.results@[j]) is Failure),
            decreases self.results@.len() - i,
        {
            if self.results[i].is_failure() {
                return true;
            }
            i = i + 1;
        }
        false
    }
}

/// Every item is counted once: the successes and the failures add up to the
/// number of results, and there are failures exactly when the failure count
/// is not zero.
pub proof fn lemma_bulk_counts<T>(s: Seq<BulkItemResult<T>>)
    ensures
        count_success(s) + count_failure(s) == s.len(),
        (count_failure(s) > 0) == exists|i: int| 0 <= i < s.len() && (#[trigger] s[i]) is Failure,
    decreases s.len(),
{
    lemma_count_bound(s);
    if s.len() > 0 {
        let t = s.drop_last();
        lemma_bulk_counts(t);
        if exists|i: int| 0 <= i < t.len() && (#[trigger] t[i]) is Failure {
            let i = choose|i: int| 0 <= i < t.len() && (#[trigger] t[i]) is Failure;
            assert(s[i] == t[i]);
        }
        if exists|i: int| 0 <= i < s.len() && (#[trigger] s[i]) is Failure {
            let i = choose|i: int| 0 <= i < s.len() && (#[trigger] s[i]) is Failure;
            if i < t.len() {
                assert(t[i] == s[i]);
            }
        }
        if s.last() is Failure {
            assert(s[s.len() - 1] is Failure);
        }
    }
}

} // verus!
