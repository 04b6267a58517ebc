//! Where documents come from.
//!
//! [`Storage`] is what the directory tree reads documents through. A
//! document is looked up in the local cache first and fetched from the
//! remote source where the cache lacks it; how that goes step by step is in
//! `resolution`. This module also says which documents a bulk population
//! has to resolve.

use std::collections::HashSet;
use vstd::prelude::*;
use crate::resolution::Outcome;
use crate::xkcd::Xkcd;

verus! {

broadcast use vstd::std_specs::hash::group_hash_axioms;

/// How many fetches a bulk population may start in one second.
pub const REQUESTS_PER_SECOND: u32 = 25;

/// What the directory tree asks of a store of documents. An answer depends
/// on what the store holds and can reach at the time of the call, so none of
/// these promises anything about what it returns.
pub trait Storage {
    /// The ids of all documents whose metadata the local cache holds.
    fn get_stored_ids(&self) -> Vec<u32>;

    /// The metadata of document `num`, from the cache or else from the
    /// remote source; `None` where neither gives it.
    fn get_meta(&self, num: u32) -> Option<Xkcd>;

    /// The image of document `num`, from the cache or else from the remote
    /// source; `None` where neither gives it.
    fn get_image(&self, num: u32) -> Option<Vec<u8>>;

    /// Metadata and image of document `num`; `None` where either is
    /// missing.
    fn get_xkcd(&self, num: u32) -> Option<(Xkcd, Vec<u8>)>;

    /// The length of the cached image of document `num`, without loading or
    /// fetching it.
    fn get_image_size(&self, num: u32) -> Option<u64>;
}

/// The last id that a population of `start` to `end` reaches when the
/// latest document is `latest`.
pub open spec fn range_end(end: u32, latest: u32) -> u32 {
    if end <= latest {
        end
    } else {
        latest
    }
}

/// The first id that a population of `start` to `end` reaches when the
/// latest document is `latest`.
pub open spec fn range_start(start: u32, end: u32, latest: u32) -> u32 {
    if start <= range_end(end, latest) {
        start
    } else {
        range_end(end, latest)
    }
}

/// The ids from `lo` to `hi` that are not in `stored`, in ascending order.
pub open spec fn missing_between(lo: int, hi: int, stored: Seq<u32>) -> Seq<u32>
    decreases hi - lo + 1,
{
    if hi < lo {
        Seq::empty()
    } else if stored.contains(hi as u32) {
        missing_between(lo, hi - 1, stored)
    } else {
        missing_between(lo, hi - 1, stored).push(hi as u32)
    }
}

/// The ids that a population of `start` to `end` has to resolve when the
/// latest document is `latest` and the cache knows `stored`.
pub open spec fn missing_in_range(start: u32, end: u32, latest: u32, stored: Seq<u32>) -> Seq<u32> {
    missing_between(
        range_start(start, end, latest) as int,
        range_end(end, latest) as int,
        stored,
    )
}

/// The ids between `lo` and `hi` that are not stored are exactly the ids
/// of that range which `stored` lacks, each once, in ascending order.
pub proof fn lemma_missing_between(lo: int, hi: int, stored: Seq<u32>)
    requires
        0 <= lo,
        hi <= u32::MAX,
    ensures
        forall|n: u32|
            missing_between(lo, hi, stored).contains(n) <==> lo <= n <= hi && !stored.contains(n),
        forall|i: int, j: int|
            0 <= i < j < missing_between(lo, hi, stored).len() ==> missing_between(
                lo,
                hi,
                stored,
            )[i] < missing_between(lo, hi, stored)[j],
        forall|i: int|
            0 <= i < missing_between(lo, hi, stored).len() ==> lo <= #[trigger] missing_between(
                lo,
                hi,
                stored,
            )[i] <= hi,
    decreases hi - lo + 1,
{
    if hi >= lo {
        lemma_missing_between(lo, hi - 1, stored);
        let before = missing_between(lo, hi - 1, stored);
        let all = missing_between(lo, hi, stored);
        assert forall|n: u32| all.contains(n) <==> lo <= n <= hi && !stored.contains(n) by {
            if stored.contains(hi as u32) {
            } else {
                assert(all == before.push(hi as u32));
                if all.contains(n) {
                    let i = choose|i: int| 0 <= i < all.len() && all[i] == n;
                    if i < before.len() {
                        assert(before[i] == n);
                        assert(before.contains(n));
                    }
                }
                if lo <= n <= hi && !stored.contains(n) {
                    if n == hi {
                        assert(all[before.len() as int] == n);
                    } else {
                        assert(before.contains(n));
                        let i = choose|i: int| 0 <= i < before.len() && before[i] == n;
                        assert(all[i] == n);
                    }
                }
            }
        }
    }
}

/// The ids that a population of `start` to `end` has to resolve: those
/// from `start` to `end` that `stored` lacks, where `end` counts as `latest`
/// at most and `start` as that end at most.
pub fn missing_ids(start: u32, end: u32, latest: u32, stored: &Vec<u32>) -> (missing: Vec<u32>)
    ensures
        missing@ == missing_in_range(start, end, latest, stored@),
        forall|n: u32|
            missing@.contains(n) <==> range_start(start, end, latest) <= n <= range_end(
                end,
                latest,
            ) && !stored@.contains(n),
        forall|i: int, j: int| 0 <= i < j < missing.len() ==> missing[i] < missing[j],
{
    let hi: u32 = if end <= latest {
        end
    } else {
        latest
    };
    let lo: u32 = if start <= hi {
        start
    } else {
        hi
    };
    let mut known: HashSet<u32> = HashSet::new();
    let mut k: usize = 0;
    while k < stored.len()
        invariant
            0 <= k <= stored.len(),
            forall|n: u32| known@.contains(n) <==> stored@.take(k as int).contains(n),
        decreases stored.len() - k,
    {
        let ghost before = stored@.take(k as int);
        let ghost after = stored@.take(k + 1);
        let id = stored[k];
        known.insert(id);
        assert(after =~= before.push(id));
        assert forall|n: u32| known@.contains(n) <==> after.contains(n) by {
            if after.contains(n) {
                let i = choose|i: int| 0 <= i < after.len() && after[i] == n;
                if i < before.len() {
                    assert(before[i] == n);
                }
            }
            if before.contains(n) {
                let i = choose|i: int| 0 <= i < before.len() && before[i] == n;
                assert(after[i] == n);
            }
            if n == id {
                assert(after[k as int] == n);
            }
        }
        k = k + 1;
    }
    assert(stored@.take(k as int) =~= stored@);
    let mut missing: Vec<u32> = Vec::new();
    let mut n: u64 = lo as u64;
    while n <= hi as u64
        invariant
            lo <= n <= hi + 1,
            forall|id: u32| known@.contains(id) <==> stored@.contains(id),
            missing@ == missing_between(lo as int, n - 1, stored@),
        decreases hi + 1 - n,
    {
        let id = n as u32;
        if !known.contains(&id) {
            missing.push(id);
        }
        n = n + 1;
    }
    proof {
        lemma_missing_between(lo as int, hi as int, stored@);
    }
    missing
}

/// What a population of `start` to `end` has to resolve, given the outcome
/// of resolving the latest document and the ids that the cache knows. It
/// fails, with nothing to resolve, exactly where the latest document could
/// not be had.
pub fn population_targets(start: u32, end: u32, latest: &Outcome, stored: &Vec<u32>) -> (targets:
    Result<Vec<u32>, ()>)
    ensures
        match *latest {
            Outcome::Meta(meta) => targets matches Ok(ids) && ids@ == missing_in_range(
                start,
                end,
                meta.num,
                stored@,
            ),
            _ => targets is Err,
        },
{
    match latest {
        Outcome::Meta(meta) => Ok(missing_ids(start, end, meta.num, stored)),
        _ => Err(()),
    }
}

} // verus!
