//! What resolutions do to a cache that works.
//!
//! The cache and the remote source are taken as plain maps here, and a
//! resolution is run against them from its first request to its outcome.
//! This module holds no executable code. It proves what the steps of a
//! resolution add up to: that what was resolved is kept, that what is kept
//! is not fetched again, and that a population leaves in the cache what it
//! set out to bring.

use vstd::prelude::*;
use crate::api::XkcdApiResponse;
use crate::resolution::{
    image_outcome, lemma_resolution_ends, meta_resolved, requests_left, Goal, Lookup, Outcome,
    Reply, Request, Resolution, Stage,
};
use crate::storage::{
    lemma_missing_between, missing_between, missing_in_range, range_end, range_start,
};
use crate::xkcd::{converted, Xkcd};

verus! {

/// The local cache as far as a resolution sees it: the metadata and the
/// images that it holds, by id.
pub struct Cache {
    pub metas: Map<u32, Xkcd>,
    pub images: Map<u32, Vec<u8>>,
}

/// The remote source as far as a resolution sees it: what it answers for
/// the latest document, for each id and for each image address. Where it
/// has no answer, the fetch fails.
pub struct Remote {
    pub latest: Option<XkcdApiResponse>,
    pub by_id: Map<u32, XkcdApiResponse>,
    pub images: Map<String, Vec<u8>>,
}

/// What a cache and a remote source that work as they should make of a
/// request: the cache as it is afterwards, and the reply. A lookup finds
/// what was saved, a save is kept under its id, and neither ever fails.
pub open spec fn served(cache: Cache, remote: Remote, request: Request) -> (Cache, Reply) {
    match request {
        Request::LoadMeta(num) => (
            cache,
            Reply::MetaLoaded(
                if cache.metas.contains_key(num) {
                    Lookup::Found(cache.metas[num])
                } else {
                    Lookup::Missing
                },
            ),
        ),
        Request::LoadImage(num) => (
            cache,
            Reply::ImageLoaded(
                if cache.images.contains_key(num) {
                    Lookup::Found(cache.images[num])
                } else {
                    Lookup::Missing
                },
            ),
        ),
        Request::FetchMeta(num) => (
            cache,
            Reply::MetaFetched(
                if remote.by_id.contains_key(num) {
                    Some(remote.by_id[num])
                } else {
                    None
                },
            ),
        ),
        Request::FetchLatest => (cache, Reply::MetaFetched(remote.latest)),
        Request::FetchImage(meta) => (
            cache,
            Reply::ImageFetched(
                if remote.images.contains_key(meta.image_url) {
                    Some(remote.images[meta.image_url])
                } else {
                    None
                },
            ),
        ),
        Request::SaveMeta(meta) => (
            Cache { metas: cache.metas.insert(meta.num, *meta), images: cache.images },
            Reply::Saved(true),
        ),
        Request::SaveImage(num, image) => (
            Cache { metas: cache.metas, images: cache.images.insert(num, *image) },
            Reply::Saved(true),
        ),
    }
}

/// Whether a request goes to the remote source.
pub open spec fn is_fetch(request: Request) -> bool {
    request is FetchMeta || request is FetchLatest || request is FetchImage
}

/// Where a resolution has come to: its state, the cache, and how many
/// requests went to the remote source.
pub struct Run {
    pub state: Resolution,
    pub cache: Cache,
    pub fetches: nat,
}

/// A resolution carried on from `state` against a cache and a remote
/// source that work as they should, for `limit` requests at most.
pub open spec fn run(state: Resolution, cache: Cache, remote: Remote, limit: nat) -> Run
    decreases limit,
{
    match state.pending() {
        None => Run { state, cache, fetches: 0 },
        Some(request) => if limit == 0 {
            Run { state, cache, fetches: 0 }
        } else {
            let (cache_after, reply) = served(cache, remote, request);
            let rest = run(state.advanced(reply), cache_after, remote, (limit - 1) as nat);
            Run {
                state: rest.state,
                cache: rest.cache,
                fetches: rest.fetches + if is_fetch(request) {
                    1nat
                } else {
                    0nat
                },
            }
        },
    }
}

/// The resolution of `goal` from start to outcome.
pub open spec fn resolved(goal: Goal, cache: Cache, remote: Remote) -> Run {
    run(Resolution::started(goal), cache, remote, 9)
}

/// Whether the remote source answers a request for the document `num` with
/// that document, where it answers at all.
pub open spec fn answers_with_id(remote: Remote, num: u32) -> bool {
    remote.by_id.contains_key(num) ==> remote.by_id[num].num == num
}

/// Metadata that the cache holds is resolved from the cache: the outcome is
/// what the cache holds, nothing is fetched, and the cache stays as it is.
pub proof fn lemma_meta_hit(num: u32, cache: Cache, remote: Remote)
    requires
        cache.metas.contains_key(num),
    ensures
        resolved(Goal::Meta(num), cache, remote).state.outcome() == Some(
            Outcome::Meta(cache.metas[num]),
        ),
        resolved(Goal::Meta(num), cache, remote).fetches == 0,
        resolved(Goal::Meta(num), cache, remote).cache == cache,
{
    reveal_with_fuel(run, 3);
}

/// Metadata that a resolution gave is in the cache afterwards, under the
/// id that was asked for.
pub proof fn lemma_meta_kept(num: u32, cache: Cache, remote: Remote)
    requires
        answers_with_id(remote, num),
    ensures
        resolved(Goal::Meta(num), cache, remote).state.outcome() is Some,
        resolved(Goal::Meta(num), cache, remote).state.outcome() matches Some(
            Outcome::Meta(meta),
        ) ==> {
            let after = resolved(Goal::Meta(num), cache, remote).cache;
            after.metas.contains_key(num) && after.metas[num] == meta
        },
        resolved(Goal::Meta(num), cache, remote).state.outcome() == Some(Outcome::Absent)
            <==> !cache.metas.contains_key(num) && !remote.by_id.contains_key(num),
        resolved(Goal::Meta(num), cache, remote).fetches <= 1,
{
    reveal_with_fuel(run, 5);
}

/// Resolving the same metadata twice gives the same document, and the
/// second time nothing is fetched, whatever the remote source would answer
/// by then.
pub proof fn lemma_meta_twice(num: u32, cache: Cache, remote: Remote, later: Remote)
    requires
        answers_with_id(remote, num),
        resolved(Goal::Meta(num), cache, remote).state.outcome() != Some(Outcome::Absent),
    ensures
        ({
            let first = resolved(Goal::Meta(num), cache, remote);
            let second = resolved(Goal::Meta(num), first.cache, later);
            &&& second.state.outcome() == first.state.outcome()
            &&& second.fetches == 0
            &&& second.cache == first.cache
        }),
{
    reveal_with_fuel(run, 5);
    let first = resolved(Goal::Meta(num), cache, remote);
    lemma_meta_kept(num, cache, remote);
    lemma_meta_hit(num, first.cache, later);
}

/// A limit that is as high as the number of requests that a resolution can
/// still make is as good as any higher one: the outcome is there.
pub proof fn lemma_run_limit(state: Resolution, cache: Cache, remote: Remote, a: nat, b: nat)
    requires
        a >= requests_left(state.stage),
        b >= requests_left(state.stage),
    ensures
        run(state, cache, remote, a) == run(state, cache, remote, b),
        run(state, cache, remote, a).state.outcome() is Some,
    decreases requests_left(state.stage),
{
    match state.pending() {
        None => {},
        Some(request) => {
            let (cache_after, reply) = served(cache, remote, request);
            lemma_resolution_ends(state, reply);
            lemma_run_limit(
                state.advanced(reply),
                cache_after,
                remote,
                (a - 1) as nat,
                (b - 1) as nat,
            );
        },
    }
}

/// The image that the cache holds for the document `num`, if any.
pub open spec fn cached_image(cache: Cache, num: u32) -> Option<Vec<u8>> {
    if cache.images.contains_key(num) {
        Some(cache.images[num])
    } else {
        None
    }
}

/// The second half of a resolution, from the lookup of the image on:
/// nothing leaves the cache, metadata that the cache has stays as it is,
/// and the outcome is made of the metadata that was kept and of the image
/// that the cache holds afterwards.
pub proof fn lemma_image_half(state: Resolution, cache: Cache, remote: Remote)
    requires
        state.stage is LoadImage,
    ensures
        ({
            let end = run(state, cache, remote, 6);
            &&& cache.metas.dom().subset_of(end.cache.metas.dom())
            &&& cache.images.dom().subset_of(end.cache.images.dom())
            &&& cache.metas.contains_key(state.num) ==> end.cache.metas == cache.metas
            &&& end.state.outcome() == Some(
                image_outcome(state.goal, state.kept, cached_image(end.cache, state.num)),
            )
        }),
{
    reveal_with_fuel(run, 7);
}

/// Resolving a document never takes anything out of the cache, and leaves
/// its metadata there where the cache had it or the remote source gave it.
/// Where the outcome is the document, both halves are in the cache.
pub proof fn lemma_document_kept(num: u32, cache: Cache, remote: Remote)
    requires
        answers_with_id(remote, num),
    ensures
        ({
            let end = resolved(Goal::Document(num), cache, remote);
            &&& end.state.outcome() is Some
            &&& cache.metas.dom().subset_of(end.cache.metas.dom())
            &&& cache.images.dom().subset_of(end.cache.images.dom())
            &&& cache.metas.contains_key(num) || remote.by_id.contains_key(num)
                ==> end.cache.metas.contains_key(num)
            &&& end.state.outcome() matches Some(Outcome::Document(meta, image))
                ==> end.cache.metas.contains_key(num) && end.cache.metas[num] == meta
                && end.cache.images.contains_key(num) && end.cache.images[num] == image
        }),
{
    let goal = Goal::Document(num);
    let start = Resolution::started(goal);
    let end = resolved(goal, cache, remote);
    lemma_run_limit(start, cache, remote, 9, 9);
    assert(start.pending() == Some(Request::LoadMeta(num)));
    if cache.metas.contains_key(num) {
        let state = meta_resolved(goal, num, Some(cache.metas[num]));
        assert(start.advanced(served(cache, remote, Request::LoadMeta(num)).1) == state);
        let rest = run(state, cache, remote, 8);
        assert(end.state == rest.state && end.cache == rest.cache) by {
            reveal_with_fuel(run, 2);
        }
        lemma_image_half(state, cache, remote);
        lemma_run_limit(state, cache, remote, 6, 8);
    } else {
        let fetching = Resolution { goal, num, kept: None, stage: Stage::FetchMeta };
        assert(start.advanced(served(cache, remote, Request::LoadMeta(num)).1) == fetching);
        assert(fetching.pending() == Some(Request::FetchMeta(num)));
        if remote.by_id.contains_key(num) {
            let meta = converted(remote.by_id[num]);
            let saving = Resolution { goal, num, kept: None, stage: Stage::SaveMeta(meta) };
            assert(fetching.advanced(served(cache, remote, Request::FetchMeta(num)).1) == saving);
            let state = meta_resolved(goal, num, Some(meta));
            let saved = Cache { metas: cache.metas.insert(meta.num, meta), images: cache.images };
            assert(saving.pending() == Some(Request::SaveMeta(&meta)));
            assert(served(cache, remote, Request::SaveMeta(&meta)) == (saved, Reply::Saved(true)));
            assert(saving.advanced(Reply::Saved(true)) == state);
            let rest = run(state, saved, remote, 6);
            assert(end.state == rest.state && end.cache == rest.cache) by {
                reveal_with_fuel(run, 4);
            }
            lemma_image_half(state, saved, remote);
        } else {
            assert(end.cache == cache && end.state.outcome() == Some(Outcome::Absent)) by {
                reveal_with_fuel(run, 4);
            }
        }
    }
}

/// The cache after the documents `ids` are resolved one after the other.
pub open spec fn populated(cache: Cache, remote: Remote, ids: Seq<u32>) -> Cache
    decreases ids.len(),
{
    if ids.len() == 0 {
        cache
    } else {
        resolved(
            Goal::Document(ids.last()),
            populated(cache, remote, ids.drop_last()),
            remote,
        ).cache
    }
}

/// After a population the cache knows every document that it knew before,
/// and every one of `ids` that the remote source gave.
pub proof fn lemma_populated(cache: Cache, remote: Remote, ids: Seq<u32>)
    requires
        forall|i: int| 0 <= i < ids.len() ==> answers_with_id(remote, #[trigger] ids[i]),
    ensures
        cache.metas.dom().subset_of(populated(cache, remote, ids).metas.dom()),
        forall|i: int|
            0 <= i < ids.len() && remote.by_id.contains_key(#[trigger] ids[i]) ==> populated(
                cache,
                remote,
                ids,
            ).metas.contains_key(ids[i]),
    decreases ids.len(),
{
    if ids.len() > 0 {
        let before = populated(cache, remote, ids.drop_last());
        lemma_populated(cache, remote, ids.drop_last());
        assert(answers_with_id(remote, ids[ids.len() - 1]));
        lemma_document_kept(ids.last(), before, remote);
        let after = populated(cache, remote, ids);
        assert forall|i: int|
            0 <= i < ids.len() && remote.by_id.contains_key(
                #[trigger] ids[i],
            ) implies after.metas.contains_key(ids[i]) by {
            if i < ids.len() - 1 {
                assert(ids.drop_last()[i] == ids[i]);
                assert(before.metas.dom().contains(ids[i]));
            }
        }
    }
}

/// Resolving the latest document gives what the remote source says it is,
/// and leaves it in the cache under its own id. Where the remote source
/// does not answer, there is no outcome and the cache stays as it is.
pub proof fn lemma_latest_kept(cache: Cache, remote: Remote)
    ensures
        ({
            let end = resolved(Goal::Latest, cache, remote);
            match remote.latest {
                Some(response) => {
                    let meta = converted(response);
                    &&& end.state.outcome() == Some(Outcome::Meta(meta))
                    &&& end.cache.metas.contains_key(meta.num)
                    &&& end.cache.metas[meta.num] == meta
                },
                None => end.state.outcome() == Some(Outcome::Absent) && end.cache == cache,
            }
        }),
{
    let start = Resolution::started(Goal::Latest);
    let end = resolved(Goal::Latest, cache, remote);
    assert(start.pending() == Some(Request::FetchLatest));
    match remote.latest {
        Some(response) => {
            let meta = converted(response);
            let saving = Resolution {
                goal: Goal::Latest,
                num: 0,
                kept: None,
                stage: Stage::SaveMeta(meta),
            };
            assert(start.advanced(served(cache, remote, Request::FetchLatest).1) == saving);
            let state = meta_resolved(Goal::Latest, 0, Some(meta));
            let saved = Cache { metas: cache.metas.insert(meta.num, meta), images: cache.images };
            assert(saving.pending() == Some(Request::SaveMeta(&meta)));
            assert(served(cache, remote, Request::SaveMeta(&meta)) == (saved, Reply::Saved(true)));
            assert(saving.advanced(Reply::Saved(true)) == state);
            let rest = run(state, saved, remote, 7);
            assert(end.state == rest.state && end.cache == rest.cache) by {
                reveal_with_fuel(run, 3);
            }
            lemma_image_half(state, saved, remote);
            lemma_run_limit(state, saved, remote, 6, 7);
        },
        None => {
            reveal_with_fuel(run, 3);
        },
    }
}

/// After a population of `start` to `end` the cache knows every document
/// of that range that it knew before or that the remote source gave.
pub proof fn lemma_range_known(
    start: u32,
    end: u32,
    latest: u32,
    stored: Seq<u32>,
    cache: Cache,
    remote: Remote,
    num: u32,
)
    requires
        forall|n: u32| stored.contains(n) <==> cache.metas.contains_key(n),
        forall|n: u32| answers_with_id(remote, n),
        range_start(start, end, latest) <= num <= range_end(end, latest),
        cache.metas.contains_key(num) || remote.by_id.contains_key(num),
    ensures
        populated(
            cache,
            remote,
            missing_in_range(start, end, latest, stored),
        ).metas.contains_key(num),
{
    let targets = missing_in_range(start, end, latest, stored);
    lemma_missing_between(
        range_start(start, end, latest) as int,
        range_end(end, latest) as int,
        stored,
    );
    lemma_populated(cache, remote, targets);
    if cache.metas.contains_key(num) {
        assert(cache.metas.dom().contains(num));
    } else {
        let lo = range_start(start, end, latest) as int;
        let hi = range_end(end, latest) as int;
        assert(!stored.contains(num));
        assert(missing_between(lo, hi, stored).contains(num));
        let i = choose|i: int| 0 <= i < targets.len() && targets[i] == num;
        assert(remote.by_id.contains_key(targets[i]));
    }
}

} // verus!
