//! The resolution of a document, one request at a time.
//!
//! The cache and the remote source belong to the caller. A [`Resolution`]
//! decides the order: it says which request comes next and takes the reply,
//! until the outcome is there. The caller carries the requests out, in
//! whatever way it talks to its cache and to the network.

use vstd::prelude::*;
use crate::api::XkcdApiResponse;
use crate::xkcd::{converted, Xkcd};

verus! {

/// What a point lookup in the cache gave.
#[derive(Debug, PartialEq, Eq)]
pub enum Lookup<T> {
    /// The cache holds the value.
    Found(T),
    /// The cache holds nothing under that id.
    Missing,
    /// The cache could not be asked.
    Failed,
}

/// What is to be resolved.
#[derive(Debug, Clone, Copy, PartialEq, Eq, Structural)]
pub enum Goal {
    /// The metadata of a document.
    Meta(u32),
    /// The image of a document.
    Image(u32),
    /// Metadata and image of a document.
    Document(u32),
    /// The metadata of the latest document; its image is brought into the
    /// cache on the way.
    Latest,
}

/// What a resolution ended with.
#[derive(Debug, PartialEq, Eq)]
pub enum Outcome {
    /// What was asked for could not be had.
    Absent,
    Meta(Xkcd),
    Image(Vec<u8>),
    Document(Xkcd, Vec<u8>),
}

/// What the caller is to do next.
#[derive(Debug, PartialEq, Eq)]
pub enum Request<'a> {
    /// Look up the metadata of the document in the cache.
    LoadMeta(u32),
    /// Look up the image of the document in the cache.
    LoadImage(u32),
    /// Fetch the metadata of the document from the remote source.
    FetchMeta(u32),
    /// Fetch the metadata of the latest document from the remote source.
    FetchLatest,
    /// Fetch the image of this document from the remote source.
    FetchImage(&'a Xkcd),
    /// Save this metadata in the cache, under its own id.
    SaveMeta(&'a Xkcd),
    /// Save this image in the cache, under the given id.
    SaveImage(u32, &'a Vec<u8>),
}

/// What came of a request.
#[derive(Debug, PartialEq, Eq)]
pub enum Reply {
    /// Answers `LoadMeta`.
    MetaLoaded(Lookup<Xkcd>),
    /// Answers `LoadImage`.
    ImageLoaded(Lookup<Vec<u8>>),
    /// Answers `FetchMeta` and `FetchLatest`; `None` where the fetch failed.
    MetaFetched(Option<XkcdApiResponse>),
    /// Answers `FetchImage`; `None` where the fetch failed.
    ImageFetched(Option<Vec<u8>>),
    /// Answers `SaveMeta` and `SaveImage`, and says whether the cache took
    /// the value.
    Saved(bool),
}

/// Where a resolution stands.
#[derive(Debug, PartialEq, Eq)]
pub enum Stage {
    /// The metadata is being looked up.
    LoadMeta,
    /// The metadata is being fetched.
    FetchMeta,
    /// The fetched metadata is being saved.
    SaveMeta(Xkcd),
    /// The image is being looked up.
    LoadImage,
    /// The cache lacks the image; the metadata that says where the image
    /// is, is being looked up.
    LoadMetaForImage,
    /// That metadata is being fetched.
    FetchMetaForImage,
    /// That metadata, fetched, is being saved.
    SaveMetaForImage(Xkcd),
    /// The image of this document is being fetched.
    FetchImage(Xkcd),
    /// The fetched image is being saved.
    SaveImage(Vec<u8>),
    /// The outcome is there.
    Done(Outcome),
}

/// The resolution of one goal: what is asked for, the id of the document
/// (for the latest document, once it is known), the metadata that is kept
/// for the outcome while the image is resolved, and where things stand.
#[derive(Debug, PartialEq, Eq)]
pub struct Resolution {
    pub goal: Goal,
    pub num: u32,
    pub kept: Option<Xkcd>,
    pub stage: Stage,
}

/// The state after the metadata is there or known to be missing. Without
/// it nothing more is tried. With it, a resolution of the metadata alone is
/// done, and any other goes on to the image and keeps the metadata.
pub open spec fn meta_resolved(goal: Goal, num: u32, meta: Option<Xkcd>) -> Resolution {
    match meta {
        None => Resolution { goal, num, kept: None, stage: Stage::Done(Outcome::Absent) },
        Some(meta) => match goal {
            Goal::Meta(_) => Resolution {
                goal,
                num,
                kept: None,
                stage: Stage::Done(Outcome::Meta(meta)),
            },
            Goal::Latest => Resolution {
                goal,
                num: meta.num,
                kept: Some(meta),
                stage: Stage::LoadImage,
            },
            _ => Resolution { goal, num, kept: Some(meta), stage: Stage::LoadImage },
        },
    }
}

/// The outcome once the image is there or known to be missing. The latest
/// document's metadata is the outcome either way. A document takes both
/// halves. An image alone is the outcome where it is there.
pub open spec fn image_outcome(goal: Goal, kept: Option<Xkcd>, image: Option<Vec<u8>>) -> Outcome {
    match goal {
        Goal::Latest => match kept {
            Some(meta) => Outcome::Meta(meta),
            None => Outcome::Absent,
        },
        Goal::Document(_) => match (kept, image) {
            (Some(meta), Some(image)) => Outcome::Document(meta, image),
            _ => Outcome::Absent,
        },
        _ => match image {
            Some(image) => Outcome::Image(image),
            None => Outcome::Absent,
        },
    }
}

/// The state after the image is there or known to be missing.
pub open spec fn image_resolved(
    goal: Goal,
    num: u32,
    kept: Option<Xkcd>,
    image: Option<Vec<u8>>,
) -> Resolution {
    Resolution { goal, num, kept: None, stage: Stage::Done(image_outcome(goal, kept, image)) }
}

fn meta_done(goal: Goal, num: u32, meta: Option<Xkcd>) -> (next: Resolution)
    ensures
        next == meta_resolved(goal, num, meta),
{
    match meta {
        None => Resolution { goal, num, kept: None, stage: Stage::Done(Outcome::Absent) },
        Some(meta) => match goal {
            Goal::Meta(_) => Resolution {
                goal,
                num,
                kept: None,
                stage: Stage::Done(Outcome::Meta(meta)),
            },
            Goal::Latest => Resolution {
                goal,
                num: meta.num,
                kept: Some(meta),
                stage: Stage::LoadImage,
            },
            _ => Resolution { goal, num, kept: Some(meta), stage: Stage::LoadImage },
        },
    }
}

fn image_done(goal: Goal, num: u32, kept: Option<Xkcd>, image: Option<Vec<u8>>) -> (next:
    Resolution)
    ensures
        next == image_resolved(goal, num, kept, image),
{
    let outcome = match goal {
        Goal::Latest => match kept {
            Some(meta) => Outcome::Meta(meta),
            None => Outcome::Absent,
        },
        Goal::Document(_) => match (kept, image) {
            (Some(meta), Some(image)) => Outcome::Document(meta, image),
            _ => Outcome::Absent,
        },
        _ => match image {
            Some(image) => Outcome::Image(image),
            None => Outcome::Absent,
        },
    };
    Resolution { goal, num, kept: None, stage: Stage::Done(outcome) }
}

impl Resolution {
    /// The state in which the resolution of `goal` starts: with a lookup of
    /// the metadata, or of the image where only that is asked for, and for
    /// the latest document with a fetch, since only the remote source knows
    /// which one that is.
    pub open spec fn started(goal: Goal) -> Resolution {
        match goal {
            Goal::Meta(num) => Resolution { goal, num, kept: None, stage: Stage::LoadMeta },
            Goal::Image(num) => Resolution { goal, num, kept: None, stage: Stage::LoadImage },
            Goal::Document(num) => Resolution { goal, num, kept: None, stage: Stage::LoadMeta },
            Goal::Latest => Resolution { goal, num: 0, kept: None, stage: Stage::FetchMeta },
        }
    }

    /// The request that is open in this state; none once the outcome is
    /// there.
    pub open spec fn pending(self) -> Option<Request<'static>> {
        match self.stage {
            Stage::LoadMeta => Some(Request::LoadMeta(self.num)),
            Stage::FetchMeta => if self.goal == Goal::Latest {
                Some(Request::FetchLatest)
            } else {
                Some(Request::FetchMeta(self.num))
            },
            Stage::SaveMeta(meta) => Some(Request::SaveMeta(&meta)),
            Stage::LoadImage => Some(Request::LoadImage(self.num)),
            Stage::LoadMetaForImage => Some(Request::LoadMeta(self.num)),
            Stage::FetchMetaForImage => Some(Request::FetchMeta(self.num)),
            Stage::SaveMetaForImage(meta) => Some(Request::SaveMeta(&meta)),
            Stage::FetchImage(meta) => Some(Request::FetchImage(&meta)),
            Stage::SaveImage(image) => Some(Request::SaveImage(self.num, &image)),
            Stage::Done(_) => None,
        }
    }

    /// The state that follows this one on `reply`.
    ///
    /// A hit in the cache ends a lookup; a miss leads to a fetch; a cache
    /// that cannot be asked ends the resolution without a result. What was
    /// fetched is saved before it is used, and is used whether or not the
    /// cache took it. A failed fetch ends the resolution without a result,
    /// but for the image of the latest document, which is not part of the
    /// outcome. A reply that does not answer the open request ends the
    /// resolution without a result, and a finished resolution stays as it
    /// is.
    pub open spec fn advanced(self, reply: Reply) -> Resolution {
        let goal = self.goal;
        let num = self.num;
        let kept = self.kept;
        match (self.stage, reply) {
            (Stage::Done(outcome), _) => self,
            (Stage::LoadMeta, Reply::MetaLoaded(Lookup::Found(meta))) => meta_resolved(
                goal,
                num,
                Some(meta),
            ),
            (Stage::LoadMeta, Reply::MetaLoaded(Lookup::Missing)) => Resolution {
                goal,
                num,
                kept,
                stage: Stage::FetchMeta,
            },
            (Stage::FetchMeta, Reply::MetaFetched(Some(response))) => Resolution {
                goal,
                num,
                kept,
                stage: Stage::SaveMeta(converted(response)),
            },
            (Stage::SaveMeta(meta), Reply::Saved(_)) => meta_resolved(goal, num, Some(meta)),
            (Stage::LoadImage, Reply::ImageLoaded(Lookup::Found(image))) => image_resolved(
                goal,
                num,
                kept,
                Some(image),
            ),
            (Stage::LoadImage, Reply::ImageLoaded(Lookup::Missing)) => Resolution {
                goal,
                num,
                kept,
                stage: Stage::LoadMetaForImage,
            },
            (Stage::LoadMetaForImage, Reply::MetaLoaded(Lookup::Found(meta))) => Resolution {
                goal,
                num,
                kept,
                stage: Stage::FetchImage(meta),
            },
            (Stage::LoadMetaForImage, Reply::MetaLoaded(Lookup::Missing)) => Resolution {
                goal,
                num,
                kept,
                stage: Stage::FetchMetaForImage,
            },
            (Stage::FetchMetaForImage, Reply::MetaFetched(Some(response))) => Resolution {
                goal,
                num,
                kept,
                stage: Stage::SaveMetaForImage(converted(response)),
            },
            (Stage::SaveMetaForImage(meta), Reply::Saved(_)) => Resolution {
                goal,
                num,
                kept,
                stage: Stage::FetchImage(meta),
            },
            (Stage::FetchImage(_), Reply::ImageFetched(Some(image))) => Resolution {
                goal,
                num,
                kept,
                stage: Stage::SaveImage(image),
            },
            (Stage::SaveImage(image), Reply::Saved(_)) => image_resolved(
                goal,
                num,
                kept,
                Some(image),
            ),
            (Stage::LoadMeta, _) => meta_resolved(goal, num, None),
            (Stage::FetchMeta, _) => meta_resolved(goal, num, None),
            (Stage::SaveMeta(_), _) => meta_resolved(goal, num, None),
            _ => image_resolved(goal, num, kept, None),
        }
    }

    /// The outcome, once it is there.
    pub open spec fn outcome(self) -> Option<Outcome> {
        match self.stage {
            Stage::Done(outcome) => Some(outcome),
            _ => None,
        }
    }

    /// Starts the resolution of `goal`.
    pub fn new(goal: Goal) -> (state: Resolution)
        ensures
            state == Self::started(goal),
    {
        match goal {
            Goal::Meta(num) => Resolution { goal, num, kept: None, stage: Stage::LoadMeta },
            Goal::Image(num) => Resolution { goal, num, kept: None, stage: Stage::LoadImage },
            Goal::Document(num) => Resolution { goal, num, kept: None, stage: Stage::LoadMeta },
            Goal::Latest => Resolution { goal, num: 0, kept: None, stage: Stage::FetchMeta },
        }
    }

    /// The request that the caller is to carry out now; none once the
    /// outcome is there.
    pub fn request(&self) -> (request: Option<Request<'_>>)
        ensures
            request == self.pending(),
    {
        match &self.stage {
            Stage::LoadMeta => Some(Request::LoadMeta(self.num)),
            Stage::FetchMeta => match self.goal {
                Goal::Latest => Some(Request::FetchLatest),
                _ => Some(Request::FetchMeta(self.num)),
            },
            Stage::SaveMeta(meta) => Some(Request::SaveMeta(meta)),
            Stage::LoadImage => Some(Request::LoadImage(self.num)),
            Stage::LoadMetaForImage => Some(Request::LoadMeta(self.num)),
            Stage::FetchMetaForImage => Some(Request::FetchMeta(self.num)),
            Stage::SaveMetaForImage(meta) => Some(Request::SaveMeta(meta)),
            Stage::FetchImage(meta) => Some(Request::FetchImage(meta)),
            Stage::SaveImage(image) => Some(Request::SaveImage(self.num, image)),
            Stage::Done(_) => None,
        }
    }

    /// Takes the reply to the open request and moves on.
    pub fn advance(self, reply: Reply) -> (next: Resolution)
        ensures
            next == self.advanced(reply),
    {
        let Resolution { goal, num, kept, stage } = self;
        match (stage, reply) {
            (Stage::Done(outcome), _) => Resolution { goal, num, kept, stage: Stage::Done(outcome) },
            (Stage::LoadMeta, Reply::MetaLoaded(Lookup::Found(meta))) => meta_done(
                goal,
                num,
                Some(meta),
            ),
            (Stage::LoadMeta, Reply::MetaLoaded(Lookup::Missing)) => Resolution {
                goal,
                num,
                kept,
                stage: Stage::FetchMeta,
            },
            (Stage::FetchMeta, Reply::MetaFetched(Some(response))) => Resolution {
                goal,
                num,
                kept,
                stage: Stage::SaveMeta(Xkcd::from(response)),
            },
            (Stage::SaveMeta(meta), Reply::Saved(_)) => meta_done(goal, num, Some(meta)),
            (Stage::LoadImage, Reply::ImageLoaded(Lookup::Found(image))) => image_done(
                goal,
                num,
                kept,
                Some(image),
            ),
            (Stage::LoadImage, Reply::ImageLoaded(Lookup::Missing)) => Resolution {
                goal,
                num,
                kept,
                stage: Stage::LoadMetaForImage,
            },
            (Stage::LoadMetaForImage, Reply::MetaLoaded(Lookup::Found(meta))) => Resolution {
                goal,
                num,
                kept,
                stage: Stage::FetchImage(meta),
            },
            (Stage::LoadMetaForImage, Reply::MetaLoaded(Lookup::Missing)) => Resolution {
                goal,
                num,
                kept,
                stage: Stage::FetchMetaForImage,
            },
            (Stage::FetchMetaForImage, Reply::MetaFetched(Some(response))) => Resolution {
                goal,
                num,
                kept,
                stage: Stage::SaveMetaForImage(Xkcd::from(response)),
            },
            (Stage::SaveMetaForImage(meta), Reply::Saved(_)) => Resolution {
                goal,
                num,
                kept,
                stage: Stage::FetchImage(meta),
            },
            (Stage::FetchImage(_), Reply::ImageFetched(Some(image))) => Resolution {
                goal,
                num,
                kept,
                stage: Stage::SaveImage(image),
            },
            (Stage::SaveImage(image), Reply::Saved(_)) => image_done(goal, num, kept, Some(image)),
            (Stage::LoadMeta, _) => meta_done(goal, num, None),
            (Stage::FetchMeta, _) => meta_done(goal, num, None),
            (Stage::SaveMeta(_), _) => meta_done(goal, num, None),
            _ => image_done(goal, num, kept, None),
        }
    }

    /// The outcome, once it is there; else the resolution itself, to go on
    /// with.
    pub fn finish(self) -> (end: Result<Outcome, Resolution>)
        ensures
            match end {
                Ok(outcome) => self.outcome() == Some(outcome),
                Err(state) => self.outcome() is None && state == self,
            },
    {
        let Resolution { goal, num, kept, stage } = self;
        match stage {
            Stage::Done(outcome) => Ok(outcome),
            stage => Err(Resolution { goal, num, kept, stage }),
        }
    }
}

/// The most requests that a resolution in this state still makes.
pub open spec fn requests_left(stage: Stage) -> nat {
    match stage {
        Stage::LoadMeta => 9,
        Stage::FetchMeta => 8,
        Stage::SaveMeta(_) => 7,
        Stage::LoadImage => 6,
        Stage::LoadMetaForImage => 5,
        Stage::FetchMetaForImage => 4,
        Stage::SaveMetaForImage(_) => 3,
        Stage::FetchImage(_) => 2,
        Stage::SaveImage(_) => 1,
        Stage::Done(_) => 0,
    }
}

/// Every reply brings a resolution nearer to its outcome, whatever the
/// reply is: a resolution makes nine requests at most. The outcome is there
/// exactly when no request is open.
pub proof fn lemma_resolution_ends(state: Resolution, reply: Reply)
    ensures
        state.outcome() is None ==> requests_left(state.advanced(reply).stage) < requests_left(
            state.stage,
        ),
        state.outcome() is Some ==> state.advanced(reply) == state,
        state.outcome() is Some <==> state.pending() is None,
        state.advanced(reply).goal == state.goal,
{
}

} // verus!
