//! What requests may do to the files of a system.

use crate::place::inside;
use crate::protocol::{FileKind, Request, RequestView, Turn, TurnView};
use crate::tree_laws::reads;
use vstd::prelude::*;

verus! {

/// That what is new in `after` is at the paths that `at` picks.
pub open spec fn new_only_at<N>(
    before: Map<Seq<u8>, N>,
    after: Map<Seq<u8>, N>,
    at: spec_fn(Seq<u8>) -> bool,
) -> bool {
    forall|path: Seq<u8>| #[trigger]
        after.contains_key(path) && !before.contains_key(path) ==> at(path)
}

/// Whether `path` leads through no symlink.
pub open spec fn straight<N>(
    kind: spec_fn(N) -> FileKind,
    files: Map<Seq<u8>, N>,
    path: Seq<u8>,
) -> bool {
    forall|above: Seq<u8>| #[trigger]
        files.contains_key(above) && inside(path, above) ==> kind(files[above]) !is Symlink
}

/// What a request may do to the files of a system. A file is known by one path,
/// and is all but how many links it has; `kind` tells what it is.
///
/// Directories and links are created beside what there is, and none where
/// something is. Setting permission bits changes one file, if that is a
/// directory. Where a path leads through a symlink, what is created or changed
/// may be anywhere.
pub open spec fn effect<N>(
    kind: spec_fn(N) -> FileKind,
    request: RequestView,
    before: Map<Seq<u8>, N>,
    after: Map<Seq<u8>, N>,
) -> bool {
    match request {
        Request::CreateDirAll { path: made } => {
            &&& before.submap_of(after)
            &&& straight(kind, before, made) ==> new_only_at(
                before,
                after,
                |path: Seq<u8>|
                    (path == made || inside(made, path)) && kind(after[path]) is Directory,
            )
        },
        Request::Symlink { link, .. } => linking(kind, link, before, after),
        Request::HardLink { link, .. } => linking(kind, link, before, after),
        Request::SetMode { path: set, .. } => {
            &&& before.dom() == after.dom()
            &&& straight(kind, before, set) && (before.contains_key(set) ==> kind(
                before[set],
            ) is Directory) ==> {
                &&& forall|path: Seq<u8>| #[trigger]
                    before.contains_key(path) && path != set ==> before[path] == after[path]
                &&& before.contains_key(set) ==> kind(after[set]) is Directory
            }
        },
        _ => reads(request) ==> before == after,
    }
}

/// What the creation of a link may do.
pub open spec fn linking<N>(
    kind: spec_fn(N) -> FileKind,
    link: Seq<u8>,
    before: Map<Seq<u8>, N>,
    after: Map<Seq<u8>, N>,
) -> bool {
    &&& before.submap_of(after)
    &&& before.contains_key(link) ==> before == after
    &&& straight(kind, before, link) ==> new_only_at(before, after, |path: Seq<u8>| path == link)
}

/// That `files` are those before the first of these turns and after each.
pub open spec fn course<N>(
    kind: spec_fn(N) -> FileKind,
    turns: Seq<TurnView>,
    files: Seq<Map<Seq<u8>, N>>,
) -> bool {
    &&& files.len() == turns.len() + 1
    &&& forall|i: int|
        0 <= i < turns.len() ==> (#[trigger] turns[i] matches Turn::Perform { request } ==> effect(
            kind,
            request,
            files[i],
            files[i + 1],
        ))
}

/// The directory that a turn creates, if it does.
pub open spec fn made_dir(turn: TurnView) -> Option<Seq<u8>> {
    match turn {
        Turn::Perform { request: Request::CreateDirAll { path } } => Some(path),
        _ => None,
    }
}

/// The link that a turn creates, if it does.
pub open spec fn made_link(turn: TurnView) -> Option<Seq<u8>> {
    match turn {
        Turn::Perform { request: Request::Symlink { link, .. } } => Some(link),
        Turn::Perform { request: Request::HardLink { link, .. } } => Some(link),
        _ => None,
    }
}

} // verus!
