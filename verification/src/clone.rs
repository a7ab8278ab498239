//! Cloning a directory tree with hard links.

use crate::path::{below, copy_path, join_path, path_text, text_path, to_path, to_text};
use crate::protocol::{
    ignore, ignoring, steps, FileKind, HostReply, HostStep, Reply, ReplyView, Request, Step,
    StepView, Then,
};
use vstd::prelude::*;

verus! {

/// Clones what the directory `src` holds into `dest`.
pub open spec fn cloning(src: Seq<char>, dest: Seq<char>) -> StepView {
    Step::Perform {
        request: Request::ReadDir { path: text_path(src) },
        then: Then::CloneDir { src, dest },
    }
}

/// Clones what the directory `src` holds into `dest`: symlinks are created
/// anew, directories are walked, anything else becomes a hard link.
pub fn clone_dir(src: &str, dest: &str) -> (step: HostStep)
    ensures
        step@ == cloning(src@, dest@),
{
    Step::Perform {
        request: Request::ReadDir { path: to_path(src) },
        then: Then::CloneDir { src: src.to_string(), dest: dest.to_string() },
    }
}

/// Clones the entry `name` of the directory `src` into `dest`.
pub open spec fn cloning_entry(src: Seq<char>, dest: Seq<char>, name: Seq<u8>) -> StepView {
    let from = below(text_path(src), name);
    Step::Perform {
        request: Request::Metadata { path: from },
        then: Then::CloneEntry { src: from, dest: below(text_path(dest), name) },
    }
}

/// Clones the entries of `src` into `dest`, one after the other; nothing where
/// they could not be listed.
pub open spec fn after_clone_listing(
    src: Seq<char>,
    dest: Seq<char>,
    reply: ReplyView,
) -> Seq<StepView> {
    match reply {
        Reply::Entries { names } => Seq::new(
            names.len(),
            |i: int| cloning_entry(src, dest, names[i]),
        ),
        _ => Seq::empty(),
    }
}

/// Goes on after the directory `src` was listed, to be cloned into `dest`.
pub fn clone_entries(src: &str, dest: &str, reply: &HostReply) -> (next: Vec<HostStep>)
    ensures
        steps(next@) == after_clone_listing(src@, dest@, reply@),
{
    let mut next: Vec<HostStep> = Vec::new();
    if let Reply::Entries { names } = reply {
        let from: Vec<u8> = to_path(src);
        let to: Vec<u8> = to_path(dest);
        let mut i: usize = 0;
        while i < names.len()
            invariant
                i <= names.len(),
                i == next.len(),
                from@ == text_path(src@),
                to@ == text_path(dest@),
                forall|j: int|
                    0 <= j < i ==> (#[trigger] next@[j])@ == cloning_entry(
                        src@,
                        dest@,
                        names@[j]@,
                    ),
            decreases names.len() - i,
        {
            let path: Vec<u8> = join_path(&from, &names[i]);
            next.push(
                Step::Perform {
                    request: Request::Metadata { path: join_path(&from, &names[i]) },
                    then: Then::CloneEntry { src: path, dest: join_path(&to, &names[i]) },
                },
            );
            i = i + 1;
        }
    }
    assert(steps(next@) =~= after_clone_listing(src@, dest@, reply@));
    next
}

/// How one entry is cloned, by what it is; nothing where that could not be told.
pub open spec fn after_clone_probe(
    src: Seq<u8>,
    dest: Seq<u8>,
    reply: ReplyView,
) -> Seq<StepView> {
    match reply {
        Reply::Metadata { kind: FileKind::Symlink, .. } => seq![
            Step::Perform {
                request: Request::ReadLink { path: src },
                then: Then::CloneLink { dest },
            },
        ],
        Reply::Metadata { kind: FileKind::Directory, mode } => seq![
            ignoring(Request::CreateDirAll { path: dest }),
            ignoring(Request::SetMode { path: dest, mode }),
            cloning(path_text(src), path_text(dest)),
        ],
        Reply::Metadata { kind: FileKind::Other, .. } => seq![
            ignoring(Request::HardLink { original: src, link: dest }),
        ],
        _ => Seq::empty(),
    }
}

/// Goes on after the host told what `src` is, to be cloned to `dest`.
pub fn clone_entry(src: Vec<u8>, dest: Vec<u8>, reply: &HostReply) -> (next: Vec<HostStep>)
    ensures
        steps(next@) == after_clone_probe(src@, dest@, reply@),
{
    let mut next: Vec<HostStep> = Vec::new();
    if let Reply::Metadata { kind, mode } = reply {
        match kind {
            FileKind::Symlink => {
                next.push(
                    Step::Perform {
                        request: Request::ReadLink { path: copy_path(&src) },
                        then: Then::CloneLink { dest: copy_path(&dest) },
                    },
                );
            },
            FileKind::Directory => {
                next.push(ignore(Request::CreateDirAll { path: copy_path(&dest) }));
                next.push(ignore(Request::SetMode { path: copy_path(&dest), mode: *mode }));
                next.push(clone_dir(to_text(&src).as_str(), to_text(&dest).as_str()));
            },
            FileKind::Other => {
                next.push(
                    ignore(Request::HardLink { original: copy_path(&src), link: copy_path(&dest) }),
                );
            },
        }
    }
    assert(steps(next@) =~= after_clone_probe(src@, dest@, reply@));
    next
}

/// Creates at `dest` the symlink that was read; nothing where none was read.
pub open spec fn after_link_read(dest: Seq<u8>, reply: ReplyView) -> Seq<StepView> {
    match reply {
        Reply::Link { target } => seq![ignoring(Request::Symlink { target, link: dest })],
        _ => Seq::empty(),
    }
}

/// Goes on after a symlink was read that is to stand at `dest` too.
pub fn clone_link(dest: Vec<u8>, reply: HostReply) -> (next: Vec<HostStep>)
    ensures
        steps(next@) == after_link_read(dest@, reply@),
{
    let mut next: Vec<HostStep> = Vec::new();
    if let Reply::Link { target } = reply {
        next.push(ignore(Request::Symlink { target, link: dest }));
    }
    assert(steps(next@) =~= after_link_read(dest@, reply@));
    next
}

} // verus!
