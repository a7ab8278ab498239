//! What cloning a directory does to a whole tree.

use crate::action::Config;
use crate::clone::{after_clone_listing, after_clone_probe, cloning};
use crate::path::{below, path_text, text_path};
use crate::protocol::{
    failure_text, ignoring, FileKind, Reply, ReplyView, Request, RequestView, Step, StepView, Then,
    ThenView, Turn, TurnView,
};
use crate::place::{entries_are_inside, file_name, inside, inside_is_transitive, utf8_below};
use crate::trace::{handing_out, trace, trace_ignores, trace_performs};
use vstd::prelude::*;
use vstd::utf8::{decode_utf8_encode_utf8, encode_utf8_valid_utf8, valid_utf8};

verus! {

/// A file tree as a host sees it. Each variant but the last has permission
/// bits.
pub enum Tree {
    /// A symlink, with where it points as far as that can be read.
    Link { mode: u32, target: Option<Seq<u8>> },
    /// A directory, with its entries in the order in which they are listed.
    Directory { mode: u32, entries: Seq<(Seq<u8>, Tree)> },
    /// A directory whose entries cannot be listed.
    Unlisted { mode: u32 },
    /// Any other file.
    File { mode: u32 },
    /// A file of which nothing can be told.
    Unknown,
}

/// The names of the entries of a directory.
pub open spec fn names(entries: Seq<(Seq<u8>, Tree)>) -> Seq<Seq<u8>> {
    Seq::new(entries.len(), |i: int| entries[i].0)
}

/// That a request failed, for the reason that `acks` gives.
pub open spec fn failure(
    acks: spec_fn(RequestView) -> ReplyView,
    request: RequestView,
) -> ReplyView {
    Reply::Failed { error: failure_text(acks(request)) }
}

/// What a host that sees `tree` at `src` answers while it is cloned to `dest`.
/// What it answers to requests that change something is up to `acks`, and so is
/// why others fail.
pub open spec fn clone_replies(
    src: Seq<u8>,
    dest: Seq<u8>,
    tree: Tree,
    acks: spec_fn(RequestView) -> ReplyView,
) -> Seq<ReplyView>
    decreases tree, 0int,
{
    match tree {
        Tree::Link { mode, target } => seq![Reply::Metadata { kind: FileKind::Symlink, mode }] + (
        match target {
            Some(target) => seq![
                Reply::Link { target },
                acks(Request::Symlink { target, link: dest }),
            ],
            None => seq![failure(acks, Request::ReadLink { path: src })],
        }),
        Tree::Directory { mode, entries } => seq![
            Reply::Metadata { kind: FileKind::Directory, mode },
            acks(Request::CreateDirAll { path: dest }),
            acks(Request::SetMode { path: dest, mode }),
        ] + (if valid_utf8(src) {
            seq![Reply::Entries { names: names(entries) }] + entry_replies(
                src,
                text_path(path_text(dest)),
                entries,
                0,
                acks,
            )
        } else {
            seq![failure(acks, Request::ReadDir { path: text_path(path_text(src)) })]
        }),
        Tree::Unlisted { mode } => seq![
            Reply::Metadata { kind: FileKind::Directory, mode },
            acks(Request::CreateDirAll { path: dest }),
            acks(Request::SetMode { path: dest, mode }),
            failure(acks, Request::ReadDir { path: text_path(path_text(src)) }),
        ],
        Tree::File { mode } => seq![
            Reply::Metadata { kind: FileKind::Other, mode },
            acks(Request::HardLink { original: src, link: dest }),
        ],
        Tree::Unknown => seq![failure(acks, Request::Metadata { path: src })],
    }
}

/// What such a host answers while the entries of `src` from the one at `from`
/// on are cloned into `dest`.
pub open spec fn entry_replies(
    src: Seq<u8>,
    dest: Seq<u8>,
    entries: Seq<(Seq<u8>, Tree)>,
    from: int,
    acks: spec_fn(RequestView) -> ReplyView,
) -> Seq<ReplyView>
    decreases entries, entries.len() - from,
{
    if 0 <= from < entries.len() {
        let name = entries[from].0;
        clone_replies(below(src, name), below(dest, name), entries[from].1, acks) + entry_replies(
            src,
            dest,
            entries,
            from + 1,
            acks,
        )
    } else {
        Seq::empty()
    }
}

/// How `tree`, at `src`, is cloned to `dest`: a symlink becomes one to the same
/// target, a directory one with the same permission bits and, if its path is
/// UTF-8, clones of its entries, and any other file a hard link.
pub open spec fn clone_turns(src: Seq<u8>, dest: Seq<u8>, tree: Tree) -> Seq<TurnView>
    decreases tree, 0int,
{
    seq![handing_out(Request::Metadata { path: src })] + (match tree {
        Tree::Link { target, .. } => seq![handing_out(Request::ReadLink { path: src })] + (
        match target {
            Some(target) => seq![handing_out(Request::Symlink { target, link: dest })],
            None => Seq::empty(),
        }),
        Tree::Directory { mode, entries } => seq![
            handing_out(Request::CreateDirAll { path: dest }),
            handing_out(Request::SetMode { path: dest, mode }),
            handing_out(Request::ReadDir { path: text_path(path_text(src)) }),
        ] + (if valid_utf8(src) {
            entry_turns(src, text_path(path_text(dest)), entries, 0)
        } else {
            Seq::empty()
        }),
        Tree::Unlisted { mode } => seq![
            handing_out(Request::CreateDirAll { path: dest }),
            handing_out(Request::SetMode { path: dest, mode }),
            handing_out(Request::ReadDir { path: text_path(path_text(src)) }),
        ],
        Tree::File { .. } => seq![handing_out(Request::HardLink { original: src, link: dest })],
        Tree::Unknown => Seq::empty(),
    })
}

/// How the entries of `src` from the one at `from` on are cloned into `dest`:
/// each in its turn, under its own name.
pub open spec fn entry_turns(
    src: Seq<u8>,
    dest: Seq<u8>,
    entries: Seq<(Seq<u8>, Tree)>,
    from: int,
) -> Seq<TurnView>
    decreases entries, entries.len() - from,
{
    if 0 <= from < entries.len() {
        let name = entries[from].0;
        clone_turns(below(src, name), below(dest, name), entries[from].1) + entry_turns(
            src,
            dest,
            entries,
            from + 1,
        )
    } else {
        Seq::empty()
    }
}

/// What a host is asked while the directory `src`, which holds `entries`, is
/// cloned into `dest`.
pub open spec fn cloning_turns(
    src: Seq<char>,
    dest: Seq<char>,
    entries: Seq<(Seq<u8>, Tree)>,
) -> Seq<TurnView> {
    seq![handing_out(Request::ReadDir { path: text_path(src) })] + entry_turns(
        text_path(src),
        text_path(dest),
        entries,
        0,
    )
}

/// The step that clones `src` to `dest`.
spec fn cloning_path(src: Seq<u8>, dest: Seq<u8>) -> StepView {
    Step::Perform {
        request: Request::Metadata { path: src },
        then: Then::CloneEntry { src, dest },
    }
}

/// The steps that clone the entries of `src` from the one at `from` on.
spec fn cloning_paths(
    src: Seq<u8>,
    dest: Seq<u8>,
    entries: Seq<(Seq<u8>, Tree)>,
    from: int,
) -> Seq<StepView> {
    Seq::new(
        (entries.len() - from) as nat,
        |i: int| cloning_path(below(src, entries[from + i].0), below(dest, entries[from + i].0)),
    )
}

proof fn clones_tree(
    config: Config,
    src: Seq<u8>,
    dest: Seq<u8>,
    tree: Tree,
    acks: spec_fn(RequestView) -> ReplyView,
    rest: Seq<StepView>,
    replies: Seq<ReplyView>,
)
    ensures
        trace(
            config,
            seq![cloning_path(src, dest)] + rest,
            clone_replies(src, dest, tree, acks) + replies,
        ) == clone_turns(src, dest, tree) + trace(config, rest, replies),
    decreases tree, 0int,
{
    let all = clone_replies(src, dest, tree, acks);
    let probe = Request::Metadata { path: src };
    let told = all.skip(1) + replies;
    assert(all + replies =~= seq![all[0]] + told);
    let then: ThenView = Then::CloneEntry { src, dest };
    trace_performs(config, probe, then, rest, all[0], told);
    let steps = after_clone_probe(src, dest, all[0]);
    match tree {
        Tree::Link { mode, target } => {
            let read = Request::ReadLink { path: src };
            let link: ThenView = Then::CloneLink { dest };
            match target {
                Some(target) => {
                    let symlink = Request::Symlink { target, link: dest };
                    assert(told =~= seq![Reply::Link { target }] + (seq![acks(symlink)]
                        + replies));
                    trace_performs(
                        config,
                        read,
                        link,
                        rest,
                        Reply::Link { target },
                        seq![acks(symlink)] + replies,
                    );
                    trace_ignores(config, symlink, rest, acks(symlink), replies);
                },
                None => {
                    assert(told =~= seq![failure(acks, read)] + replies);
                    trace_performs(config, read, link, rest, failure(acks, read), replies);
                    assert(Seq::<StepView>::empty() + rest =~= rest);
                },
            }
        },
        Tree::Directory { mode, entries } => {
            let make = Request::CreateDirAll { path: dest };
            let set = Request::SetMode { path: dest, mode };
            let listed = all.skip(3) + replies;
            let walk = cloning(path_text(src), path_text(dest));
            assert(told =~= seq![acks(make)] + (seq![acks(set)] + listed));
            assert(steps + rest =~= seq![ignoring(make)] + (seq![ignoring(set)] + (seq![walk]
                + rest)));
            trace_ignores(
                config,
                make,
                seq![ignoring(set)] + (seq![walk] + rest),
                acks(make),
                seq![acks(set)] + listed,
            );
            trace_ignores(config, set, seq![walk] + rest, acks(set), listed);
            if valid_utf8(src) {
                decode_utf8_encode_utf8(src);
                assert(text_path(path_text(src)) == src);
                let inner = entry_replies(src, text_path(path_text(dest)), entries, 0, acks);
                assert(listed =~= seq![Reply::Entries { names: names(entries) }] + inner
                    + replies);
                cloning_reaches_the_whole_tree(
                    config,
                    path_text(src),
                    path_text(dest),
                    entries,
                    acks,
                    rest,
                    replies,
                );
            } else {
                let list = Request::ReadDir { path: text_path(path_text(src)) };
                assert(listed =~= seq![failure(acks, list)] + replies);
                unlisted_directories_are_passed_over(
                    config,
                    path_text(src),
                    path_text(dest),
                    failure(acks, list),
                    rest,
                    replies,
                );
            }
        },
        Tree::Unlisted { mode } => {
            let make = Request::CreateDirAll { path: dest };
            let set = Request::SetMode { path: dest, mode };
            let list = Request::ReadDir { path: text_path(path_text(src)) };
            let listed = seq![failure(acks, list)] + replies;
            let walk = cloning(path_text(src), path_text(dest));
            assert(told =~= seq![acks(make)] + (seq![acks(set)] + listed));
            assert(steps + rest =~= seq![ignoring(make)] + (seq![ignoring(set)] + (seq![walk]
                + rest)));
            trace_ignores(
                config,
                make,
                seq![ignoring(set)] + (seq![walk] + rest),
                acks(make),
                seq![acks(set)] + listed,
            );
            trace_ignores(config, set, seq![walk] + rest, acks(set), listed);
            unlisted_directories_are_passed_over(
                config,
                path_text(src),
                path_text(dest),
                failure(acks, list),
                rest,
                replies,
            );
        },
        Tree::File { mode } => {
            let link = Request::HardLink { original: src, link: dest };
            assert(told =~= seq![acks(link)] + replies);
            trace_ignores(config, link, rest, acks(link), replies);
        },
        Tree::Unknown => {
            assert(told =~= replies);
            assert(Seq::<StepView>::empty() + rest =~= rest);
        },
    }
    assert(trace(config, seq![cloning_path(src, dest)] + rest, all + replies) =~= clone_turns(
        src,
        dest,
        tree,
    ) + trace(config, rest, replies));
}

proof fn clones_entries(
    config: Config,
    src: Seq<u8>,
    dest: Seq<u8>,
    entries: Seq<(Seq<u8>, Tree)>,
    from: int,
    acks: spec_fn(RequestView) -> ReplyView,
    rest: Seq<StepView>,
    replies: Seq<ReplyView>,
)
    requires
        0 <= from <= entries.len(),
    ensures
        trace(
            config,
            cloning_paths(src, dest, entries, from) + rest,
            entry_replies(src, dest, entries, from, acks) + replies,
        ) == entry_turns(src, dest, entries, from) + trace(config, rest, replies),
    decreases entries, entries.len() - from,
{
    let steps = cloning_paths(src, dest, entries, from);
    let all = entry_replies(src, dest, entries, from, acks);
    if from < entries.len() {
        let name = entries[from].0;
        let later = entry_replies(src, dest, entries, from + 1, acks);
        let others = cloning_paths(src, dest, entries, from + 1);
        let own = clone_replies(below(src, name), below(dest, name), entries[from].1, acks);
        assert(steps + rest =~= seq![cloning_path(below(src, name), below(dest, name))] + (others
            + rest));
        assert(all + replies =~= own + (later + replies));
        clones_tree(
            config,
            below(src, name),
            below(dest, name),
            entries[from].1,
            acks,
            others + rest,
            later + replies,
        );
        clones_entries(config, src, dest, entries, from + 1, acks, rest, replies);
        assert(entry_turns(src, dest, entries, from) + trace(config, rest, replies) =~= clone_turns(
            below(src, name),
            below(dest, name),
            entries[from].1,
        ) + (entry_turns(src, dest, entries, from + 1) + trace(config, rest, replies)));
    } else {
        assert(steps + rest =~= rest);
        assert(all + replies =~= replies);
        assert(entry_turns(src, dest, entries, from) + trace(config, rest, replies) =~= trace(
            config,
            rest,
            replies,
        ));
    }
}

/// Cloning a directory that cannot be listed does nothing more, and goes on with
/// the rest.
pub proof fn unlisted_directories_are_passed_over(
    config: Config,
    src: Seq<char>,
    dest: Seq<char>,
    reply: ReplyView,
    rest: Seq<StepView>,
    replies: Seq<ReplyView>,
)
    requires
        reply !is Entries,
    ensures
        trace(config, seq![cloning(src, dest)] + rest, seq![reply] + replies) == seq![
            handing_out(Request::ReadDir { path: text_path(src) }),
        ] + trace(config, rest, replies),
{
    let list = Request::ReadDir { path: text_path(src) };
    trace_performs(config, list, Then::CloneDir { src, dest }, rest, reply, replies);
    assert(Seq::<StepView>::empty() + rest =~= rest);
}

/// Cloning a directory reaches every entry of the tree below it, depth first
/// and in the order of the listings, does to each what its kind calls for and
/// nothing else, and then goes on with the rest, whatever the host answers to
/// the changes.
pub proof fn cloning_reaches_the_whole_tree(
    config: Config,
    src: Seq<char>,
    dest: Seq<char>,
    entries: Seq<(Seq<u8>, Tree)>,
    acks: spec_fn(RequestView) -> ReplyView,
    rest: Seq<StepView>,
    replies: Seq<ReplyView>,
)
    ensures
        trace(
            config,
            seq![cloning(src, dest)] + rest,
            seq![Reply::Entries { names: names(entries) }] + entry_replies(
                text_path(src),
                text_path(dest),
                entries,
                0,
                acks,
            ) + replies,
        ) == cloning_turns(src, dest, entries) + trace(config, rest, replies),
    decreases entries, entries.len() + 1,
{
    let list = Request::ReadDir { path: text_path(src) };
    let then: ThenView = Then::CloneDir { src, dest };
    let reply: ReplyView = Reply::Entries { names: names(entries) };
    let inner = entry_replies(text_path(src), text_path(dest), entries, 0, acks);
    assert(seq![reply] + inner + replies =~= seq![reply] + (inner + replies));
    trace_performs(config, list, then, rest, reply, inner + replies);
    assert(after_clone_listing(src, dest, reply) =~= cloning_paths(
        text_path(src),
        text_path(dest),
        entries,
        0,
    ));
    clones_entries(
        config,
        text_path(src),
        text_path(dest),
        entries,
        0,
        acks,
        rest,
        replies,
    );
    let inside = entry_turns(text_path(src), text_path(dest), entries, 0);
    assert(seq![handing_out(list)] + inside + trace(config, rest, replies) =~= seq![
        handing_out(list),
    ] + (inside + trace(config, rest, replies)));
}

/// Whether all names in a tree are such as entries can have.
pub open spec fn well_named(tree: Tree) -> bool
    decreases tree, 0int,
{
    match tree {
        Tree::Directory { entries, .. } => well_named_entries(entries, 0),
        _ => true,
    }
}

/// Whether that holds of the entries from the one at `from` on.
pub open spec fn well_named_entries(entries: Seq<(Seq<u8>, Tree)>, from: int) -> bool
    decreases entries, entries.len() - from,
{
    0 <= from < entries.len() ==> {
        &&& file_name(entries[from].0)
        &&& well_named(entries[from].1)
        &&& well_named_entries(entries, from + 1)
    }
}

/// Whether a request only reads.
pub open spec fn reads(request: RequestView) -> bool {
    request is ReadDir || request is Metadata || request is ReadLink
}

/// The path at which a request creates a directory or a link, or sets the
/// permission bits, if that is what it does.
pub open spec fn changed_path(request: RequestView) -> Option<Seq<u8>> {
    match request {
        Request::CreateDirAll { path } => Some(path),
        Request::SetMode { path, .. } => Some(path),
        Request::Symlink { link, .. } => Some(link),
        Request::HardLink { link, .. } => Some(link),
        _ => None,
    }
}

/// Whether a turn reads, or creates, sets or links at a path inside `dest`, and
/// does nothing else.
pub open spec fn stays_inside(turn: TurnView, dest: Seq<u8>) -> bool {
    turn matches Turn::Perform { request } && (reads(request) || (changed_path(
        request,
    ) matches Some(path) && inside(path, dest)))
}

/// Whether all of these turns stay inside `dest`.
pub open spec fn all_stay_inside(turns: Seq<TurnView>, dest: Seq<u8>) -> bool {
    forall|i: int| 0 <= i < turns.len() ==> stays_inside(#[trigger] turns[i], dest)
}

/// A clone at `dest` changes nothing but what is inside a directory that has
/// `dest` inside.
pub(crate) proof fn clone_stays_inside(src: Seq<u8>, dest: Seq<u8>, tree: Tree, dir: Seq<u8>)
    requires
        valid_utf8(src) ==> valid_utf8(dest),
        well_named(tree),
        inside(dest, dir),
    ensures
        all_stay_inside(clone_turns(src, dest, tree), dir),
    decreases tree, 0int,
{
    if let Tree::Directory { mode, entries } = tree {
        if valid_utf8(src) {
            decode_utf8_encode_utf8(dest);
            entries_stay_inside(src, dest, entries, 0);
            let inner = entry_turns(src, dest, entries, 0);
            assert forall|i: int| 0 <= i < inner.len() implies stays_inside(
                #[trigger] inner[i],
                dir,
            ) by {
                assert(stays_inside(inner[i], dest));
                if let Turn::Perform { request } = inner[i] {
                    if let Some(path) = changed_path(request) {
                        if inside(path, dest) {
                            inside_is_transitive(path, dest, dir);
                        }
                    }
                }
            }
            let turns = clone_turns(src, dest, tree);
            assert(turns =~= turns.take(4) + inner);
            assert forall|i: int| 0 <= i < turns.len() implies stays_inside(
                #[trigger] turns[i],
                dir,
            ) by {
                if i >= 4 {
                    assert(turns[i] == inner[i - 4]);
                }
            }
        }
    }
}

pub(crate) proof fn entries_stay_inside(
    src: Seq<u8>,
    dest: Seq<u8>,
    entries: Seq<(Seq<u8>, Tree)>,
    from: int,
)
    requires
        valid_utf8(src),
        valid_utf8(dest),
        well_named_entries(entries, from),
        0 <= from <= entries.len(),
    ensures
        all_stay_inside(entry_turns(src, dest, entries, from), dest),
    decreases entries, entries.len() - from,
{
    if from < entries.len() {
        let name = entries[from].0;
        utf8_below(src, name);
        utf8_below(dest, name);
        entries_are_inside(dest, name);
        clone_stays_inside(below(src, name), below(dest, name), entries[from].1, dest);
        entries_stay_inside(src, dest, entries, from + 1);
    }
}

/// Cloning changes nothing but what is inside its destination, and deletes
/// nothing: whatever it asks for reads, or creates, sets or links at a path
/// inside.
pub proof fn cloning_stays_inside_its_destination(
    src: Seq<char>,
    dest: Seq<char>,
    entries: Seq<(Seq<u8>, Tree)>,
    index: int,
)
    requires
        well_named_entries(entries, 0),
        0 <= index < cloning_turns(src, dest, entries).len(),
    ensures
        stays_inside(cloning_turns(src, dest, entries)[index], text_path(dest)),
{
    encode_utf8_valid_utf8(src);
    encode_utf8_valid_utf8(dest);
    entries_stay_inside(text_path(src), text_path(dest), entries, 0);
}

} // verus!
