//! What cloning a directory does to the files of a system.

use crate::files::{course, effect, made_dir, made_link, straight};
use crate::path::{below, path_text, text_path};
use crate::place::{
    above_an_entry, apart, apart_share_nothing, as_dir, at_or_inside, entries_share_nothing,
    entry_within, file_name, inside, inside_is_irreflexive, inside_is_not_above,
    inside_is_spelled_one_way, inside_of_within, utf8_below, within,
};
use crate::protocol::{FileKind, RequestView, Turn, TurnView};
use crate::trace::handing_out;
use crate::tree_laws::{
    all_stay_inside, changed_path, clone_turns, cloning_stays_inside_its_destination,
    cloning_turns, entries_stay_inside, entry_turns, stays_inside, well_named, well_named_entries,
    Tree,
};
use vstd::prelude::*;
use vstd::utf8::{decode_utf8_encode_utf8, encode_utf8_valid_utf8, valid_utf8};

verus! {

/// What a turn creates or changes, if it does.
spec fn changed(turn: TurnView) -> Option<Seq<u8>> {
    match turn {
        Turn::Perform { request } => changed_path(request),
        _ => None,
    }
}

/// Whether no two entries of a directory in a tree have the same name.
pub open spec fn distinct(tree: Tree) -> bool
    decreases tree, 0int,
{
    match tree {
        Tree::Directory { entries, .. } => distinct_entries(entries, 0),
        _ => true,
    }
}

/// Whether that holds of the entries from the one at `from` on.
pub open spec fn distinct_entries(entries: Seq<(Seq<u8>, Tree)>, from: int) -> bool
    decreases entries, entries.len() - from,
{
    0 <= from < entries.len() ==> {
        &&& forall|i: int| from < i < entries.len() ==> (#[trigger] entries[i]).0 != entries[from].0
        &&& distinct(entries[from].1)
        &&& distinct_entries(entries, from + 1)
    }
}

/// Whether `above` is `top`, holds it, or is a directory that these turns make.
spec fn known_above(turns: Seq<TurnView>, top: Seq<u8>, above: Seq<u8>) -> bool {
    within(top, above) || exists|i: int|
        0 <= i < turns.len() && (made_dir(#[trigger] turns[i]) matches Some(made) && as_dir(made)
            == as_dir(above))
}

/// These turns change things only below directories that they make, or that
/// hold `top`, and put no link where they make a directory.
spec fn orderly(turns: Seq<TurnView>, top: Seq<u8>) -> bool {
    &&& forall|i: int, above: Seq<u8>|
        #![trigger turns[i], inside(changed(turns[i])->0, above)]
        0 <= i < turns.len() && changed(turns[i]) is Some && inside(changed(turns[i])->0, above)
            ==> known_above(turns, top, above)
    &&& forall|i: int, j: int|
        #![trigger turns[i], turns[j]]
        0 <= i < turns.len() && 0 <= j < turns.len() && made_dir(turns[i]) is Some
            ==> made_dir(turns[i]) != made_link(turns[j])
}

/// Every change is at `top` or inside.
spec fn all_at_or_inside(turns: Seq<TurnView>, top: Seq<u8>) -> bool {
    forall|i: int|
        0 <= i < turns.len() && changed(#[trigger] turns[i]) is Some ==> at_or_inside(
            changed(turns[i])->0,
            top,
        )
}

/// Every change is at one of the entries from the one at `from` on, or inside.
spec fn all_in_entries(
    turns: Seq<TurnView>,
    dir: Seq<u8>,
    entries: Seq<(Seq<u8>, Tree)>,
    from: int,
) -> bool {
    forall|i: int|
        0 <= i < turns.len() && changed(#[trigger] turns[i]) is Some ==> exists|k: int|
            from <= k < entries.len() && at_or_inside(
                changed(turns[i])->0,
                below(dir, (#[trigger] entries[k]).0),
            )
}

proof fn clones_are_orderly(
    src: Seq<u8>,
    dir: Seq<u8>,
    name: Seq<u8>,
    tree: Tree,
)
    requires
        valid_utf8(src) ==> valid_utf8(below(dir, name)),
        file_name(name),
        well_named(tree),
        distinct(tree),
    ensures
        orderly(clone_turns(src, below(dir, name), tree), dir),
        all_at_or_inside(clone_turns(src, below(dir, name), tree), below(dir, name)),
    decreases tree, 0int,
{
    let dest = below(dir, name);
    let turns = clone_turns(src, dest, tree);
    assert forall|above: Seq<u8>| inside(dest, above) implies within(dir, above) by {
        above_an_entry(dir, name, above);
    }
    if let Tree::Directory { mode, entries } = tree {
        if valid_utf8(src) {
            decode_utf8_encode_utf8(dest);
            let inner = entry_turns(src, dest, entries, 0);
            entries_are_orderly(src, dest, entries, 0);
            entries_stay_inside(src, dest, entries, 0);
            assert(turns =~= turns.take(4) + inner);
            assert(made_dir(turns[1]) == Some(dest));
            assert forall|i: int| 4 <= i < turns.len() implies {
                &&& turns[i] == inner[i - 4]
                &&& changed(turns[i]) is Some ==> inside(changed(#[trigger] turns[i])->0, dest)
            } by {
                assert(stays_inside(inner[i - 4], dest));
            }
            assert forall|i: int, above: Seq<u8>|
                #![trigger turns[i], inside(changed(turns[i])->0, above)]
                0 <= i < turns.len() && changed(turns[i]) is Some && inside(
                    changed(turns[i])->0,
                    above,
                ) implies known_above(turns, dir, above) by {
                if i >= 4 {
                    assert(inside(changed(inner[i - 4])->0, above));
                    assert(known_above(inner, dest, above));
                    if within(dest, above) {
                        entry_within(dir, name, above);
                        if as_dir(dest) == as_dir(above) {
                            assert(made_dir(turns[1]) == Some(dest));
                        }
                    } else {
                        let j = choose|j: int|
                            0 <= j < inner.len() && (made_dir(#[trigger] inner[j]) matches Some(
                                made,
                            ) && as_dir(made) == as_dir(above));
                        assert(turns[j + 4] == inner[j]);
                    }
                }
            }
            assert forall|i: int, j: int|
                #![trigger turns[i], turns[j]]
                0 <= i < turns.len() && 0 <= j < turns.len() && made_dir(
                    turns[i],
                ) is Some implies made_dir(turns[i]) != made_link(turns[j]) by {
                if j >= 4 {
                    assert(turns[j] == inner[j - 4]);
                    if i >= 4 {
                        assert(turns[i] == inner[i - 4]);
                    } else {
                        inside_is_irreflexive(dest);
                    }
                }
            }
        }
    }
}

proof fn entries_are_orderly(
    src: Seq<u8>,
    dir: Seq<u8>,
    entries: Seq<(Seq<u8>, Tree)>,
    from: int,
)
    requires
        valid_utf8(src),
        valid_utf8(dir),
        well_named_entries(entries, from),
        distinct_entries(entries, from),
        0 <= from <= entries.len(),
    ensures
        orderly(entry_turns(src, dir, entries, from), dir),
        all_in_entries(entry_turns(src, dir, entries, from), dir, entries, from),
        forall|k: int| from <= k < entries.len() ==> file_name((#[trigger] entries[k]).0),
    decreases entries, entries.len() - from,
{
    if from < entries.len() {
        let name = entries[from].0;
        let dest = below(dir, name);
        let first = clone_turns(below(src, name), dest, entries[from].1);
        let later = entry_turns(src, dir, entries, from + 1);
        let turns = entry_turns(src, dir, entries, from);
        utf8_below(src, name);
        utf8_below(dir, name);
        clones_are_orderly(below(src, name), dir, name, entries[from].1);
        entries_are_orderly(src, dir, entries, from + 1);
        assert(turns =~= first + later);
        assert forall|i: int| 0 <= i < turns.len() implies #[trigger] turns[i] == (if i
            < first.len() {
            first[i]
        } else {
            later[i - first.len()]
        }) by {}
        assert forall|i: int|
            0 <= i < turns.len() && changed(#[trigger] turns[i]) is Some implies exists|k: int|
            from <= k < entries.len() && at_or_inside(
                changed(turns[i])->0,
                below(dir, (#[trigger] entries[k]).0),
            ) by {
            if i < first.len() {
                assert(at_or_inside(changed(first[i])->0, below(dir, entries[from].0)));
            } else {
                let k = choose|k: int|
                    from + 1 <= k < entries.len() && at_or_inside(
                        changed(later[i - first.len()])->0,
                        below(dir, (#[trigger] entries[k]).0),
                    );
                assert(at_or_inside(changed(turns[i])->0, below(dir, entries[k].0)));
            }
        }
        assert forall|i: int, above: Seq<u8>|
            #![trigger turns[i], inside(changed(turns[i])->0, above)]
            0 <= i < turns.len() && changed(turns[i]) is Some && inside(
                changed(turns[i])->0,
                above,
            ) implies known_above(turns, dir, above) by {
            if i < first.len() {
                assert(inside(changed(first[i])->0, above));
                assert(known_above(first, dir, above));
                if !within(dir, above) {
                    let j = choose|j: int|
                        0 <= j < first.len() && (made_dir(#[trigger] first[j]) matches Some(made)
                            && as_dir(made) == as_dir(above));
                    assert(turns[j] == first[j]);
                }
            } else {
                assert(inside(changed(later[i - first.len()])->0, above));
                assert(known_above(later, dir, above));
                if !within(dir, above) {
                    let j = choose|j: int|
                        0 <= j < later.len() && (made_dir(#[trigger] later[j]) matches Some(made)
                            && as_dir(made) == as_dir(above));
                    assert(turns[j + first.len()] == later[j]);
                }
            }
        }
        assert forall|i: int, j: int|
            #![trigger turns[i], turns[j]]
            0 <= i < turns.len() && 0 <= j < turns.len() && made_dir(turns[i]) is Some implies
            made_dir(turns[i]) != made_link(turns[j]) by {
            if (i < first.len()) != (j < first.len()) && made_dir(turns[i]) == made_link(turns[j]) {
                let path = made_dir(turns[i])->0;
                let l = if i < first.len() {
                    j - first.len()
                } else {
                    i - first.len()
                };
                assert(changed(later[l]) == Some(path));
                let k = choose|k: int|
                    from + 1 <= k < entries.len() && at_or_inside(
                        changed(later[l])->0,
                        below(dir, (#[trigger] entries[k]).0),
                    );
                assert(at_or_inside(path, below(dir, name))) by {
                    let f = if i < first.len() {
                        i
                    } else {
                        j
                    };
                    assert(changed(first[f]) == Some(path));
                }
                entries_share_nothing(path, dir, name, entries[k].0);
            }
        }
    }
}

/// Whether nothing stands in the way of a clone to `dest` that consists of these
/// turns: `dest` is not reached through a symlink, and where a directory is to
/// be made, there is one or nothing.
pub open spec fn clear<N>(
    kind: spec_fn(N) -> FileKind,
    turns: Seq<TurnView>,
    dest: Seq<u8>,
    files: Map<Seq<u8>, N>,
) -> bool {
    &&& forall|above: Seq<u8>| #[trigger]
        files.contains_key(above) && within(dest, above) ==> kind(files[above]) !is Symlink
    &&& forall|i: int, path: Seq<u8>|
        #![trigger turns[i], files.contains_key(path)]
        0 <= i < turns.len() && (made_dir(turns[i]) matches Some(made) && as_dir(made) == as_dir(
            path,
        )) && files.contains_key(path) ==> kind(files[path]) is Directory
}

/// In clear files, what orderly turns change is reached through no symlink.
proof fn clear_is_straight<N>(
    kind: spec_fn(N) -> FileKind,
    turns: Seq<TurnView>,
    dest: Seq<u8>,
    files: Map<Seq<u8>, N>,
    index: int,
)
    requires
        orderly(turns, dest),
        clear(kind, turns, dest, files),
        0 <= index < turns.len(),
        changed(turns[index]) is Some,
    ensures
        straight(kind, files, changed(turns[index])->0),
{
    let path = changed(turns[index])->0;
    assert forall|above: Seq<u8>| #[trigger]
        files.contains_key(above) && inside(path, above) implies kind(files[above]) !is Symlink by {
        assert(known_above(turns, dest, above));
        if !within(dest, above) {
            let i = choose|i: int|
                0 <= i < turns.len() && (made_dir(#[trigger] turns[i]) matches Some(made) && as_dir(
                    made,
                ) == as_dir(above));
            assert(made_dir(turns[i]) is Some);
        }
    }
}

/// Whether each directory whose permission bits are set is made too.
spec fn sets_made(turns: Seq<TurnView>) -> bool {
    forall|i: int|
        0 <= i < turns.len() && (#[trigger] turns[i] matches Turn::Perform { request } && request
            is SetMode) ==> exists|j: int|
            0 <= j < turns.len() && made_dir(#[trigger] turns[j]) == changed(turns[i])
}

proof fn clones_set_what_they_make(src: Seq<u8>, dest: Seq<u8>, tree: Tree)
    ensures
        sets_made(clone_turns(src, dest, tree)),
    decreases tree, 0int,
{
    let turns = clone_turns(src, dest, tree);
    if let Tree::Directory { mode, entries } = tree {
        assert(made_dir(turns[1]) == Some(dest));
        if valid_utf8(src) {
            let to = text_path(path_text(dest));
            let inner = entry_turns(src, to, entries, 0);
            entries_set_what_they_make(src, to, entries, 0);
            assert(turns =~= turns.take(4) + inner);
            assert forall|i: int|
                0 <= i < turns.len() && (#[trigger] turns[i] matches Turn::Perform { request }
                    && request is SetMode) implies exists|j: int|
                0 <= j < turns.len() && made_dir(#[trigger] turns[j]) == changed(turns[i]) by {
                if i >= 4 {
                    assert(turns[i] == inner[i - 4]);
                    let j = choose|j: int|
                        0 <= j < inner.len() && made_dir(#[trigger] inner[j]) == changed(
                            inner[i - 4],
                        );
                    assert(turns[j + 4] == inner[j]);
                }
            }
        }
    } else if let Tree::Unlisted { mode } = tree {
        assert(made_dir(turns[1]) == Some(dest));
    }
}

proof fn entries_set_what_they_make(
    src: Seq<u8>,
    dir: Seq<u8>,
    entries: Seq<(Seq<u8>, Tree)>,
    from: int,
)
    requires
        0 <= from <= entries.len(),
    ensures
        sets_made(entry_turns(src, dir, entries, from)),
    decreases entries, entries.len() - from,
{
    if from < entries.len() {
        let name = entries[from].0;
        let first = clone_turns(below(src, name), below(dir, name), entries[from].1);
        let later = entry_turns(src, dir, entries, from + 1);
        let turns = entry_turns(src, dir, entries, from);
        clones_set_what_they_make(below(src, name), below(dir, name), entries[from].1);
        entries_set_what_they_make(src, dir, entries, from + 1);
        assert(turns =~= first + later);
        assert forall|i: int|
            0 <= i < turns.len() && (#[trigger] turns[i] matches Turn::Perform { request }
                && request is SetMode) implies exists|j: int|
            0 <= j < turns.len() && made_dir(#[trigger] turns[j]) == changed(turns[i]) by {
            if i < first.len() {
                assert(turns[i] == first[i]);
                let j = choose|j: int|
                    0 <= j < first.len() && made_dir(#[trigger] first[j]) == changed(first[i]);
                assert(turns[j] == first[j]);
            } else {
                assert(turns[i] == later[i - first.len()]);
                let j = choose|j: int|
                    0 <= j < later.len() && made_dir(#[trigger] later[j]) == changed(
                        later[i - first.len()],
                    );
                assert(turns[j + first.len()] == later[j]);
            }
        }
    }
}

/// That a turn which creates or changes something at `path` did no more: all
/// else is as it was, a directory is still one, and what is new is the link, or
/// the directory with those above it.
spec fn confined<N>(
    kind: spec_fn(N) -> FileKind,
    turn: TurnView,
    path: Seq<u8>,
    before: Map<Seq<u8>, N>,
    after: Map<Seq<u8>, N>,
) -> bool {
    &&& before.dom().subset_of(after.dom())
    &&& forall|at: Seq<u8>|
        #![trigger after[at]]
        before.contains_key(at) && at != path ==> after[at] == before[at]
    &&& before.contains_key(path) && after[path] != before[path] ==> kind(after[path]) is Directory
    &&& forall|at: Seq<u8>| #[trigger]
        after.contains_key(at) && !before.contains_key(at) ==> if made_link(turn) is Some {
            at == path
        } else {
            at_or_inside(path, at) && kind(after[at]) is Directory
        }
}

proof fn effects_are_confined<N>(
    kind: spec_fn(N) -> FileKind,
    request: RequestView,
    path: Seq<u8>,
    before: Map<Seq<u8>, N>,
    after: Map<Seq<u8>, N>,
)
    requires
        changed_path(request) == Some(path),
        straight(kind, before, path),
        request is SetMode && before.contains_key(path) ==> kind(before[path]) is Directory,
        effect(kind, request, before, after),
    ensures
        confined(kind, handing_out(request), path, before, after),
{
    let turn = handing_out(request);
    assert forall|at: Seq<u8>|
        #![trigger after[at]]
        before.contains_key(at) && at != path implies after[at] == before[at] by {
        assert(after.contains_key(at));
    }
    assert(before.dom().subset_of(after.dom()));
    if request !is SetMode && before.contains_key(path) {
        assert(after.contains_key(path));
    }
    assert forall|at: Seq<u8>| #[trigger]
        after.contains_key(at) && !before.contains_key(at) implies if made_link(turn) is Some {
        at == path
    } else {
        at_or_inside(path, at) && kind(after[at]) is Directory
    } by {}
}

proof fn changes_are_confined<N>(
    kind: spec_fn(N) -> FileKind,
    turns: Seq<TurnView>,
    dest: Seq<u8>,
    before: Map<Seq<u8>, N>,
    after: Map<Seq<u8>, N>,
    index: int,
)
    requires
        0 <= index < turns.len(),
        orderly(turns, dest),
        sets_made(turns),
        clear(kind, turns, dest, before),
        changed(turns[index]) is Some,
        turns[index] matches Turn::Perform { request } ==> effect(kind, request, before, after),
    ensures
        confined(kind, turns[index], changed(turns[index])->0, before, after),
{
    let turn = turns[index];
    let path = changed(turn)->0;
    let request = turn->Perform_request;
    clear_is_straight(kind, turns, dest, before, index);
    if request is SetMode {
        let j = choose|j: int|
            0 <= j < turns.len() && made_dir(#[trigger] turns[j]) == changed(turn);
        assert(made_dir(turns[j]) == Some(path));
        if before.contains_key(path) {
            assert(kind(before[path]) is Directory);
        }
    }
    effects_are_confined(kind, request, path, before, after);
}

proof fn clear_stays_clear<N>(
    kind: spec_fn(N) -> FileKind,
    turns: Seq<TurnView>,
    dest: Seq<u8>,
    before: Map<Seq<u8>, N>,
    after: Map<Seq<u8>, N>,
    index: int,
)
    requires
        0 <= index < turns.len(),
        all_stay_inside(turns, dest),
        orderly(turns, dest),
        clear(kind, turns, dest, before),
        changed(turns[index]) is Some,
        confined(kind, turns[index], changed(turns[index])->0, before, after),
    ensures
        clear(kind, turns, dest, after),
{
    let turn = turns[index];
    let path = changed(turn)->0;
    assert(stays_inside(turn, dest));
    assert(inside(path, dest));
    assert forall|above: Seq<u8>| #[trigger]
        after.contains_key(above) && within(dest, above) implies kind(after[above]) !is Symlink by {
        inside_is_not_above(path, dest, above);
        if before.contains_key(above) {
            assert(after[above] == before[above]);
        }
    }
    assert forall|i: int, at: Seq<u8>|
        #![trigger turns[i], after.contains_key(at)]
        0 <= i < turns.len() && (made_dir(turns[i]) matches Some(made) && as_dir(made) == as_dir(
            at,
        )) && after.contains_key(at) implies kind(after[at]) is Directory by {
        let made = made_dir(turns[i])->0;
        if before.contains_key(at) {
            assert(kind(before[at]) is Directory);
            assert(at != path ==> after[at] == before[at]);
        } else if made_link(turn) is Some {
            assert(stays_inside(turns[i], dest));
            inside_is_spelled_one_way(made, at, dest);
            assert(made_dir(turns[i]) != made_link(turns[index]));
        }
    }
}

/// A change inside `dest` adds nothing to a directory apart.
proof fn nothing_new_apart<N>(
    kind: spec_fn(N) -> FileKind,
    turn: TurnView,
    src: Seq<u8>,
    dest: Seq<u8>,
    before: Map<Seq<u8>, N>,
    after: Map<Seq<u8>, N>,
    at: Seq<u8>,
)
    requires
        changed(turn) is Some,
        inside(changed(turn)->0, dest),
        confined(kind, turn, changed(turn)->0, before, after),
        apart(src, dest),
        within(at, src),
    ensures
        after.contains_key(at) == before.contains_key(at),
{
    let path = changed(turn)->0;
    if after.contains_key(at) && !before.contains_key(at) {
        if inside(path, at) {
            inside_of_within(path, at, src);
        }
        apart_share_nothing(path, dest, src);
    }
}

/// One request of a clone leaves the files clear, and keeps what is not inside
/// the destination.
proof fn one_change_keeps_files<N>(
    kind: spec_fn(N) -> FileKind,
    turns: Seq<TurnView>,
    src: Seq<u8>,
    dest: Seq<u8>,
    before: Map<Seq<u8>, N>,
    after: Map<Seq<u8>, N>,
    index: int,
)
    requires
        0 <= index < turns.len(),
        all_stay_inside(turns, dest),
        orderly(turns, dest),
        sets_made(turns),
        clear(kind, turns, dest, before),
        turns[index] matches Turn::Perform { request } ==> effect(kind, request, before, after),
    ensures
        clear(kind, turns, dest, after),
        before.dom().subset_of(after.dom()),
        forall|path: Seq<u8>|
            #![trigger after[path]]
            before.contains_key(path) && !inside(path, dest) ==> after[path] == before[path],
        apart(src, dest) ==> forall|path: Seq<u8>|
            #![trigger after.contains_key(path)]
            within(path, src) ==> after.contains_key(path) == before.contains_key(path),
{
    assert(stays_inside(turns[index], dest));
    if changed(turns[index]) is Some {
        changes_are_confined(kind, turns, dest, before, after, index);
        clear_stays_clear(kind, turns, dest, before, after, index);
        if apart(src, dest) {
            assert forall|path: Seq<u8>|
                #![trigger after.contains_key(path)]
                within(path, src) implies after.contains_key(path) == before.contains_key(path) by {
                nothing_new_apart(kind, turns[index], src, dest, before, after, path);
            }
        }
    }
}

proof fn files_are_kept<N>(
    kind: spec_fn(N) -> FileKind,
    turns: Seq<TurnView>,
    src: Seq<u8>,
    dest: Seq<u8>,
    files: Seq<Map<Seq<u8>, N>>,
    index: int,
)
    requires
        all_stay_inside(turns, dest),
        orderly(turns, dest),
        sets_made(turns),
        course(kind, turns, files),
        clear(kind, turns, dest, files[0]),
        0 <= index < files.len(),
    ensures
        clear(kind, turns, dest, files[index]),
        files[0].dom().subset_of(files[index].dom()),
        forall|path: Seq<u8>|
            #![trigger files[index][path]]
            files[0].contains_key(path) && !inside(path, dest) ==> files[index][path]
                == files[0][path],
        apart(src, dest) ==> forall|path: Seq<u8>|
            #![trigger files[index].contains_key(path)]
            within(path, src) ==> files[index].contains_key(path) == files[0].contains_key(path),
    decreases index,
{
    if index > 0 {
        let before = files[index - 1];
        let after = files[index];
        files_are_kept(kind, turns, src, dest, files, index - 1);
        assert(turns[index - 1] is Perform ==> effect(
            kind,
            turns[index - 1]->Perform_request,
            before,
            after,
        ));
        one_change_keeps_files(kind, turns, src, dest, before, after, index - 1);
        assert forall|path: Seq<u8>|
            #![trigger after[path]]
            files[0].contains_key(path) && !inside(path, dest) implies after[path]
            == files[0][path] by {
            assert(before.contains_key(path));
            assert(before[path] == files[0][path]);
        }
        if apart(src, dest) {
            assert forall|path: Seq<u8>|
                #![trigger after.contains_key(path)]
                within(path, src) implies after.contains_key(path) == files[0].contains_key(
                path,
            ) by {
                assert(before.contains_key(path) == files[0].contains_key(path));
            }
        }
    }
}

/// Cloning keeps what is not inside its destination: nothing is deleted
/// anywhere, no file outside changes, and where neither directory holds the
/// other, the source has the same files afterwards, no more and no fewer, with
/// the same kinds, contents, permission bits and link targets.
///
/// This takes that the destination is clear: a symlink in the way of a directory
/// could lead into the source.
pub proof fn cloning_keeps_its_source<N>(
    kind: spec_fn(N) -> FileKind,
    src: Seq<char>,
    dest: Seq<char>,
    entries: Seq<(Seq<u8>, Tree)>,
    files: Seq<Map<Seq<u8>, N>>,
)
    requires
        well_named_entries(entries, 0),
        distinct_entries(entries, 0),
        course(kind, cloning_turns(src, dest, entries), files),
        clear(kind, cloning_turns(src, dest, entries), text_path(dest), files[0]),
    ensures
        files[0].dom().subset_of(files.last().dom()),
        forall|path: Seq<u8>|
            #![trigger files.last()[path]]
            files[0].contains_key(path) && !inside(path, text_path(dest)) ==> files.last()[path]
                == files[0][path],
        apart(text_path(src), text_path(dest)) ==> forall|path: Seq<u8>|
            #![trigger files.last().contains_key(path)]
            within(path, text_path(src)) ==> files.last().contains_key(path)
                == files[0].contains_key(path),
        apart(text_path(src), text_path(dest)) ==> forall|path: Seq<u8>|
            #![trigger files.last()[path]]
            within(path, text_path(src)) && files[0].contains_key(path) ==> files.last()[path]
                == files[0][path],
{
    let from = text_path(src);
    let to = text_path(dest);
    let turns = cloning_turns(src, dest, entries);
    let inner = entry_turns(from, to, entries, 0);
    encode_utf8_valid_utf8(src);
    encode_utf8_valid_utf8(dest);
    entries_are_orderly(from, to, entries, 0);
    entries_set_what_they_make(from, to, entries, 0);
    assert forall|i: int| 0 <= i < turns.len() implies stays_inside(#[trigger] turns[i], to) by {
        cloning_stays_inside_its_destination(src, dest, entries, i);
    }
    assert forall|i: int| 1 <= i < turns.len() implies #[trigger] turns[i] == inner[i - 1] by {}
    assert(changed(turns[0]) is None);
    assert forall|above: Seq<u8>| known_above(inner, to, above) implies known_above(
        turns,
        to,
        above,
    ) by {
        if !within(to, above) {
            let j = choose|j: int|
                0 <= j < inner.len() && (made_dir(#[trigger] inner[j]) matches Some(made) && as_dir(
                    made,
                ) == as_dir(above));
            assert(turns[j + 1] == inner[j]);
        }
    }
    assert forall|i: int, above: Seq<u8>|
        #![trigger turns[i], inside(changed(turns[i])->0, above)]
        0 <= i < turns.len() && changed(turns[i]) is Some && inside(
            changed(turns[i])->0,
            above,
        ) implies known_above(turns, to, above) by {
        assert(inside(changed(inner[i - 1])->0, above));
        assert(known_above(inner, to, above));
    }
    assert forall|i: int, j: int|
        #![trigger turns[i], turns[j]]
        0 <= i < turns.len() && 0 <= j < turns.len() && made_dir(turns[i]) is Some implies made_dir(
        turns[i],
    ) != made_link(turns[j]) by {
        if i > 0 && j > 0 {
            assert(made_dir(inner[i - 1]) != made_link(inner[j - 1]));
        }
    }
    assert forall|i: int|
        0 <= i < turns.len() && (#[trigger] turns[i] matches Turn::Perform { request } && request
            is SetMode) implies exists|j: int|
        0 <= j < turns.len() && made_dir(#[trigger] turns[j]) == changed(turns[i]) by {
        assert(turns[i] == inner[i - 1]);
        let j = choose|j: int|
            0 <= j < inner.len() && made_dir(#[trigger] inner[j]) == changed(inner[i - 1]);
        assert(turns[j + 1] == inner[j]);
    }
    files_are_kept(kind, turns, from, to, files, turns.len() as int);
    if apart(from, to) {
        assert forall|path: Seq<u8>|
            #![trigger files.last()[path]]
            within(path, from) && files[0].contains_key(path) implies files.last()[path]
            == files[0][path] by {
            if inside(path, to) {
                apart_share_nothing(path, to, from);
            }
        }
    }
}

} // verus!
