//! Where paths lie: what is inside of what.
//!
//! Paths are compared as they are spelled, by the names of their components.

use crate::path::below;
use vstd::prelude::*;
use vstd::utf8::{pop_first_scalar, valid_utf8};

verus! {

/// A directory, spelled with the separator that goes before its entries.
pub open spec fn as_dir(path: Seq<u8>) -> Seq<u8> {
    below(path, Seq::empty())
}

/// Whether a directory can have an entry of that name.
pub open spec fn file_name(name: Seq<u8>) -> bool {
    &&& name.len() > 0
    &&& !name.contains(0x2f)
    &&& name != seq![0x2eu8]
    &&& name != seq![0x2eu8, 0x2eu8]
}

/// Whether all of these are names of entries.
pub open spec fn file_names(names: Seq<Seq<u8>>) -> bool {
    forall|i: int| 0 <= i < names.len() ==> file_name(#[trigger] names[i])
}

/// Where one gets from `dir` by these names, one after the other.
pub open spec fn descend(dir: Seq<u8>, names: Seq<Seq<u8>>) -> Seq<u8>
    decreases names.len(),
{
    if names.len() == 0 {
        dir
    } else {
        below(descend(dir, names.drop_last()), names.last())
    }
}

/// Whether `path` stands for something that `dir` holds, at any depth.
pub open spec fn inside(path: Seq<u8>, dir: Seq<u8>) -> bool {
    exists|names: Seq<Seq<u8>>|
        names.len() > 0 && file_names(names) && path == #[trigger] descend(dir, names)
}

/// Whether `path` stands for `dir` or for something that it holds.
pub open spec fn within(path: Seq<u8>, dir: Seq<u8>) -> bool {
    exists|names: Seq<Seq<u8>>|
        file_names(names) && as_dir(path) == as_dir(#[trigger] descend(dir, names))
}

/// Whether neither of two directories holds the other.
pub open spec fn apart(a: Seq<u8>, b: Seq<u8>) -> bool {
    !within(a, b) && !within(b, a)
}

/// Descending by some names and then by others is descending by all of them.
proof fn descend_by_sum(dir: Seq<u8>, first: Seq<Seq<u8>>, later: Seq<Seq<u8>>)
    ensures
        descend(dir, first + later) == descend(descend(dir, first), later),
    decreases later.len(),
{
    if later.len() == 0 {
        assert(first + later =~= first);
    } else {
        assert((first + later).drop_last() =~= first + later.drop_last());
        descend_by_sum(dir, first, later.drop_last());
    }
}

/// Two spellings of a directory lead to the same places.
proof fn descend_by_spelling(a: Seq<u8>, b: Seq<u8>, names: Seq<Seq<u8>>)
    requires
        as_dir(a) == as_dir(b),
        names.len() > 0,
        file_names(names),
    ensures
        descend(a, names) == descend(b, names),
    decreases names.len(),
{
    let name = names.last();
    assert(file_name(name));
    assert(name.contains(name[0]));
    if names.len() > 1 {
        assert(file_names(names.drop_last()));
        descend_by_spelling(a, b, names.drop_last());
    } else {
        reveal_with_fuel(descend, 2);
        assert(names.drop_last() =~= Seq::empty());
        assert(below(a, name) =~= as_dir(a) + name);
        assert(below(b, name) =~= as_dir(b) + name);
    }
}

/// An entry of a directory is inside of it.
pub(crate) proof fn entries_are_inside(dir: Seq<u8>, name: Seq<u8>)
    requires
        file_name(name),
    ensures
        inside(below(dir, name), dir),
{
    let names = seq![name];
    reveal_with_fuel(descend, 2);
    assert(names.drop_last() =~= Seq::empty());
    assert(descend(dir, names) == below(dir, name));
}

/// What is inside of something inside a directory is inside the directory.
pub(crate) proof fn inside_is_transitive(path: Seq<u8>, middle: Seq<u8>, dir: Seq<u8>)
    requires
        inside(path, middle),
        inside(middle, dir),
    ensures
        inside(path, dir),
{
    let later = choose|names: Seq<Seq<u8>>|
        names.len() > 0 && file_names(names) && path == #[trigger] descend(middle, names);
    let first = choose|names: Seq<Seq<u8>>|
        names.len() > 0 && file_names(names) && middle == #[trigger] descend(dir, names);
    descend_by_sum(dir, first, later);
    assert(file_names(first + later));
}

/// What is inside of something within a directory is within the directory.
pub(crate) proof fn inside_of_within(path: Seq<u8>, middle: Seq<u8>, dir: Seq<u8>)
    requires
        inside(path, middle),
        within(middle, dir),
    ensures
        within(path, dir),
{
    let later = choose|names: Seq<Seq<u8>>|
        names.len() > 0 && file_names(names) && path == #[trigger] descend(middle, names);
    let first = choose|names: Seq<Seq<u8>>|
        file_names(names) && as_dir(middle) == as_dir(#[trigger] descend(dir, names));
    descend_by_spelling(middle, descend(dir, first), later);
    descend_by_sum(dir, first, later);
    assert(file_names(first + later));
}

/// A path tells its last name and the directory before it.
proof fn below_is_injective(a: Seq<u8>, x: Seq<u8>, b: Seq<u8>, y: Seq<u8>)
    requires
        file_name(x),
        file_name(y),
        below(a, x) == below(b, y),
    ensures
        x == y,
        as_dir(a) == as_dir(b),
{
    let path = below(a, x);
    let p = as_dir(a);
    let q = as_dir(b);
    assert(x.contains(x[0]));
    assert(y.contains(y[0]));
    assert(path =~= p + x);
    assert(path =~= q + y);
    if p.len() < q.len() {
        assert(path[q.len() - 1] == q[q.len() - 1]);
        assert(q.last() == 0x2f);
        assert(path[q.len() - 1] == x[q.len() - 1 - p.len()]);
        assert(x.contains(0x2f));
    } else if q.len() < p.len() {
        assert(path[p.len() - 1] == p[p.len() - 1]);
        assert(p.last() == 0x2f);
        assert(path[p.len() - 1] == y[p.len() - 1 - q.len()]);
        assert(y.contains(0x2f));
    }
    assert(p =~= path.take(p.len() as int));
    assert(q =~= path.take(q.len() as int));
    assert(x =~= path.skip(p.len() as int));
    assert(y =~= path.skip(q.len() as int));
}

/// Entries that are the same directory are spelled the same.
proof fn spelled_without_separator(a: Seq<u8>, x: Seq<u8>, b: Seq<u8>, y: Seq<u8>)
    requires
        file_name(x),
        file_name(y),
        as_dir(below(a, x)) == as_dir(below(b, y)),
    ensures
        below(a, x) == below(b, y),
{
    assert(x.contains(x.last()) && x.contains(x[0]));
    assert(y.contains(y.last()) && y.contains(y[0]));
    assert(below(a, x).last() == x.last());
    assert(below(b, y).last() == y.last());
    assert(as_dir(below(a, x)) =~= below(a, x).push(0x2f));
    assert(as_dir(below(b, y)) =~= below(b, y).push(0x2f));
    assert(below(a, x) =~= as_dir(below(a, x)).drop_last());
    assert(below(b, y) =~= as_dir(below(b, y)).drop_last());
}

/// Descending makes a path longer.
proof fn descend_is_longer(dir: Seq<u8>, names: Seq<Seq<u8>>)
    requires
        names.len() > 0,
        file_names(names),
    ensures
        descend(dir, names).len() > dir.len(),
    decreases names.len(),
{
    let name = names.last();
    assert(file_name(name));
    assert(name.contains(name[0]));
    if names.len() > 1 {
        assert(file_names(names.drop_last()));
        descend_is_longer(dir, names.drop_last());
    } else {
        reveal_with_fuel(descend, 2);
        assert(names.drop_last() =~= Seq::empty());
    }
}

/// Nothing is inside itself.
pub(crate) proof fn inside_is_irreflexive(path: Seq<u8>)
    ensures
        !inside(path, path),
{
    if inside(path, path) {
        let names = choose|names: Seq<Seq<u8>>|
            names.len() > 0 && file_names(names) && path == #[trigger] descend(path, names);
        descend_is_longer(path, names);
    }
}

/// From a directory, other names lead to other places.
proof fn descend_is_injective(dir: Seq<u8>, first: Seq<Seq<u8>>, second: Seq<Seq<u8>>)
    requires
        file_names(first),
        file_names(second),
        descend(dir, first) == descend(dir, second),
    ensures
        first == second,
    decreases first.len(),
{
    if first.len() == 0 {
        if second.len() > 0 {
            descend_is_longer(dir, second);
        }
        assert(first =~= second);
    } else if second.len() == 0 {
        descend_is_longer(dir, first);
    } else {
        let a = first.drop_last();
        let b = second.drop_last();
        assert(file_name(first.last()) && file_name(second.last()));
        assert(file_names(a) && file_names(b));
        below_is_injective(descend(dir, a), first.last(), descend(dir, b), second.last());
        if a.len() == 0 || b.len() == 0 {
            lone_names_lead_nowhere_else(dir, a, b);
        } else {
            assert(file_name(a.last()) && file_name(b.last()));
            spelled_without_separator(
                descend(dir, a.drop_last()),
                a.last(),
                descend(dir, b.drop_last()),
                b.last(),
            );
        }
        descend_is_injective(dir, a, b);
        assert(first =~= a.push(first.last()));
        assert(second =~= b.push(second.last()));
    }
}

/// A directory is not spelled like anything that it holds.
proof fn lone_names_lead_nowhere_else(dir: Seq<u8>, first: Seq<Seq<u8>>, second: Seq<Seq<u8>>)
    requires
        file_names(first),
        file_names(second),
        first.len() == 0 || second.len() == 0,
        as_dir(descend(dir, first)) == as_dir(descend(dir, second)),
    ensures
        descend(dir, first) == descend(dir, second),
{
    let names = if first.len() == 0 {
        second
    } else {
        first
    };
    if names.len() > 0 {
        let before = descend(dir, names.drop_last());
        let name = names.last();
        assert(file_name(name));
        assert(file_names(names.drop_last()));
        if names.len() > 1 {
            descend_is_longer(dir, names.drop_last());
        } else {
            assert(names.drop_last() =~= Seq::empty());
        }
        assert(name.contains(name.last()) && name.contains(name[0]));
        assert(below(before, name).last() == name.last());
        assert(as_dir(below(before, name)).len() > as_dir(dir).len());
    }
}

/// Whether `path` is `top` or inside of it.
pub open spec fn at_or_inside(path: Seq<u8>, top: Seq<u8>) -> bool {
    path == top || inside(path, top)
}

/// A path leads through one entry of a directory.
pub(crate) proof fn entries_share_nothing(
    path: Seq<u8>,
    dir: Seq<u8>,
    x: Seq<u8>,
    y: Seq<u8>,
)
    requires
        file_name(x),
        file_name(y),
        at_or_inside(path, below(dir, x)),
        at_or_inside(path, below(dir, y)),
    ensures
        x == y,
{
    let first = entry_names(path, dir, x);
    let second = entry_names(path, dir, y);
    descend_is_injective(dir, first, second);
}

/// How a path leads through an entry of a directory.
proof fn entry_names(path: Seq<u8>, dir: Seq<u8>, name: Seq<u8>) -> (names: Seq<Seq<u8>>)
    requires
        file_name(name),
        at_or_inside(path, below(dir, name)),
    ensures
        file_names(names),
        names.len() > 0,
        names[0] == name,
        path == descend(dir, names),
{
    let lone = seq![name];
    reveal_with_fuel(descend, 2);
    assert(lone.drop_last() =~= Seq::empty());
    assert(descend(dir, lone) == below(dir, name));
    if path == below(dir, name) {
        lone
    } else {
        let later = choose|names: Seq<Seq<u8>>|
            names.len() > 0 && file_names(names) && path == #[trigger] descend(
                below(dir, name),
                names,
            );
        descend_by_sum(dir, lone, later);
        lone + later
    }
}

/// What an entry is inside of is its directory, or holds that.
pub(crate) proof fn above_an_entry(dir: Seq<u8>, name: Seq<u8>, above: Seq<u8>)
    requires
        file_name(name),
        inside(below(dir, name), above),
    ensures
        within(dir, above),
{
    let names = choose|names: Seq<Seq<u8>>|
        names.len() > 0 && file_names(names) && below(dir, name) == #[trigger] descend(
            above,
            names,
        );
    assert(file_name(names.last()));
    assert(file_names(names.drop_last()));
    below_is_injective(dir, name, descend(above, names.drop_last()), names.last());
}

/// An entry within a directory is that directory or inside of it.
pub(crate) proof fn entry_within(dir: Seq<u8>, name: Seq<u8>, above: Seq<u8>)
    requires
        file_name(name),
        within(below(dir, name), above),
    ensures
        as_dir(below(dir, name)) == as_dir(above) || inside(below(dir, name), above),
{
    let names = choose|names: Seq<Seq<u8>>|
        file_names(names) && as_dir(below(dir, name)) == as_dir(#[trigger] descend(above, names));
    if names.len() > 0 {
        assert(file_name(names.last()));
        spelled_without_separator(dir, name, descend(above, names.drop_last()), names.last());
    }
}

/// Things inside a directory that are the same directory are spelled the same.
pub(crate) proof fn inside_is_spelled_one_way(a: Seq<u8>, b: Seq<u8>, dir: Seq<u8>)
    requires
        inside(a, dir),
        inside(b, dir),
        as_dir(a) == as_dir(b),
    ensures
        a == b,
{
    let first = choose|names: Seq<Seq<u8>>|
        names.len() > 0 && file_names(names) && a == #[trigger] descend(dir, names);
    let second = choose|names: Seq<Seq<u8>>|
        names.len() > 0 && file_names(names) && b == #[trigger] descend(dir, names);
    assert(file_name(first.last()) && file_name(second.last()));
    spelled_without_separator(
        descend(dir, first.drop_last()),
        first.last(),
        descend(dir, second.drop_last()),
        second.last(),
    );
}

/// What a directory holds is not what it is within.
pub(crate) proof fn inside_is_not_above(path: Seq<u8>, dir: Seq<u8>, above: Seq<u8>)
    requires
        inside(path, dir),
        within(dir, above),
    ensures
        path != above,
{
    let later = choose|names: Seq<Seq<u8>>|
        names.len() > 0 && file_names(names) && path == #[trigger] descend(dir, names);
    let first = choose|names: Seq<Seq<u8>>|
        file_names(names) && as_dir(dir) == as_dir(#[trigger] descend(above, names));
    descend_by_spelling(dir, descend(above, first), later);
    descend_by_sum(above, first, later);
    assert(file_names(first + later));
    descend_is_longer(above, first + later);
}

/// Of two directories that lead to one place, one holds the other.
proof fn meeting_places(a: Seq<u8>, first: Seq<Seq<u8>>, b: Seq<u8>, second: Seq<Seq<u8>>)
    requires
        file_names(first),
        file_names(second),
        as_dir(descend(a, first)) == as_dir(descend(b, second)),
    ensures
        !apart(a, b),
    decreases first.len(),
{
    if first.len() == 0 {
        assert(within(a, b));
    } else if second.len() == 0 {
        assert(within(b, a));
    } else {
        let c = descend(a, first.drop_last());
        let d = descend(b, second.drop_last());
        assert(file_name(first.last()) && file_name(second.last()));
        spelled_without_separator(c, first.last(), d, second.last());
        below_is_injective(c, first.last(), d, second.last());
        assert(file_names(first.drop_last()) && file_names(second.drop_last()));
        meeting_places(a, first.drop_last(), b, second.drop_last());
    }
}

/// Nothing is inside one of two directories apart and within the other.
pub(crate) proof fn apart_share_nothing(path: Seq<u8>, a: Seq<u8>, b: Seq<u8>)
    requires
        inside(path, a),
        within(path, b),
    ensures
        !apart(a, b),
{
    let first = choose|names: Seq<Seq<u8>>|
        names.len() > 0 && file_names(names) && path == #[trigger] descend(a, names);
    let second = choose|names: Seq<Seq<u8>>|
        file_names(names) && as_dir(path) == as_dir(#[trigger] descend(b, names));
    meeting_places(a, first, b, second);
}

/// After UTF-8, bytes are UTF-8 if and only if all of it is.
proof fn utf8_of_sum(first: Seq<u8>, later: Seq<u8>)
    requires
        valid_utf8(first),
    ensures
        valid_utf8(first + later) == valid_utf8(later),
    decreases first.len(),
{
    if first.len() == 0 {
        assert(first + later =~= later);
    } else {
        utf8_of_sum(pop_first_scalar(first), later);
        assert(pop_first_scalar(first + later) =~= pop_first_scalar(first) + later);
    }
}

/// Below a directory whose path is UTF-8, a path is if and only if the name is.
pub(crate) proof fn utf8_below(dir: Seq<u8>, name: Seq<u8>)
    requires
        valid_utf8(dir),
        file_name(name),
    ensures
        valid_utf8(below(dir, name)) == valid_utf8(name),
{
    assert(name.contains(name[0]));
    assert(below(dir, name) =~= as_dir(dir) + name);
    let separator = seq![0x2fu8];
    assert(valid_utf8(separator)) by {
        reveal_with_fuel(valid_utf8, 2);
        assert(0x2fu8 & 0x7fu8 == 0x2fu8) by (bit_vector);
        assert(pop_first_scalar(separator) =~= Seq::empty());
    }
    utf8_of_sum(dir, separator);
    assert(as_dir(dir) =~= dir || as_dir(dir) =~= dir + separator);
    utf8_of_sum(as_dir(dir), name);
}

} // verus!
