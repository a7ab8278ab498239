//! What installing the applets asks for, and what it does to files.

use crate::action::Config;
use crate::applet::installing_applets;
use crate::files::{course, effect, made_link};
use crate::path::text_path;
use crate::protocol::{ignoring, FileKind, ReplyView, Request, RequestView, StepView, TurnView};
use crate::trace::{handing_out, trace, trace_ignores_all};
use vstd::prelude::*;

verus! {

/// The links that make the applets, and what they are: one to `./magisk` for
/// each name, and `supolicy` to `./magiskpolicy`.
pub open spec fn applet_links(names: Seq<Seq<char>>, path: Seq<char>) -> Seq<RequestView> {
    Seq::new(
        names.len(),
        |i: int|
            Request::Symlink {
                target: text_path("./magisk"@),
                link: text_path(path + "/"@ + names[i]),
            },
    ).push(
        Request::Symlink {
            target: text_path("./magiskpolicy"@),
            link: text_path(path + "/supolicy"@),
        },
    )
}

/// The turns that hand out these requests.
pub open spec fn handing_out_all(requests: Seq<RequestView>) -> Seq<TurnView> {
    Seq::new(requests.len(), |i: int| handing_out(requests[i]))
}

/// Installing the applets asks for every link, whatever becomes of the others,
/// and then goes on with the rest.
pub proof fn installing_asks_for_every_link(
    config: Config,
    names: Seq<Seq<char>>,
    path: Seq<char>,
    rest: Seq<StepView>,
    acks: Seq<ReplyView>,
    replies: Seq<ReplyView>,
)
    requires
        acks.len() == names.len() + 1,
    ensures
        trace(config, installing_applets(names, path) + rest, acks + replies) == handing_out_all(
            applet_links(names, path),
        ) + trace(config, rest, replies),
{
    let requests = applet_links(names, path);
    assert(installing_applets(names, path) =~= Seq::new(
        requests.len(),
        |i: int| ignoring(requests[i]),
    ));
    trace_ignores_all(config, requests, rest, acks, replies);
}

/// Applets that are there are left alone: where every link is held already,
/// installing the applets changes nothing.
pub proof fn installed_applets_are_left_alone<N>(
    kind: spec_fn(N) -> FileKind,
    names: Seq<Seq<char>>,
    path: Seq<char>,
    files: Seq<Map<Seq<u8>, N>>,
)
    requires
        course(kind, handing_out_all(applet_links(names, path)), files),
        forall|i: int|
            0 <= i < applet_links(names, path).len() ==> files[0].contains_key(
                (#[trigger] applet_links(names, path)[i])->Symlink_link,
            ),
    ensures
        files.last() == files[0],
{
    let links = applet_links(names, path);
    let turns = handing_out_all(links);
    assert forall|i: int| 0 <= i < files.len() implies #[trigger] files[i] == files[0] by {
        unchanged_up_to(kind, turns, files, 0, i);
    }
}

/// Where each request from the one at `from` on, up to `to`, is for a link that
/// is held at `from`, or changes nothing, the files stay the same.
proof fn unchanged_up_to<N>(
    kind: spec_fn(N) -> FileKind,
    turns: Seq<TurnView>,
    files: Seq<Map<Seq<u8>, N>>,
    from: int,
    to: int,
)
    requires
        course(kind, turns, files),
        0 <= from <= to < files.len(),
        forall|i: int|
            from <= i < to ==> (made_link(#[trigger] turns[i]) matches Some(link)
                && files[from].contains_key(link)) || files[i + 1] == files[i],
    ensures
        files[to] == files[from],
    decreases to - from,
{
    if from < to {
        unchanged_up_to(kind, turns, files, from, to - 1);
        let turn = turns[to - 1];
        if made_link(turn) is Some {
            assert(effect(kind, turn->Perform_request, files[to - 1], files[to]));
        }
    }
}

/// What is held while links are made stays held.
proof fn links_delete_nothing<N>(
    kind: spec_fn(N) -> FileKind,
    turns: Seq<TurnView>,
    files: Seq<Map<Seq<u8>, N>>,
    from: int,
    to: int,
)
    requires
        course(kind, turns, files),
        0 <= from <= to < files.len(),
        forall|i: int| 0 <= i < turns.len() ==> made_link(#[trigger] turns[i]) is Some,
    ensures
        files[from].submap_of(files[to]),
    decreases to - from,
{
    if from < to {
        links_delete_nothing(kind, turns, files, from, to - 1);
        let turn = turns[to - 1];
        assert(made_link(turn) is Some);
        assert(effect(kind, turn->Perform_request, files[to - 1], files[to]));
        assert(files[to - 1].submap_of(files[to]));
        assert forall|path: Seq<u8>| #[trigger] files[from].dom().contains(path) implies files[to]
            .dom().contains(path) && files[from][path] == files[to][path] by {
            assert(files[to - 1].dom().contains(path));
            assert(files[to].dom().contains(path));
        }
    }
}

/// Installing the applets a second time changes nothing.
///
/// This takes that each link is there after the first time, or is refused again:
/// what keeps a link from being made may have nothing to do with the files.
pub proof fn installing_again_changes_nothing<N>(
    kind: spec_fn(N) -> FileKind,
    names: Seq<Seq<char>>,
    path: Seq<char>,
    files: Seq<Map<Seq<u8>, N>>,
)
    requires
        course(
            kind,
            handing_out_all(applet_links(names, path)) + handing_out_all(applet_links(names, path)),
            files,
        ),
        forall|i: int|
            #![trigger applet_links(names, path)[i]]
            0 <= i < applet_links(names, path).len() ==> files[i + 1].contains_key(
                applet_links(names, path)[i]->Symlink_link,
            ) || files[applet_links(names, path).len() + i + 1] == files[applet_links(
                names,
                path,
            ).len() + i],
    ensures
        files.last() == files[applet_links(names, path).len() as int],
{
    let links = applet_links(names, path);
    let n = links.len() as int;
    let once = handing_out_all(links);
    let turns = once + once;
    assert forall|i: int| 0 <= i < turns.len() implies made_link(#[trigger] turns[i]) is Some by {
        assert(turns[i] == once[if i < n {
            i
        } else {
            i - n
        }]);
    }
    assert forall|i: int| n <= i < 2 * n implies (made_link(#[trigger] turns[i]) matches Some(link)
        && files[n].contains_key(link)) || files[i + 1] == files[i] by {
        let link = links[i - n]->Symlink_link;
        assert(turns[i] == handing_out(links[i - n]));
        if files[i - n + 1].contains_key(link) {
            links_delete_nothing(kind, turns, files, i - n + 1, n);
            assert(files[i - n + 1].dom().contains(link));
            assert(files[n].dom().contains(link));
        }
    }
    unchanged_up_to(kind, turns, files, n, 2 * n);
}

} // verus!
