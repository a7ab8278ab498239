//! What bringing `/sbin` back does to each of its entries.

use crate::action::Config;
use crate::path::text_path;
use crate::protocol::{
    ignoring, reply_text, FileKind, Reply, ReplyView, Request, RequestView, Step, StepView, Then,
    ThenView, TurnView,
};
use crate::recreate::{
    after_mirror_listing, after_recreate_probe, recreating, recreating_entry,
};
use crate::sys::lossy;
use crate::trace::{handing_out, trace, trace_ignores, trace_performs};
use crate::tree_laws::{failure, Tree};
use vstd::prelude::*;

verus! {

/// An entry of a mirror as a host sees it: its name, whether the tool's own
/// tmpfs has an entry of that name, and what it is.
pub struct Mirrored {
    pub name: Seq<u8>,
    pub exists: bool,
    pub file: Tree,
}

/// What a host answers while `file` is brought back. What it answers to
/// requests that change something is up to `acks`, and so is why others fail.
pub open spec fn file_replies(
    src: Seq<char>,
    sbin: Seq<char>,
    use_bind_mount: bool,
    file: Tree,
    acks: spec_fn(RequestView) -> ReplyView,
) -> Seq<ReplyView> {
    match file {
        Tree::Link { mode, target: Some(target) } => seq![
            Reply::Metadata { kind: FileKind::Symlink, mode },
            Reply::Link { target },
            acks(Request::Symlink { target, link: text_path(sbin) }),
        ],
        Tree::Link { mode, target: None } => seq![
            Reply::Metadata { kind: FileKind::Symlink, mode },
            failure(acks, Request::ReadLink { path: text_path(src) }),
        ],
        Tree::Directory { mode, .. } | Tree::Unlisted { mode } => seq![
            Reply::Metadata { kind: FileKind::Directory, mode },
        ] + present_replies(
            src,
            sbin,
            use_bind_mount,
            Request::CreateDirAll { path: text_path(sbin) },
            mode,
            acks,
        ),
        Tree::File { mode } => seq![
            Reply::Metadata { kind: FileKind::Other, mode },
        ] + present_replies(
            src,
            sbin,
            use_bind_mount,
            Request::CreateFile { path: text_path(sbin) },
            mode,
            acks,
        ),
        Tree::Unknown => seq![failure(acks, Request::Metadata { path: text_path(src) })],
    }
}

/// The bind mount of `src` on `sbin`.
pub open spec fn binding(src: Seq<char>, sbin: Seq<char>) -> RequestView {
    Request::Mount { source: Some(src), target: sbin, fstype: None, flags: 0x1000, data: None }
}

/// What a host answers while a file or directory is made present again.
pub open spec fn present_replies(
    src: Seq<char>,
    sbin: Seq<char>,
    use_bind_mount: bool,
    create: RequestView,
    mode: u32,
    acks: spec_fn(RequestView) -> ReplyView,
) -> Seq<ReplyView> {
    if use_bind_mount {
        seq![
            acks(create),
            acks(Request::SetMode { path: text_path(sbin), mode }),
            acks(binding(src, sbin)),
        ]
    } else {
        seq![acks(Request::Symlink { target: text_path(src), link: text_path(sbin) })]
    }
}

/// How a file or directory is made present again: bind mounted on what `create`
/// creates, with the same permission bits, or as a symlink.
pub open spec fn present_turns(
    src: Seq<char>,
    sbin: Seq<char>,
    use_bind_mount: bool,
    create: RequestView,
    mode: u32,
) -> Seq<TurnView> {
    if use_bind_mount {
        seq![
            handing_out(create),
            handing_out(Request::SetMode { path: text_path(sbin), mode }),
            handing_out(binding(src, sbin)),
        ]
    } else {
        seq![handing_out(Request::Symlink { target: text_path(src), link: text_path(sbin) })]
    }
}

/// How `file`, at `src`, is brought back as `sbin`: a symlink becomes one to the
/// same target, a file or directory is made present again.
pub open spec fn file_turns(
    src: Seq<char>,
    sbin: Seq<char>,
    use_bind_mount: bool,
    file: Tree,
) -> Seq<TurnView> {
    let read = handing_out(Request::ReadLink { path: text_path(src) });
    match file {
        Tree::Link { target: Some(target), .. } => seq![
            read,
            handing_out(Request::Symlink { target, link: text_path(sbin) }),
        ],
        Tree::Link { target: None, .. } => seq![read],
        Tree::Directory { mode, .. } | Tree::Unlisted { mode } => present_turns(
            src,
            sbin,
            use_bind_mount,
            Request::CreateDirAll { path: text_path(sbin) },
            mode,
        ),
        Tree::File { mode } => present_turns(
            src,
            sbin,
            use_bind_mount,
            Request::CreateFile { path: text_path(sbin) },
            mode,
        ),
        Tree::Unknown => Seq::empty(),
    }
}

/// Where an entry of that name would be on the tool's own tmpfs: `/sbin` where it
/// has none.
pub open spec fn own_path(magisk_tmp: Seq<char>, name: Seq<char>) -> Seq<char> {
    (if magisk_tmp.len() > 0 {
        magisk_tmp + "/"@
    } else {
        "/sbin/"@
    }) + name
}

/// Whether an entry is left alone: the tool's own tmpfs has it.
pub open spec fn kept(magisk_tmp: Seq<char>, entry: Mirrored) -> bool {
    entry.exists && magisk_tmp.len() > 0
}

/// What a host answers while `entry` is brought back.
pub open spec fn entry_replies(
    mirror: Seq<char>,
    magisk_tmp: Seq<char>,
    use_bind_mount: bool,
    entry: Mirrored,
    acks: spec_fn(RequestView) -> ReplyView,
) -> Seq<ReplyView> {
    let name = lossy(entry.name);
    seq![Reply::Exists { exists: entry.exists }] + (if kept(magisk_tmp, entry) {
        Seq::empty()
    } else {
        file_replies(mirror + "/"@ + name, "/sbin/"@ + name, use_bind_mount, entry.file, acks)
    })
}

/// How `entry` is brought back: not at all if it is kept, else by what it is.
pub open spec fn entry_turns(
    mirror: Seq<char>,
    magisk_tmp: Seq<char>,
    use_bind_mount: bool,
    entry: Mirrored,
) -> Seq<TurnView> {
    let name = lossy(entry.name);
    let src = mirror + "/"@ + name;
    seq![handing_out(Request::Exists { path: text_path(own_path(magisk_tmp, name)) })] + (
    if kept(magisk_tmp, entry) {
        Seq::empty()
    } else {
        seq![handing_out(Request::Metadata { path: text_path(src) })] + file_turns(
            src,
            "/sbin/"@ + name,
            use_bind_mount,
            entry.file,
        )
    })
}

/// What a host answers while `entries` are brought back.
pub open spec fn mirror_replies(
    mirror: Seq<char>,
    magisk_tmp: Seq<char>,
    use_bind_mount: bool,
    entries: Seq<Mirrored>,
    acks: spec_fn(RequestView) -> ReplyView,
) -> Seq<ReplyView>
    decreases entries.len(),
{
    if entries.len() == 0 {
        Seq::empty()
    } else {
        entry_replies(mirror, magisk_tmp, use_bind_mount, entries[0], acks) + mirror_replies(
            mirror,
            magisk_tmp,
            use_bind_mount,
            entries.skip(1),
            acks,
        )
    }
}

/// How `entries` are brought back: one after the other.
pub open spec fn mirror_turns(
    mirror: Seq<char>,
    magisk_tmp: Seq<char>,
    use_bind_mount: bool,
    entries: Seq<Mirrored>,
) -> Seq<TurnView>
    decreases entries.len(),
{
    if entries.len() == 0 {
        Seq::empty()
    } else {
        entry_turns(mirror, magisk_tmp, use_bind_mount, entries[0]) + mirror_turns(
            mirror,
            magisk_tmp,
            use_bind_mount,
            entries.skip(1),
        )
    }
}

proof fn brings_back_present(
    config: Config,
    src: Seq<char>,
    sbin: Seq<char>,
    use_bind_mount: bool,
    create: RequestView,
    mode: u32,
    acks: spec_fn(RequestView) -> ReplyView,
    steps: Seq<StepView>,
    rest: Seq<StepView>,
    replies: Seq<ReplyView>,
)
    requires
        steps == (if use_bind_mount {
            seq![
                ignoring(create),
                ignoring(Request::SetMode { path: text_path(sbin), mode }),
                ignoring(binding(src, sbin)),
            ]
        } else {
            seq![ignoring(Request::Symlink { target: text_path(src), link: text_path(sbin) })]
        }),
    ensures
        trace(
            config,
            steps + rest,
            present_replies(src, sbin, use_bind_mount, create, mode, acks) + replies,
        ) == present_turns(src, sbin, use_bind_mount, create, mode) + trace(
            config,
            rest,
            replies,
        ),
{
    let all = present_replies(src, sbin, use_bind_mount, create, mode, acks) + replies;
    if use_bind_mount {
        let set = Request::SetMode { path: text_path(sbin), mode };
        let bind = binding(src, sbin);
        let last = seq![ignoring(bind)] + rest;
        let answer = seq![acks(bind)] + replies;
        assert(steps + rest =~= seq![ignoring(create)] + (seq![ignoring(set)] + last));
        assert(all =~= seq![acks(create)] + (seq![acks(set)] + answer));
        trace_ignores(
            config,
            create,
            seq![ignoring(set)] + last,
            acks(create),
            seq![acks(set)] + answer,
        );
        trace_ignores(config, set, last, acks(set), answer);
        trace_ignores(config, bind, rest, acks(bind), replies);
    } else {
        let link = Request::Symlink { target: text_path(src), link: text_path(sbin) };
        trace_ignores(config, link, rest, acks(link), replies);
    }
    assert(trace(config, steps + rest, all) =~= present_turns(
        src,
        sbin,
        use_bind_mount,
        create,
        mode,
    ) + trace(config, rest, replies));
}

proof fn brings_back_file(
    config: Config,
    src: Seq<char>,
    sbin: Seq<char>,
    use_bind_mount: bool,
    file: Tree,
    acks: spec_fn(RequestView) -> ReplyView,
    rest: Seq<StepView>,
    replies: Seq<ReplyView>,
)
    ensures
        trace(
            config,
            seq![
                Step::Perform {
                    request: Request::Metadata { path: text_path(src) },
                    then: Then::RecreateFile { src, sbin, use_bind_mount },
                },
            ] + rest,
            file_replies(src, sbin, use_bind_mount, file, acks) + replies,
        ) == seq![handing_out(Request::Metadata { path: text_path(src) })] + file_turns(
            src,
            sbin,
            use_bind_mount,
            file,
        ) + trace(config, rest, replies),
{
    let probe = Request::Metadata { path: text_path(src) };
    let then: ThenView = Then::RecreateFile { src, sbin, use_bind_mount };
    let all = file_replies(src, sbin, use_bind_mount, file, acks);
    let told = all.skip(1) + replies;
    assert(all + replies =~= seq![all[0]] + told);
    trace_performs(config, probe, then, rest, all[0], told);
    let steps = after_recreate_probe(src, sbin, use_bind_mount, all[0]);
    match file {
        Tree::Link { mode, target } => {
            let read = Request::ReadLink { path: text_path(src) };
            let link: ThenView = Then::RecreateLink { sbin };
            match target {
                Some(target) => {
                    let symlink = Request::Symlink { target, link: text_path(sbin) };
                    assert(told =~= seq![Reply::Link { target }] + (seq![acks(symlink)]
                        + replies));
                    trace_performs(
                        config,
                        read,
                        link,
                        rest,
                        Reply::Link { target },
                        seq![acks(symlink)] + replies,
                    );
                    trace_ignores(config, symlink, rest, acks(symlink), replies);
                },
                None => {
                    assert(told =~= seq![failure(acks, read)] + replies);
                    trace_performs(config, read, link, rest, failure(acks, read), replies);
                    assert(Seq::<StepView>::empty() + rest =~= rest);
                },
            }
        },
        Tree::Directory { mode, .. } | Tree::Unlisted { mode } => {
            let create = Request::CreateDirAll { path: text_path(sbin) };
            assert(all.skip(1) =~= present_replies(src, sbin, use_bind_mount, create, mode, acks));
            brings_back_present(
                config,
                src,
                sbin,
                use_bind_mount,
                create,
                mode,
                acks,
                steps,
                rest,
                replies,
            );
        },
        Tree::File { mode } => {
            let create = Request::CreateFile { path: text_path(sbin) };
            assert(all.skip(1) =~= present_replies(src, sbin, use_bind_mount, create, mode, acks));
            brings_back_present(
                config,
                src,
                sbin,
                use_bind_mount,
                create,
                mode,
                acks,
                steps,
                rest,
                replies,
            );
        },
        Tree::Unknown => {
            assert(told =~= replies);
            assert(Seq::<StepView>::empty() + rest =~= rest);
        },
    }
    let pending = seq![Step::Perform { request: probe, then }] + rest;
    assert(trace(config, pending, all + replies) =~= seq![handing_out(probe)] + file_turns(
        src,
        sbin,
        use_bind_mount,
        file,
    ) + trace(config, rest, replies));
}

proof fn brings_back_entry(
    config: Config,
    mirror: Seq<char>,
    magisk_tmp: Seq<char>,
    use_bind_mount: bool,
    entry: Mirrored,
    acks: spec_fn(RequestView) -> ReplyView,
    rest: Seq<StepView>,
    replies: Seq<ReplyView>,
)
    ensures
        trace(
            config,
            seq![recreating_entry(mirror, magisk_tmp, use_bind_mount, lossy(entry.name))] + rest,
            entry_replies(mirror, magisk_tmp, use_bind_mount, entry, acks) + replies,
        ) == entry_turns(mirror, magisk_tmp, use_bind_mount, entry) + trace(
            config,
            rest,
            replies,
        ),
{
    let name = lossy(entry.name);
    let src = mirror + "/"@ + name;
    let sbin = "/sbin/"@ + name;
    let probe = Request::Exists { path: text_path(own_path(magisk_tmp, name)) };
    let then: ThenView = Then::RecreateEntry {
        src,
        sbin,
        keep_existing: magisk_tmp.len() > 0,
        use_bind_mount,
    };
    let reply: ReplyView = Reply::Exists { exists: entry.exists };
    let all = entry_replies(mirror, magisk_tmp, use_bind_mount, entry, acks);
    let told = all.skip(1) + replies;
    assert(all + replies =~= seq![reply] + told);
    trace_performs(config, probe, then, rest, reply, told);
    if kept(magisk_tmp, entry) {
        assert(told =~= replies);
        assert(Seq::<StepView>::empty() + rest =~= rest);
    } else {
        assert(all.skip(1) =~= file_replies(src, sbin, use_bind_mount, entry.file, acks));
        brings_back_file(config, src, sbin, use_bind_mount, entry.file, acks, rest, replies);
    }
    assert(trace(
        config,
        seq![recreating_entry(mirror, magisk_tmp, use_bind_mount, name)] + rest,
        all + replies,
    ) =~= entry_turns(mirror, magisk_tmp, use_bind_mount, entry) + trace(config, rest, replies));
}

/// The steps that bring `entries` back.
spec fn recreating_entries(
    mirror: Seq<char>,
    magisk_tmp: Seq<char>,
    use_bind_mount: bool,
    entries: Seq<Mirrored>,
) -> Seq<StepView> {
    Seq::new(
        entries.len(),
        |i: int| recreating_entry(mirror, magisk_tmp, use_bind_mount, lossy(entries[i].name)),
    )
}

proof fn brings_back_entries(
    config: Config,
    mirror: Seq<char>,
    magisk_tmp: Seq<char>,
    use_bind_mount: bool,
    entries: Seq<Mirrored>,
    acks: spec_fn(RequestView) -> ReplyView,
    rest: Seq<StepView>,
    replies: Seq<ReplyView>,
)
    ensures
        trace(
            config,
            recreating_entries(mirror, magisk_tmp, use_bind_mount, entries) + rest,
            mirror_replies(mirror, magisk_tmp, use_bind_mount, entries, acks) + replies,
        ) == mirror_turns(mirror, magisk_tmp, use_bind_mount, entries) + trace(
            config,
            rest,
            replies,
        ),
    decreases entries.len(),
{
    let steps = recreating_entries(mirror, magisk_tmp, use_bind_mount, entries);
    let all = mirror_replies(mirror, magisk_tmp, use_bind_mount, entries, acks);
    let turns = mirror_turns(mirror, magisk_tmp, use_bind_mount, entries);
    if entries.len() == 0 {
        assert(steps + rest =~= rest);
        assert(all + replies =~= replies);
        assert(turns + trace(config, rest, replies) =~= trace(config, rest, replies));
    } else {
        let others = entries.skip(1);
        let last = recreating_entries(mirror, magisk_tmp, use_bind_mount, others);
        let later = mirror_replies(mirror, magisk_tmp, use_bind_mount, others, acks);
        let own = entry_replies(mirror, magisk_tmp, use_bind_mount, entries[0], acks);
        let step = recreating_entry(mirror, magisk_tmp, use_bind_mount, lossy(entries[0].name));
        assert(steps + rest =~= seq![step] + (last + rest));
        assert(all + replies =~= own + (later + replies));
        brings_back_entry(
            config,
            mirror,
            magisk_tmp,
            use_bind_mount,
            entries[0],
            acks,
            last + rest,
            later + replies,
        );
        brings_back_entries(
            config,
            mirror,
            magisk_tmp,
            use_bind_mount,
            others,
            acks,
            rest,
            replies,
        );
        assert(turns + trace(config, rest, replies) =~= entry_turns(
            mirror,
            magisk_tmp,
            use_bind_mount,
            entries[0],
        ) + (mirror_turns(mirror, magisk_tmp, use_bind_mount, others) + trace(
            config,
            rest,
            replies,
        )));
    }
}

/// The names of the entries of a mirror.
pub open spec fn names(entries: Seq<Mirrored>) -> Seq<Seq<u8>> {
    Seq::new(entries.len(), |i: int| entries[i].name)
}

/// Bringing `/sbin` back from a mirror that cannot be listed does nothing more,
/// and goes on with the rest.
pub proof fn unlisted_mirrors_are_passed_over(
    config: Config,
    mirror: Seq<char>,
    use_bind_mount: bool,
    tmp: ReplyView,
    reply: ReplyView,
    rest: Seq<StepView>,
    replies: Seq<ReplyView>,
)
    requires
        reply !is Entries,
    ensures
        trace(
            config,
            seq![recreating(mirror, use_bind_mount)] + rest,
            seq![tmp, reply] + replies,
        ) == seq![
            handing_out(Request::MagiskTmp),
            handing_out(Request::ReadDir { path: text_path(mirror) }),
        ] + trace(config, rest, replies),
{
    assert(seq![tmp, reply] + replies =~= seq![tmp] + (seq![reply] + replies));
    trace_performs(
        config,
        Request::MagiskTmp,
        Then::RecreateSbin { mirror, use_bind_mount },
        rest,
        tmp,
        seq![reply] + replies,
    );
    trace_performs(
        config,
        Request::ReadDir { path: text_path(mirror) },
        Then::RecreateDir { mirror, magisk_tmp: reply_text(tmp), use_bind_mount },
        rest,
        reply,
        replies,
    );
    assert(Seq::<StepView>::empty() + rest =~= rest);
}

/// Bringing `/sbin` back reaches every entry of the mirror in the order of the
/// listing, leaves alone what the tool's own tmpfs has, does to any other entry
/// what its kind calls for and nothing else, and then goes on with the rest,
/// whatever the host answers to the changes.
pub proof fn recreating_reaches_every_entry(
    config: Config,
    mirror: Seq<char>,
    magisk_tmp: Seq<char>,
    use_bind_mount: bool,
    entries: Seq<Mirrored>,
    acks: spec_fn(RequestView) -> ReplyView,
    rest: Seq<StepView>,
    replies: Seq<ReplyView>,
)
    ensures
        trace(
            config,
            seq![recreating(mirror, use_bind_mount)] + rest,
            seq![
                Reply::Text { text: magisk_tmp },
                Reply::Entries { names: names(entries) },
            ] + mirror_replies(mirror, magisk_tmp, use_bind_mount, entries, acks) + replies,
        ) == seq![
            handing_out(Request::MagiskTmp),
            handing_out(Request::ReadDir { path: text_path(mirror) }),
        ] + mirror_turns(mirror, magisk_tmp, use_bind_mount, entries) + trace(
            config,
            rest,
            replies,
        ),
{
    let inner = mirror_replies(mirror, magisk_tmp, use_bind_mount, entries, acks) + replies;
    let tmp: ReplyView = Reply::Text { text: magisk_tmp };
    let listing: ReplyView = Reply::Entries { names: names(entries) };
    let all = seq![tmp, listing] + mirror_replies(
        mirror,
        magisk_tmp,
        use_bind_mount,
        entries,
        acks,
    ) + replies;
    assert(all =~= seq![tmp] + (seq![listing] + inner));
    trace_performs(
        config,
        Request::MagiskTmp,
        Then::RecreateSbin { mirror, use_bind_mount },
        rest,
        tmp,
        seq![listing] + inner,
    );
    trace_performs(
        config,
        Request::ReadDir { path: text_path(mirror) },
        Then::RecreateDir { mirror, magisk_tmp, use_bind_mount },
        rest,
        listing,
        inner,
    );
    assert(after_mirror_listing(mirror, magisk_tmp, use_bind_mount, listing)
        =~= recreating_entries(mirror, magisk_tmp, use_bind_mount, entries));
    brings_back_entries(
        config,
        mirror,
        magisk_tmp,
        use_bind_mount,
        entries,
        acks,
        rest,
        replies,
    );
    assert(trace(config, seq![recreating(mirror, use_bind_mount)] + rest, all) =~= seq![
        handing_out(Request::MagiskTmp),
        handing_out(Request::ReadDir { path: text_path(mirror) }),
    ] + mirror_turns(mirror, magisk_tmp, use_bind_mount, entries) + trace(config, rest, replies));
}

} // verus!
