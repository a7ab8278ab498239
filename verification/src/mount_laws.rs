//! Mounting `/sbin` from the first request to the last.
//!
//! The runs go on with `rest`, whatever that is. What a host answers to requests
//! that change something, and to messages, is up to `acks`; the replies on which
//! a run depends are given.

use crate::action::{Config, MagiskAction, MountSbinCmd};
use crate::clone::cloning;
use crate::exec::commanded;
use crate::mount::{mounting_sbin, mounting_tmpfs, root_in_memory};
use crate::path::text_path;
use crate::protocol::{
    failure_text, ignoring, Finish, Reply, ReplyView, Request, RequestView, Step, StepView, Then,
    TurnView,
};
use crate::recreate::recreating;
use crate::recreate_laws::{
    mirror_replies, mirror_turns, names as mirrored_names, recreating_reaches_every_entry, Mirrored,
};
use crate::trace::{ending, handing_out, trace, trace_ignores, trace_performs, trace_stops};
use crate::tree_laws::{
    cloning_reaches_the_whole_tree, cloning_turns, entry_replies, names, Tree,
};
use vstd::prelude::*;

verus! {

/// Whether a reply says that a file system is a ramfs or a tmpfs.
pub open spec fn ramfs_or_tmpfs(reply: ReplyView) -> bool {
    reply matches Reply::FsType { fs_type } && (fs_type == 0x858458f6 || fs_type == 0x01021994)
}

/// The root counts as in memory exactly if it is a ramfs or a tmpfs.
pub proof fn only_ramfs_and_tmpfs_are_in_memory(reply: ReplyView)
    ensures
        root_in_memory(reply) <==> ramfs_or_tmpfs(reply),
{
}

/// The mount of a tmpfs on `dest`.
pub open spec fn tmpfs_on(dest: Seq<char>) -> RequestView {
    Request::Mount {
        source: Some("magisk"@),
        target: dest,
        fstype: Some("tmpfs"@),
        flags: 0,
        data: Some("mode=755"@),
    }
}

/// The change of how the root is mounted.
pub open spec fn root_with(flags: u64) -> RequestView {
    Request::Mount { source: None, target: "/"@, fstype: None, flags, data: None }
}

/// The question what the root is.
pub open spec fn probing() -> TurnView {
    handing_out(Request::FilesystemType { path: text_path("/"@) })
}

/// The context of `/sbin`.
pub open spec fn labelling() -> RequestView {
    Request::SetSecontext { path: text_path("/sbin"@), context: "u:object_r:rootfs:s0"@ }
}

/// The message that a tmpfs was mounted on `dest`.
pub open spec fn mounted_message(dest: Seq<char>) -> RequestView {
    Request::ErrorLine { text: "tmpfs mount: "@ + dest }
}

/// The message that none could be, with the reason that the host gives.
pub open spec fn failed_message(dest: Seq<char>, reply: ReplyView) -> RequestView {
    Request::ErrorLine {
        text: "tmpfs mount failed "@ + dest + ": "@ + (match reply {
            Reply::Failed { error } => error,
            _ => Seq::empty(),
        }),
    }
}

/// The command that mounts `/sbin`.
pub open spec fn mount_command(config: Config) -> Seq<StepView> {
    commanded(config, MagiskAction::MountSbin(MountSbinCmd {  }))
}

proof fn begins_with_the_probe(
    config: Config,
    rest: Seq<StepView>,
    probe: ReplyView,
    replies: Seq<ReplyView>,
)
    ensures
        trace(config, mount_command(config) + rest, seq![probe] + replies) == seq![probing()]
            + trace(
            config,
            mounting_sbin(config.internal_dir@, root_in_memory(probe)) + rest,
            replies,
        ),
{
    assert(mount_command(config) =~= seq![
        Step::Perform {
            request: Request::FilesystemType { path: text_path("/"@) },
            then: Then::RootProbed,
        },
    ]);
    trace_performs(
        config,
        Request::FilesystemType { path: text_path("/"@) },
        Then::RootProbed,
        rest,
        probe,
        replies,
    );
}

/// Where a root in memory cannot be made writable, that is told with the reason,
/// and the tool returns -1.
pub proof fn unwritable_roots_end_the_run(
    config: Config,
    rest: Seq<StepView>,
    probe: ReplyView,
    remount: ReplyView,
    said: ReplyView,
    replies: Seq<ReplyView>,
)
    requires
        ramfs_or_tmpfs(probe),
        remount !is Done,
    ensures
        trace(config, mount_command(config) + rest, seq![probe, remount, said] + replies) == seq![
            probing(),
            handing_out(root_with(0x20)),
            handing_out(
                Request::ErrorLine {
                    text: "remount / rw failed: "@ + (match remount {
                        Reply::Failed { error } => error,
                        _ => Seq::empty(),
                    }),
                },
            ),
            ending(Finish::Return { code: (-1) as i32 }),
        ],
{
    let all = seq![probe, remount, said] + replies;
    assert(all =~= seq![probe] + (seq![remount] + (seq![said] + replies)));
    begins_with_the_probe(config, rest, probe, seq![remount] + (seq![said] + replies));
    let mounting = mounting_sbin(config.internal_dir@, true);
    let later = mounting.skip(1) + rest;
    assert(mounting + rest =~= seq![
        Step::Perform { request: root_with(0x20), then: Then::RootRemounted },
    ] + later);
    trace_performs(
        config,
        root_with(0x20),
        Then::RootRemounted,
        later,
        remount,
        seq![said] + replies,
    );
    let message = Request::ErrorLine { text: "remount / rw failed: "@ + failure_text(remount) };
    let stop = seq![Step::Stop { finish: Finish::Return { code: (-1) as i32 } }] + later;
    assert(seq![
        ignoring(message),
        Step::Stop { finish: Finish::Return { code: (-1) as i32 } },
    ] + later =~= seq![ignoring(message)] + stop);
    trace_ignores(config, message, stop, said, replies);
    trace_stops(config, Finish::Return { code: (-1) as i32 }, later, replies);
}

/// What a host answers from the probe up to the clone of a root in memory.
pub open spec fn memory_replies(
    probe: ReplyView,
    entries: Seq<(Seq<u8>, Tree)>,
    acks: spec_fn(RequestView) -> ReplyView,
) -> Seq<ReplyView> {
    seq![
        probe,
        Reply::Done,
        acks(Request::CreateDirAll { path: text_path("/sbin"@) }),
        acks(Request::RemoveDirAll { path: text_path("/root"@) }),
        acks(Request::CreateDirAll { path: text_path("/root"@) }),
        Reply::Entries { names: names(entries) },
    ] + entry_replies(text_path("/sbin"@), text_path("/root"@), entries, 0, acks)
}

/// From the probe up to the clone: the root becomes writable, and `/sbin` is
/// cloned into an empty `/root`.
pub open spec fn memory_turns(entries: Seq<(Seq<u8>, Tree)>) -> Seq<TurnView> {
    seq![
        probing(),
        handing_out(root_with(0x20)),
        handing_out(Request::CreateDirAll { path: text_path("/sbin"@) }),
        handing_out(Request::RemoveDirAll { path: text_path("/root"@) }),
        handing_out(Request::CreateDirAll { path: text_path("/root"@) }),
    ] + cloning_turns("/sbin"@, "/root"@, entries)
}

proof fn clones_a_root_in_memory(
    config: Config,
    rest: Seq<StepView>,
    probe: ReplyView,
    entries: Seq<(Seq<u8>, Tree)>,
    acks: spec_fn(RequestView) -> ReplyView,
    replies: Seq<ReplyView>,
)
    requires
        ramfs_or_tmpfs(probe),
    ensures
        trace(
            config,
            mount_command(config) + rest,
            memory_replies(probe, entries, acks) + replies,
        ) == memory_turns(entries) + trace(
            config,
            mounting_sbin(config.internal_dir@, true).skip(5) + rest,
            replies,
        ),
{
    let done: ReplyView = Reply::Done;
    let sbin = Request::CreateDirAll { path: text_path("/sbin"@) };
    let remove = Request::RemoveDirAll { path: text_path("/root"@) };
    let root = Request::CreateDirAll { path: text_path("/root"@) };
    let mounting = mounting_sbin(config.internal_dir@, true);
    let p5 = mounting.skip(5) + rest;
    let p4 = seq![cloning("/sbin"@, "/root"@)] + p5;
    let p3 = seq![ignoring(root)] + p4;
    let p2 = seq![ignoring(remove)] + p3;
    let p1 = seq![ignoring(sbin)] + p2;
    let inner = entry_replies(text_path("/sbin"@), text_path("/root"@), entries, 0, acks);
    let r4 = seq![Reply::Entries { names: names(entries) }] + inner + replies;
    let r3 = seq![acks(root)] + r4;
    let r2 = seq![acks(remove)] + r3;
    let r1 = seq![acks(sbin)] + r2;
    let r0 = seq![done] + r1;
    assert(memory_replies(probe, entries, acks) + replies =~= seq![probe] + r0);
    begins_with_the_probe(config, rest, probe, r0);
    let remount = root_with(0x20);
    assert(mounting + rest =~= seq![
        Step::Perform { request: remount, then: Then::RootRemounted },
    ] + p1);
    trace_performs(config, remount, Then::RootRemounted, p1, done, r1);
    assert(Seq::<StepView>::empty() + p1 =~= p1);
    trace_ignores(config, sbin, p2, acks(sbin), r2);
    trace_ignores(config, remove, p3, acks(remove), r3);
    trace_ignores(config, root, p4, acks(root), r4);
    cloning_reaches_the_whole_tree(config, "/sbin"@, "/root"@, entries, acks, p5, replies);
    let end = trace(config, p5, replies);
    assert(memory_turns(entries) + end =~= seq![probing()] + (seq![handing_out(remount)] + (seq![
        handing_out(sbin),
    ] + (seq![handing_out(remove)] + (seq![handing_out(root)] + (cloning_turns(
        "/sbin"@,
        "/root"@,
        entries,
    ) + end))))));
}

/// Where no tmpfs can be mounted on `/sbin` after a root in memory was cloned,
/// that is told with the reason, the root becomes read-only again, and the tool
/// returns -1.
pub proof fn failed_mounts_restore_a_root_in_memory(
    config: Config,
    rest: Seq<StepView>,
    probe: ReplyView,
    entries: Seq<(Seq<u8>, Tree)>,
    mount: ReplyView,
    said: ReplyView,
    restored: ReplyView,
    acks: spec_fn(RequestView) -> ReplyView,
    replies: Seq<ReplyView>,
)
    requires
        ramfs_or_tmpfs(probe),
        mount !is Done,
    ensures
        trace(
            config,
            mount_command(config) + rest,
            memory_replies(probe, entries, acks) + (seq![mount, said, restored] + replies),
        ) == memory_turns(entries) + seq![
            handing_out(tmpfs_on("/sbin"@)),
            handing_out(failed_message("/sbin"@, mount)),
            handing_out(root_with(0x21)),
            ending(Finish::Return { code: (-1) as i32 }),
        ],
{
    let after = seq![mount, said, restored] + replies;
    clones_a_root_in_memory(config, rest, probe, entries, acks, after);
    let later = mounting_sbin(config.internal_dir@, true).skip(6) + rest;
    let pending = mounting_sbin(config.internal_dir@, true).skip(5) + rest;
    assert(pending =~= seq![mounting_tmpfs("/sbin"@, true)] + later);
    assert(after =~= seq![mount] + (seq![said] + (seq![restored] + replies)));
    trace_performs(
        config,
        tmpfs_on("/sbin"@),
        Then::TmpfsMounted { dest: "/sbin"@, restore_root: true },
        later,
        mount,
        seq![said] + (seq![restored] + replies),
    );
    let message = failed_message("/sbin"@, mount);
    let stop = seq![Step::Stop { finish: Finish::Return { code: (-1) as i32 } }] + later;
    assert(seq![
        ignoring(message),
        ignoring(root_with(0x21)),
        Step::Stop { finish: Finish::Return { code: (-1) as i32 } },
    ] + later =~= seq![ignoring(message)] + (seq![ignoring(root_with(0x21))] + stop));
    trace_ignores(
        config,
        message,
        seq![ignoring(root_with(0x21))] + stop,
        said,
        seq![restored] + replies,
    );
    trace_ignores(config, root_with(0x21), stop, restored, replies);
    trace_stops(config, Finish::Return { code: (-1) as i32 }, later, replies);
    assert(trace(config, pending, after) =~= seq![
        handing_out(tmpfs_on("/sbin"@)),
        handing_out(message),
        handing_out(root_with(0x21)),
        ending(Finish::Return { code: (-1) as i32 }),
    ]);
}

/// What a host answers from the mount of a tmpfs on `/sbin` on.
pub open spec fn mounted_replies(acks: spec_fn(RequestView) -> ReplyView) -> Seq<ReplyView> {
    seq![Reply::Done, acks(mounted_message("/sbin"@)), acks(labelling())]
}

/// The mount of a tmpfs on `/sbin`, which gets its context.
pub open spec fn mounted_turns() -> Seq<TurnView> {
    seq![
        handing_out(tmpfs_on("/sbin"@)),
        handing_out(mounted_message("/sbin"@)),
        handing_out(labelling()),
    ]
}

/// What a host answers while `/sbin` is brought back from `mirror`.
pub open spec fn back_replies(
    mirror: Seq<char>,
    magisk_tmp: Seq<char>,
    use_bind_mount: bool,
    mirrored: Seq<Mirrored>,
    acks: spec_fn(RequestView) -> ReplyView,
) -> Seq<ReplyView> {
    seq![Reply::Text { text: magisk_tmp }, Reply::Entries { names: mirrored_names(mirrored) }]
        + mirror_replies(mirror, magisk_tmp, use_bind_mount, mirrored, acks)
}

/// Bringing `/sbin` back from `mirror`.
pub open spec fn back_turns(
    mirror: Seq<char>,
    magisk_tmp: Seq<char>,
    use_bind_mount: bool,
    mirrored: Seq<Mirrored>,
) -> Seq<TurnView> {
    seq![
        handing_out(Request::MagiskTmp),
        handing_out(Request::ReadDir { path: text_path(mirror) }),
    ] + mirror_turns(mirror, magisk_tmp, use_bind_mount, mirrored)
}

proof fn mounts_tmpfs_on_sbin(
    config: Config,
    restore_root: bool,
    later: Seq<StepView>,
    acks: spec_fn(RequestView) -> ReplyView,
    replies: Seq<ReplyView>,
)
    ensures
        trace(
            config,
            seq![mounting_tmpfs("/sbin"@, restore_root), ignoring(labelling())] + later,
            mounted_replies(acks) + replies,
        ) == mounted_turns() + trace(config, later, replies),
{
    let done: ReplyView = Reply::Done;
    let message = mounted_message("/sbin"@);
    let label = seq![ignoring(labelling())] + later;
    let r2 = seq![acks(labelling())] + replies;
    let r1 = seq![acks(message)] + r2;
    assert(mounted_replies(acks) + replies =~= seq![done] + r1);
    assert(seq![mounting_tmpfs("/sbin"@, restore_root), ignoring(labelling())] + later =~= seq![
        mounting_tmpfs("/sbin"@, restore_root),
    ] + label);
    trace_performs(
        config,
        tmpfs_on("/sbin"@),
        Then::TmpfsMounted { dest: "/sbin"@, restore_root },
        label,
        done,
        r1,
    );
    trace_ignores(config, message, label, acks(message), r2);
    trace_ignores(config, labelling(), later, acks(labelling()), replies);
    assert(mounted_turns() + trace(config, later, replies) =~= seq![
        handing_out(tmpfs_on("/sbin"@)),
    ] + (seq![handing_out(message)] + (seq![handing_out(labelling())] + trace(
        config,
        later,
        replies,
    ))));
}

/// `/sbin` on a root in memory: the root becomes writable, `/sbin` is cloned into
/// an empty `/root` and covered by a tmpfs, its entries are brought back out of
/// `/root`, and the root becomes read-only again. Then the run goes on.
pub proof fn sbin_of_a_root_in_memory_is_cloned(
    config: Config,
    rest: Seq<StepView>,
    probe: ReplyView,
    entries: Seq<(Seq<u8>, Tree)>,
    magisk_tmp: Seq<char>,
    mirrored: Seq<Mirrored>,
    acks: spec_fn(RequestView) -> ReplyView,
    replies: Seq<ReplyView>,
)
    requires
        ramfs_or_tmpfs(probe),
    ensures
        trace(
            config,
            mount_command(config) + rest,
            memory_replies(probe, entries, acks) + (mounted_replies(acks) + (back_replies(
                "/root"@,
                magisk_tmp,
                false,
                mirrored,
                acks,
            ) + (seq![acks(root_with(0x21))] + replies))),
        ) == memory_turns(entries) + (mounted_turns() + (back_turns(
            "/root"@,
            magisk_tmp,
            false,
            mirrored,
        ) + (seq![handing_out(root_with(0x21))] + trace(config, rest, replies)))),
{
    let last = seq![ignoring(root_with(0x21))] + rest;
    let r3 = seq![acks(root_with(0x21))] + replies;
    let back = back_replies("/root"@, magisk_tmp, false, mirrored, acks);
    let r2 = back + r3;
    let r1 = mounted_replies(acks) + r2;
    clones_a_root_in_memory(config, rest, probe, entries, acks, r1);
    let later = seq![recreating("/root"@, false)] + last;
    assert(mounting_sbin(config.internal_dir@, true).skip(5) + rest =~= seq![
        mounting_tmpfs("/sbin"@, true),
        ignoring(labelling()),
    ] + later);
    mounts_tmpfs_on_sbin(config, true, later, acks, r2);
    recreating_reaches_every_entry(config, "/root"@, magisk_tmp, false, mirrored, acks, last, r3);
    trace_ignores(config, root_with(0x21), rest, acks(root_with(0x21)), replies);
}

/// Where the root is mirrored below `/sbin`.
pub open spec fn mirror_of(config: Config) -> Seq<char> {
    "/sbin/"@ + config.internal_dir@ + "/mirror/system_root"@
}

/// The bind mount of the root on its mirror.
pub open spec fn mirroring(config: Config) -> RequestView {
    Request::Mount {
        source: Some("/"@),
        target: mirror_of(config),
        fstype: None,
        flags: 0x1000,
        data: None,
    }
}

/// The lazy unmount of the mirror.
pub open spec fn unmirroring(config: Config) -> RequestView {
    Request::Unmount { target: mirror_of(config), flags: 2 }
}

/// The directories that the mirror needs.
pub open spec fn mirror_dirs(config: Config) -> Seq<RequestView> {
    seq![
        Request::CreateDirAll { path: text_path("/sbin/"@ + config.internal_dir@) },
        Request::CreateDirAll { path: text_path(mirror_of(config)) },
    ]
}

/// Where no tmpfs can be mounted on `/sbin` of any other root, that is told with
/// the reason, and the tool returns -1.
pub proof fn failed_mounts_end_the_run(
    config: Config,
    rest: Seq<StepView>,
    probe: ReplyView,
    mount: ReplyView,
    said: ReplyView,
    replies: Seq<ReplyView>,
)
    requires
        !ramfs_or_tmpfs(probe),
        mount !is Done,
    ensures
        trace(config, mount_command(config) + rest, seq![probe, mount, said] + replies) == seq![
            probing(),
            handing_out(tmpfs_on("/sbin"@)),
            handing_out(failed_message("/sbin"@, mount)),
            ending(Finish::Return { code: (-1) as i32 }),
        ],
{
    let all = seq![probe, mount, said] + replies;
    assert(all =~= seq![probe] + (seq![mount] + (seq![said] + replies)));
    begins_with_the_probe(config, rest, probe, seq![mount] + (seq![said] + replies));
    let mounting = mounting_sbin(config.internal_dir@, false);
    let later = mounting.skip(1) + rest;
    assert(mounting + rest =~= seq![mounting_tmpfs("/sbin"@, false)] + later);
    tmpfs_mount_fails(config, "/sbin"@, later, mount, said, replies);
}

/// A tmpfs that cannot be mounted ends the run.
pub(crate) proof fn tmpfs_mount_fails(
    config: Config,
    dest: Seq<char>,
    later: Seq<StepView>,
    mount: ReplyView,
    said: ReplyView,
    replies: Seq<ReplyView>,
)
    requires
        mount !is Done,
    ensures
        trace(
            config,
            seq![mounting_tmpfs(dest, false)] + later,
            seq![mount] + (seq![said] + replies),
        ) == seq![
            handing_out(tmpfs_on(dest)),
            handing_out(failed_message(dest, mount)),
            ending(Finish::Return { code: (-1) as i32 }),
        ],
{
    trace_performs(
        config,
        tmpfs_on(dest),
        Then::TmpfsMounted { dest, restore_root: false },
        later,
        mount,
        seq![said] + replies,
    );
    let message = failed_message(dest, mount);
    let stop = seq![Step::Stop { finish: Finish::Return { code: (-1) as i32 } }] + later;
    assert(seq![
        ignoring(message),
        Step::Stop { finish: Finish::Return { code: (-1) as i32 } },
    ] + later =~= seq![ignoring(message)] + stop);
    trace_ignores(config, message, stop, said, replies);
    trace_stops(config, Finish::Return { code: (-1) as i32 }, later, replies);
}

/// `/sbin` on any other root: it is covered by a tmpfs, the root is mirrored
/// below it, its entries are brought back out of the mirror, and the mirror is
/// unmounted. Then the run goes on.
pub proof fn sbin_of_any_other_root_is_mirrored(
    config: Config,
    rest: Seq<StepView>,
    probe: ReplyView,
    magisk_tmp: Seq<char>,
    mirrored: Seq<Mirrored>,
    acks: spec_fn(RequestView) -> ReplyView,
    replies: Seq<ReplyView>,
)
    requires
        !ramfs_or_tmpfs(probe),
    ensures
        trace(
            config,
            mount_command(config) + rest,
            seq![probe] + (mounted_replies(acks) + (seq![
                acks(mirror_dirs(config)[0]),
                acks(mirror_dirs(config)[1]),
                acks(mirroring(config)),
            ] + (back_replies(mirror_of(config) + "/sbin"@, magisk_tmp, true, mirrored, acks) + (
            seq![acks(unmirroring(config))] + replies)))),
        ) == seq![probing()] + (mounted_turns() + (seq![
            handing_out(mirror_dirs(config)[0]),
            handing_out(mirror_dirs(config)[1]),
            handing_out(mirroring(config)),
        ] + (back_turns(mirror_of(config) + "/sbin"@, magisk_tmp, true, mirrored) + (seq![
            handing_out(unmirroring(config)),
        ] + trace(config, rest, replies))))),
{
    reveal_strlit("/mirror");
    reveal_strlit("/system_root");
    reveal_strlit("/mirror/system_root");
    assert("/mirror"@ + "/system_root"@ =~= "/mirror/system_root"@);
    let sysroot = "/sbin/"@ + config.internal_dir@ + "/mirror"@ + "/system_root"@;
    assert(sysroot =~= mirror_of(config));
    let mirror = mirror_of(config) + "/sbin"@;
    let first = mirror_dirs(config)[0];
    let second = mirror_dirs(config)[1];
    let bind = mirroring(config);
    let unbind = unmirroring(config);
    let r4 = seq![acks(unbind)] + replies;
    let r3 = back_replies(mirror, magisk_tmp, true, mirrored, acks) + r4;
    let r2 = seq![acks(first), acks(second), acks(bind)] + r3;
    let r1 = mounted_replies(acks) + r2;
    begins_with_the_probe(config, rest, probe, r1);
    let last = seq![ignoring(unbind)] + rest;
    let p4 = seq![recreating(mirror, true)] + last;
    let p3 = seq![ignoring(bind)] + p4;
    let p2 = seq![ignoring(second)] + p3;
    let p1 = seq![ignoring(first)] + p2;
    assert(mounting_sbin(config.internal_dir@, false) + rest =~= seq![
        mounting_tmpfs("/sbin"@, false),
        ignoring(labelling()),
    ] + p1);
    mounts_tmpfs_on_sbin(config, false, p1, acks, r2);
    assert(r2 =~= seq![acks(first)] + (seq![acks(second)] + (seq![acks(bind)] + r3)));
    trace_ignores(config, first, p2, acks(first), seq![acks(second)] + (seq![acks(bind)] + r3));
    trace_ignores(config, second, p3, acks(second), seq![acks(bind)] + r3);
    trace_ignores(config, bind, p4, acks(bind), r3);
    recreating_reaches_every_entry(config, mirror, magisk_tmp, true, mirrored, acks, last, r4);
    trace_ignores(config, unbind, rest, acks(unbind), replies);
    let back = trace(config, p4, r3);
    assert(seq![handing_out(first), handing_out(second), handing_out(bind)] + back =~= seq![
        handing_out(first),
    ] + (seq![handing_out(second)] + (seq![handing_out(bind)] + back)));
}

} // verus!
