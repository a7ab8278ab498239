//! Setting a tmpfs up, from the first request to the last.

use crate::action::{Config, MagiskAction, SetupSbin};
use crate::applet::installing_applets;
use crate::applet_laws::{applet_links, handing_out_all, installing_asks_for_every_link};
use crate::command_laws::{end, run};
use crate::exec::commanded;
use crate::mount::mounting_tmpfs;
use crate::mount_laws::{
    back_replies, back_turns, failed_message, memory_replies, memory_turns, mirror_dirs, mirror_of,
    mirroring, mount_command, mounted_message, mounted_replies, mounted_turns, probing,
    ramfs_or_tmpfs, root_with, sbin_of_a_root_in_memory_is_cloned,
    sbin_of_any_other_root_is_mirrored, tmpfs_mount_fails, tmpfs_on, unmirroring,
};
use crate::path::text_path;
use crate::protocol::{
    ignoring, Finish, Reply, ReplyView, Request, RequestView, Step, StepView, Then, Turn, TurnView,
};
use crate::recreate_laws::Mirrored;
use crate::session::{advance, reaction};
use crate::text::texts;
use crate::trace::{handing_out, trace, trace_ignores, trace_performs, trace_stops};
use crate::tree_laws::Tree;
use vstd::prelude::*;

verus! {

/// The binaries that are set up.
pub open spec fn binaries() -> Seq<Seq<char>> {
    seq!["magisk"@, "magisk32"@, "magiskpolicy"@, "stub.apk"@]
}

/// The file `name` in the directory `dir`.
pub open spec fn in_dir(dir: Seq<char>, name: Seq<char>) -> Seq<u8> {
    text_path(dir + "/"@ + name)
}

/// The copy of the binary `name`, under the same name.
pub open spec fn copying(bin_dir: Seq<char>, dest: Seq<char>, name: Seq<char>) -> RequestView {
    Request::CopyFile { from: in_dir(bin_dir, name), to: in_dir(dest, name) }
}

/// The permission bits of the copy.
pub open spec fn marking(dest: Seq<char>, name: Seq<char>) -> RequestView {
    Request::SetMode { path: in_dir(dest, name), mode: 0o755 }
}

/// Whether a reply says that something exists.
pub open spec fn says_yes(reply: ReplyView) -> bool {
    reply matches Reply::Exists { exists } && exists
}

/// What a host answers while a binary is set up, where it answers `probe` to the
/// question whether there is one.
pub open spec fn binary_replies(
    bin_dir: Seq<char>,
    dest: Seq<char>,
    name: Seq<char>,
    probe: ReplyView,
    acks: spec_fn(RequestView) -> ReplyView,
) -> Seq<ReplyView> {
    seq![probe] + (if says_yes(probe) {
        seq![acks(copying(bin_dir, dest, name)), acks(marking(dest, name))]
    } else {
        Seq::empty()
    })
}

/// A binary that exists is copied under its own name and made executable.
pub open spec fn binary_turns(
    bin_dir: Seq<char>,
    dest: Seq<char>,
    name: Seq<char>,
    probe: ReplyView,
) -> Seq<TurnView> {
    seq![handing_out(Request::Exists { path: in_dir(bin_dir, name) })] + (if says_yes(probe) {
        seq![handing_out(copying(bin_dir, dest, name)), handing_out(marking(dest, name))]
    } else {
        Seq::empty()
    })
}

/// What a host answers while the binaries from the one at `from` on are set up.
pub open spec fn binaries_replies(
    bin_dir: Seq<char>,
    dest: Seq<char>,
    from: int,
    probes: Seq<ReplyView>,
    acks: spec_fn(RequestView) -> ReplyView,
) -> Seq<ReplyView>
    decreases binaries().len() - from,
{
    if 0 <= from < binaries().len() {
        binary_replies(bin_dir, dest, binaries()[from], probes[from], acks) + binaries_replies(
            bin_dir,
            dest,
            from + 1,
            probes,
            acks,
        )
    } else {
        Seq::empty()
    }
}

/// The binaries from the one at `from` on are set up, one after the other.
pub open spec fn binaries_turns(
    bin_dir: Seq<char>,
    dest: Seq<char>,
    from: int,
    probes: Seq<ReplyView>,
) -> Seq<TurnView>
    decreases binaries().len() - from,
{
    if 0 <= from < binaries().len() {
        binary_turns(bin_dir, dest, binaries()[from], probes[from]) + binaries_turns(
            bin_dir,
            dest,
            from + 1,
            probes,
        )
    } else {
        Seq::empty()
    }
}

/// The names of the applets.
pub open spec fn applets(config: Config) -> Seq<Seq<char>> {
    Seq::new(config.applet_names@.len(), |i: int| config.applet_names@[i]@)
}

/// The internal directories, of which the first is made with those above it.
pub open spec fn internal_dirs(config: Config) -> Seq<RequestView> {
    seq![
        Request::CreateDirAll { path: text_path(config.internal_dir@) },
        Request::CreateDir { path: text_path(config.device_dir@) },
    ]
}

/// What a host answers from the first binary on.
pub open spec fn setup_replies(
    bin_dir: Seq<char>,
    dest: Seq<char>,
    probes: Seq<ReplyView>,
    entered: ReplyView,
    acks: spec_fn(RequestView) -> ReplyView,
) -> Seq<ReplyView> {
    binaries_replies(bin_dir, dest, 0, probes, acks) + seq![entered]
}

/// From the first binary on: all of them are set up, and the new directory is
/// entered. If that fails the tool returns -1; else the internal directories
/// are made, the applets are installed, and the tool returns 0.
pub open spec fn setup_turns(
    config: Config,
    bin_dir: Seq<char>,
    dest: Seq<char>,
    probes: Seq<ReplyView>,
    entered: ReplyView,
) -> Seq<TurnView> {
    binaries_turns(bin_dir, dest, 0, probes) + (seq![
        handing_out(Request::ChangeDir { path: text_path(dest) }),
    ] + (if entered is Done {
        seq![handing_out(internal_dirs(config)[0]), handing_out(internal_dirs(config)[1])] + (
        handing_out_all(applet_links(applets(config), dest)) + seq![end(0)])
    } else {
        seq![end((-1) as i32)]
    }))
}

/// Where a tmpfs goes that is set up, `/sbin` if it is not told.
pub open spec fn destination(command: SetupSbin) -> Seq<char> {
    match command.tmpfs_dest {
        Some(dest) => dest@,
        None => "/sbin"@,
    }
}

/// What comes after the mount.
spec fn after_mount(config: Config, command: SetupSbin) -> Seq<StepView> {
    commanded(config, MagiskAction::SetupSbin(command)).skip(1)
}

/// The step that sets the binary `name` up.
spec fn setting_binary(bin_dir: Seq<char>, dest: Seq<char>, name: Seq<char>) -> StepView {
    Step::Perform {
        request: Request::Exists { path: in_dir(bin_dir, name) },
        then: Then::CopyBinary {
            src: bin_dir + "/"@ + name,
            dest: dest + "/"@ + name,
        },
    }
}

proof fn sets_binary_up(
    config: Config,
    bin_dir: Seq<char>,
    dest: Seq<char>,
    name: Seq<char>,
    probe: ReplyView,
    acks: spec_fn(RequestView) -> ReplyView,
    rest: Seq<StepView>,
    replies: Seq<ReplyView>,
)
    ensures
        trace(
            config,
            seq![setting_binary(bin_dir, dest, name)] + rest,
            binary_replies(bin_dir, dest, name, probe, acks) + replies,
        ) == binary_turns(bin_dir, dest, name, probe) + trace(config, rest, replies),
{
    let ask = Request::Exists { path: in_dir(bin_dir, name) };
    let copy = copying(bin_dir, dest, name);
    let mark = marking(dest, name);
    let all = binary_replies(bin_dir, dest, name, probe, acks) + replies;
    let told = all.skip(1);
    assert(all =~= seq![probe] + told);
    trace_performs(
        config,
        ask,
        Then::CopyBinary { src: bin_dir + "/"@ + name, dest: dest + "/"@ + name },
        rest,
        probe,
        told,
    );
    if says_yes(probe) {
        let later = seq![ignoring(mark)] + rest;
        assert(told =~= seq![acks(copy)] + (seq![acks(mark)] + replies));
        assert(seq![ignoring(copy), ignoring(mark)] + rest =~= seq![ignoring(copy)] + later);
        trace_ignores(config, copy, later, acks(copy), seq![acks(mark)] + replies);
        trace_ignores(config, mark, rest, acks(mark), replies);
    } else {
        assert(told =~= replies);
        assert(Seq::<StepView>::empty() + rest =~= rest);
    }
    assert(trace(config, seq![setting_binary(bin_dir, dest, name)] + rest, all) =~= binary_turns(
        bin_dir,
        dest,
        name,
        probe,
    ) + trace(config, rest, replies));
}

proof fn sets_binaries_up(
    config: Config,
    bin_dir: Seq<char>,
    dest: Seq<char>,
    from: int,
    probes: Seq<ReplyView>,
    acks: spec_fn(RequestView) -> ReplyView,
    rest: Seq<StepView>,
    replies: Seq<ReplyView>,
)
    requires
        0 <= from <= binaries().len(),
    ensures
        trace(
            config,
            Seq::new(
                (binaries().len() - from) as nat,
                |i: int| setting_binary(bin_dir, dest, binaries()[from + i]),
            ) + rest,
            binaries_replies(bin_dir, dest, from, probes, acks) + replies,
        ) == binaries_turns(bin_dir, dest, from, probes) + trace(config, rest, replies),
    decreases binaries().len() - from,
{
    let steps = Seq::new(
        (binaries().len() - from) as nat,
        |i: int| setting_binary(bin_dir, dest, binaries()[from + i]),
    );
    let turns = binaries_turns(bin_dir, dest, from, probes);
    let all = binaries_replies(bin_dir, dest, from, probes, acks);
    if from < binaries().len() {
        let name = binaries()[from];
        let others = Seq::new(
            (binaries().len() - (from + 1)) as nat,
            |i: int| setting_binary(bin_dir, dest, binaries()[from + 1 + i]),
        );
        let own = binary_replies(bin_dir, dest, name, probes[from], acks);
        let later = binaries_replies(bin_dir, dest, from + 1, probes, acks);
        assert(steps + rest =~= seq![setting_binary(bin_dir, dest, name)] + (others + rest));
        assert(all + replies =~= own + (later + replies));
        sets_binary_up(
            config,
            bin_dir,
            dest,
            name,
            probes[from],
            acks,
            others + rest,
            later + replies,
        );
        sets_binaries_up(config, bin_dir, dest, from + 1, probes, acks, rest, replies);
        assert(turns + trace(config, rest, replies) =~= binary_turns(
            bin_dir,
            dest,
            name,
            probes[from],
        ) + (binaries_turns(bin_dir, dest, from + 1, probes) + trace(config, rest, replies)));
    } else {
        assert(steps + rest =~= rest);
        assert(all + replies =~= replies);
        assert(turns + trace(config, rest, replies) =~= trace(config, rest, replies));
    }
}

/// What follows the mount is the setup.
proof fn sets_up_after_the_mount(
    config: Config,
    command: SetupSbin,
    probes: Seq<ReplyView>,
    entered: ReplyView,
    acks: spec_fn(RequestView) -> ReplyView,
    replies: Seq<ReplyView>,
)
    requires
        replies.len() >= config.applet_names@.len() + 3,
    ensures
        trace(
            config,
            after_mount(config, command),
            setup_replies(command.bin_dir@, destination(command), probes, entered, acks) + replies,
        ) == setup_turns(config, command.bin_dir@, destination(command), probes, entered),
{
    let bin_dir = command.bin_dir@;
    let dest = destination(command);
    let enter = Request::ChangeDir { path: text_path(dest) };
    let first = internal_dirs(config)[0];
    let second = internal_dirs(config)[1];
    let names = applets(config);
    let n = names.len() as int;
    assert(texts(config.applet_names@) =~= names);
    let install = commanded(config, MagiskAction::SetupSbin(command)).skip(8);
    let dirs = seq![ignoring(first)] + (seq![ignoring(second)] + install);
    let enter_step: StepView = Step::Perform { request: enter, then: Then::DirChanged };
    let steps = Seq::new(
        (binaries().len() - 0) as nat,
        |i: int| setting_binary(bin_dir, dest, binaries()[0 + i]),
    );
    assert(after_mount(config, command) =~= steps + (seq![enter_step] + dirs));
    let later = seq![entered] + replies;
    assert(setup_replies(bin_dir, dest, probes, entered, acks) + replies =~= binaries_replies(
        bin_dir,
        dest,
        0,
        probes,
        acks,
    ) + later);
    sets_binaries_up(config, bin_dir, dest, 0, probes, acks, seq![enter_step] + dirs, later);
    trace_performs(config, enter, Then::DirChanged, dirs, entered, replies);
    if entered is Done {
        let told = replies.skip(2);
        assert(Seq::<StepView>::empty() + dirs =~= dirs);
        assert(replies =~= seq![replies[0]] + (seq![replies[1]] + told));
        trace_ignores(
            config,
            first,
            seq![ignoring(second)] + install,
            replies[0],
            seq![replies[1]] + told,
        );
        trace_ignores(config, second, install, replies[1], told);
        let rest = Seq::<StepView>::empty();
        assert(told =~= told.take(n + 1) + told.skip(n + 1));
        assert(install =~= installing_applets(names, dest) + rest);
        installing_asks_for_every_link(
            config,
            names,
            dest,
            rest,
            told.take(n + 1),
            told.skip(n + 1),
        );
        assert(trace(config, rest, told.skip(n + 1)) =~= seq![end(0)]);
        let links = handing_out_all(applet_links(names, dest)) + seq![end(0)];
        assert(seq![handing_out(first), handing_out(second)] + links =~= seq![handing_out(first)]
            + (seq![handing_out(second)] + links));
    } else {
        trace_stops(config, Finish::Return { code: (-1) as i32 }, dirs, replies);
    }
}

/// `--setup-sbin` on any directory but `/sbin`: a tmpfs is mounted there and set
/// up. If it cannot be mounted, that is told with the reason, and the tool
/// returns -1.
pub proof fn tmpfs_is_mounted_and_set_up(
    config: Config,
    command: SetupSbin,
    mount: ReplyView,
    said: ReplyView,
    probes: Seq<ReplyView>,
    entered: ReplyView,
    acks: spec_fn(RequestView) -> ReplyView,
    replies: Seq<ReplyView>,
)
    requires
        destination(command) != "/sbin"@,
        replies.len() >= config.applet_names@.len() + 3,
    ensures
        run(
            config,
            MagiskAction::SetupSbin(command),
            seq![mount, said] + (setup_replies(
                command.bin_dir@,
                destination(command),
                probes,
                entered,
                acks,
            ) + replies),
        ) == seq![handing_out(tmpfs_on(destination(command)))] + (if mount is Done {
            seq![handing_out(mounted_message(destination(command)))] + setup_turns(
                config,
                command.bin_dir@,
                destination(command),
                probes,
                entered,
            )
        } else {
            seq![handing_out(failed_message(destination(command), mount)), end((-1) as i32)]
        }),
{
    let dest = destination(command);
    let later = after_mount(config, command);
    let told = setup_replies(command.bin_dir@, dest, probes, entered, acks) + replies;
    let all = seq![mount, said] + told;
    assert(all =~= seq![mount] + (seq![said] + told));
    assert(commanded(config, MagiskAction::SetupSbin(command)) =~= seq![
        mounting_tmpfs(dest, false),
    ] + later);
    if mount is Done {
        trace_performs(
            config,
            tmpfs_on(dest),
            Then::TmpfsMounted { dest, restore_root: false },
            later,
            mount,
            seq![said] + told,
        );
        trace_ignores(config, mounted_message(dest), later, said, told);
        sets_up_after_the_mount(config, command, probes, entered, acks, replies);
    } else {
        tmpfs_mount_fails(config, dest, later, mount, said, told);
    }
}

/// `--setup-sbin` on `/sbin` is `--mount-sbin` first.
pub proof fn sbin_is_mounted_before_it_is_set_up(config: Config, command: SetupSbin)
    requires
        destination(command) == "/sbin"@,
    ensures
        exists|rest: Seq<StepView>|
            commanded(config, MagiskAction::SetupSbin(command)) == #[trigger] (mount_command(config)
                + rest),
{
    assert(commanded(config, MagiskAction::SetupSbin(command)) =~= mount_command(config)
        + after_mount(config, command));
}

/// `--setup-sbin` on `/sbin` of a root in memory mounts `/sbin` as `--mount-sbin`
/// does, and sets it up.
pub proof fn sbin_of_a_root_in_memory_is_set_up(
    config: Config,
    command: SetupSbin,
    probe: ReplyView,
    entries: Seq<(Seq<u8>, Tree)>,
    magisk_tmp: Seq<char>,
    mirrored: Seq<Mirrored>,
    probes: Seq<ReplyView>,
    entered: ReplyView,
    acks: spec_fn(RequestView) -> ReplyView,
    replies: Seq<ReplyView>,
)
    requires
        destination(command) == "/sbin"@,
        ramfs_or_tmpfs(probe),
        replies.len() >= config.applet_names@.len() + 3,
    ensures
        run(
            config,
            MagiskAction::SetupSbin(command),
            memory_replies(probe, entries, acks) + (mounted_replies(acks) + (back_replies(
                "/root"@,
                magisk_tmp,
                false,
                mirrored,
                acks,
            ) + (seq![acks(root_with(0x21))] + (setup_replies(
                command.bin_dir@,
                "/sbin"@,
                probes,
                entered,
                acks,
            ) + replies)))),
        ) == memory_turns(entries) + (mounted_turns() + (back_turns(
            "/root"@,
            magisk_tmp,
            false,
            mirrored,
        ) + (seq![handing_out(root_with(0x21))] + setup_turns(
            config,
            command.bin_dir@,
            "/sbin"@,
            probes,
            entered,
        )))),
{
    let rest = after_mount(config, command);
    assert(commanded(config, MagiskAction::SetupSbin(command)) =~= mount_command(config) + rest);
    sbin_of_a_root_in_memory_is_cloned(
        config,
        rest,
        probe,
        entries,
        magisk_tmp,
        mirrored,
        acks,
        setup_replies(command.bin_dir@, "/sbin"@, probes, entered, acks) + replies,
    );
    sets_up_after_the_mount(config, command, probes, entered, acks, replies);
}

/// `--setup-sbin` on `/sbin` of any other root mounts `/sbin` as `--mount-sbin`
/// does, and sets it up.
pub proof fn sbin_of_any_other_root_is_set_up(
    config: Config,
    command: SetupSbin,
    probe: ReplyView,
    magisk_tmp: Seq<char>,
    mirrored: Seq<Mirrored>,
    probes: Seq<ReplyView>,
    entered: ReplyView,
    acks: spec_fn(RequestView) -> ReplyView,
    replies: Seq<ReplyView>,
)
    requires
        destination(command) == "/sbin"@,
        !ramfs_or_tmpfs(probe),
        replies.len() >= config.applet_names@.len() + 3,
    ensures
        run(
            config,
            MagiskAction::SetupSbin(command),
            seq![probe] + (mounted_replies(acks) + (seq![
                acks(mirror_dirs(config)[0]),
                acks(mirror_dirs(config)[1]),
                acks(mirroring(config)),
            ] + (back_replies(mirror_of(config) + "/sbin"@, magisk_tmp, true, mirrored, acks) + (
            seq![acks(unmirroring(config))] + (setup_replies(
                command.bin_dir@,
                "/sbin"@,
                probes,
                entered,
                acks,
            ) + replies))))),
        ) == seq![probing()] + (mounted_turns() + (seq![
            handing_out(mirror_dirs(config)[0]),
            handing_out(mirror_dirs(config)[1]),
            handing_out(mirroring(config)),
        ] + (back_turns(mirror_of(config) + "/sbin"@, magisk_tmp, true, mirrored) + (seq![
            handing_out(unmirroring(config)),
        ] + setup_turns(config, command.bin_dir@, "/sbin"@, probes, entered))))),
{
    let rest = after_mount(config, command);
    assert(commanded(config, MagiskAction::SetupSbin(command)) =~= mount_command(config) + rest);
    sbin_of_any_other_root_is_mirrored(
        config,
        rest,
        probe,
        magisk_tmp,
        mirrored,
        acks,
        setup_replies(command.bin_dir@, "/sbin"@, probes, entered, acks) + replies,
    );
    sets_up_after_the_mount(config, command, probes, entered, acks, replies);
}

/// Whether a turn copies a file.
pub open spec fn copies(turn: TurnView) -> bool {
    turn matches Turn::Perform { request } && request is CopyFile
}

/// Whether the turn at `index` copies one of the binaries under its own name,
/// after the host said that it exists, and is followed by its permission bits.
pub open spec fn copies_binary(
    turns: Seq<TurnView>,
    replies: Seq<ReplyView>,
    bin_dir: Seq<char>,
    dest: Seq<char>,
    index: int,
) -> bool {
    exists|k: int|
        0 <= k < binaries().len() && {
            let name = #[trigger] binaries()[k];
            &&& turns[index] == handing_out(copying(bin_dir, dest, name))
            &&& 0 < index <= replies.len()
            &&& turns[index - 1] == handing_out(Request::Exists { path: in_dir(bin_dir, name) })
            &&& says_yes(replies[index - 1])
            &&& index + 1 < turns.len() ==> turns[index + 1] == handing_out(marking(dest, name))
        }
}

/// The step copies nothing, or sets one of the binaries up.
spec fn tidy(bin_dir: Seq<char>, dest: Seq<char>, step: StepView) -> bool {
    step matches Step::Perform { request, then } ==> {
        &&& request !is CopyFile
        &&& then !is Parsed
        &&& then is CopyBinary ==> exists|k: int|
            0 <= k < binaries().len() && step == setting_binary(
                bin_dir,
                dest,
                #[trigger] binaries()[k],
            )
    }
}

spec fn all_tidy(bin_dir: Seq<char>, dest: Seq<char>, pending: Seq<StepView>) -> bool {
    forall|i: int| 0 <= i < pending.len() ==> tidy(bin_dir, dest, #[trigger] pending[i])
}

proof fn tidy_runs_copy_binaries(
    config: Config,
    bin_dir: Seq<char>,
    dest: Seq<char>,
    pending: Seq<StepView>,
    replies: Seq<ReplyView>,
    index: int,
)
    requires
        all_tidy(bin_dir, dest, pending),
        0 <= index < trace(config, pending, replies).len(),
        copies(trace(config, pending, replies)[index]),
    ensures
        copies_binary(trace(config, pending, replies), replies, bin_dir, dest, index),
    decreases replies.len(),
{
    let (progress, turn) = advance(pending);
    let turns = trace(config, pending, replies);
    if pending.len() > 0 {
        assert(tidy(bin_dir, dest, pending[0]));
    }
    assert(index > 0);
    let first = reaction(config, progress.waiting, replies[0]);
    let next = first + progress.pending;
    let later = trace(config, next, replies.skip(1));
    assert(turns =~= seq![turn] + later);
    assert(all_tidy(bin_dir, dest, progress.pending));
    if progress.waiting is CopyBinary && says_yes(replies[0]) {
        let k = choose|k: int|
            0 <= k < binaries().len() && pending[0] == setting_binary(
                bin_dir,
                dest,
                #[trigger] binaries()[k],
            );
        let name = binaries()[k];
        let copy = copying(bin_dir, dest, name);
        let mark = marking(dest, name);
        let r1 = replies.skip(1);
        let p1 = seq![ignoring(mark)] + progress.pending;
        assert(next =~= seq![ignoring(copy)] + p1);
        if r1.len() == 0 {
            assert(later =~= seq![handing_out(copy)]);
            assert(turns[index] == handing_out(copying(bin_dir, dest, binaries()[k])));
        } else {
            let r2 = r1.skip(1);
            assert(r1 =~= seq![r1[0]] + r2);
            trace_ignores(config, copy, p1, r1[0], r2);
            let third = trace(config, p1, r2);
            assert(turns =~= seq![turn, handing_out(copy)] + third);
            assert(third[0] == handing_out(mark));
            if index == 1 {
                assert(turns[index] == handing_out(copying(bin_dir, dest, binaries()[k])));
                assert(turns[index + 1] == third[0]);
            } else {
                assert(index > 2);
                let r3 = r2.skip(1);
                assert(r2.len() > 0);
                assert(r2 =~= seq![r2[0]] + r3);
                trace_ignores(config, mark, progress.pending, r2[0], r3);
                let fourth = trace(config, progress.pending, r3);
                assert(turns =~= seq![turn, handing_out(copy), handing_out(mark)] + fourth);
                assert(fourth[index - 3] == turns[index]);
                tidy_runs_copy_binaries(
                    config,
                    bin_dir,
                    dest,
                    progress.pending,
                    r3,
                    index - 3,
                );
                shifted_copies(turns, replies, fourth, r3, bin_dir, dest, index, 3);
            }
        }
    } else {
        assert(all_tidy(bin_dir, dest, first));
        assert(all_tidy(bin_dir, dest, next));
        assert(later[index - 1] == turns[index]);
        tidy_runs_copy_binaries(config, bin_dir, dest, next, replies.skip(1), index - 1);
        shifted_copies(turns, replies, later, replies.skip(1), bin_dir, dest, index, 1);
    }
}

proof fn shifted_copies(
    turns: Seq<TurnView>,
    replies: Seq<ReplyView>,
    later: Seq<TurnView>,
    told: Seq<ReplyView>,
    bin_dir: Seq<char>,
    dest: Seq<char>,
    index: int,
    by: int,
)
    requires
        0 <= by <= index < turns.len(),
        later =~= turns.skip(by),
        told =~= replies.skip(by),
        by <= replies.len(),
        copies_binary(later, told, bin_dir, dest, index - by),
    ensures
        copies_binary(turns, replies, bin_dir, dest, index),
{
    let k = choose|k: int|
        0 <= k < binaries().len() && {
            let name = #[trigger] binaries()[k];
            &&& later[index - by] == handing_out(copying(bin_dir, dest, name))
            &&& 0 < index - by <= told.len()
            &&& later[index - by - 1] == handing_out(
                Request::Exists { path: in_dir(bin_dir, name) },
            )
            &&& says_yes(told[index - by - 1])
            &&& index - by + 1 < later.len() ==> later[index - by + 1] == handing_out(
                marking(dest, name),
            )
        };
    let name = binaries()[k];
    assert(turns[index] == later[index - by]);
    assert(turns[index - 1] == later[index - by - 1]);
    assert(replies[index - 1] == told[index - by - 1]);
    if index + 1 < turns.len() {
        assert(turns[index + 1] == later[index - by + 1]);
    }
}

/// Whatever the host answers, `--setup-sbin` copies nothing but binaries that
/// exist, each under its own name, and makes each executable right after.
pub proof fn binaries_are_copied_under_their_names(
    config: Config,
    command: SetupSbin,
    replies: Seq<ReplyView>,
    index: int,
)
    requires
        0 <= index < run(config, MagiskAction::SetupSbin(command), replies).len(),
        copies(run(config, MagiskAction::SetupSbin(command), replies)[index]),
    ensures
        copies_binary(
            run(config, MagiskAction::SetupSbin(command), replies),
            replies,
            command.bin_dir@,
            destination(command),
            index,
        ),
{
    let bin_dir = command.bin_dir@;
    let dest = destination(command);
    let pending = commanded(config, MagiskAction::SetupSbin(command));
    assert forall|i: int| 0 <= i < pending.len() implies tidy(bin_dir, dest, #[trigger] pending[i])
        by {
        if 1 <= i <= 4 {
            assert(pending[i] == setting_binary(bin_dir, dest, binaries()[i - 1]));
        }
    }
    tidy_runs_copy_binaries(config, bin_dir, dest, pending, replies, index);
}

} // verus!
