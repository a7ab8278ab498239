//! What mounting `/sbin` does to the root file system, and how it ends.

use crate::action::{Config, MagiskAction};
use crate::exec::commanded;
use crate::mount::{
    after_tmpfs_mount, detaching, mounting_sbin, mounting_tmpfs, probing_root, remounting_root,
    system_root, REMOUNT, REMOUNT_READ_ONLY,
};
use crate::mount_laws::{mirror_of, root_with, unmirroring};
use crate::path::text_path;
use crate::protocol::{
    ignoring, returning, Finish, Reply, ReplyView, Request, RequestView, Step, StepView, Then,
    ThenView, Turn, TurnView,
};
use crate::session::{advance, reaction};
use crate::trace::{ending, handing_out, trace, trace_performs};
use vstd::prelude::*;

verus! {

/// Whether a request mounts something on the root directory, or changes how it
/// is mounted.
pub open spec fn mounts_root(request: RequestView) -> bool {
    request matches Request::Mount { target, .. } && target == "/"@
}

/// The flags with which the root was mounted last, if it was.
pub open spec fn last_root_flags(turns: Seq<TurnView>) -> Option<u64>
    decreases turns.len(),
{
    if turns.len() == 0 {
        None
    } else {
        match turns.last() {
            Turn::Perform { request: Request::Mount { target, flags, .. } } if target == "/"@ => {
                Some(flags)
            },
            _ => last_root_flags(turns.drop_last()),
        }
    }
}

/// Whether a command mounts a tmpfs on `/sbin`.
pub open spec fn mounts_sbin(action: MagiskAction) -> bool {
    match action {
        MagiskAction::MountSbin(_) => true,
        MagiskAction::SetupSbin(command) => match command.tmpfs_dest {
            Some(dest) => dest@ == "/sbin"@,
            None => true,
        },
        _ => false,
    }
}

/// The flags of the last mount are those of the later turns, as far as they
/// mount the root.
proof fn last_root_flags_of_sum(first: Seq<TurnView>, later: Seq<TurnView>)
    ensures
        last_root_flags(first + later) == (if last_root_flags(later) is Some {
            last_root_flags(later)
        } else {
            last_root_flags(first)
        }),
    decreases later.len(),
{
    if later.len() == 0 {
        assert(first + later =~= first);
    } else {
        assert((first + later).drop_last() =~= first + later.drop_last());
        last_root_flags_of_sum(first, later.drop_last());
    }
}

proof fn last_root_flags_of_one(turn: TurnView)
    ensures
        last_root_flags(seq![turn]) == (match turn {
            Turn::Perform { request: Request::Mount { target, flags, .. } } if target == "/"@ => {
                Some(flags)
            },
            _ => None::<u64>,
        }),
{
    reveal_with_fuel(last_root_flags, 2);
    assert(seq![turn].drop_last() =~= Seq::empty());
}

/// Whether a request mounts or unmounts something.
pub open spec fn mounts(request: RequestView) -> bool {
    request is Mount || request is Unmount
}

/// The last request of these turns that mounts or unmounts something.
pub open spec fn last_mount(turns: Seq<TurnView>) -> Option<RequestView>
    decreases turns.len(),
{
    if turns.len() == 0 {
        None
    } else {
        match turns.last() {
            Turn::Perform { request } if mounts(request) => Some(request),
            _ => last_mount(turns.drop_last()),
        }
    }
}

proof fn last_mount_of_sum(first: Seq<TurnView>, later: Seq<TurnView>)
    ensures
        last_mount(first + later) == (if last_mount(later) is Some {
            last_mount(later)
        } else {
            last_mount(first)
        }),
    decreases later.len(),
{
    if later.len() == 0 {
        assert(first + later =~= first);
    } else {
        assert((first + later).drop_last() =~= first + later.drop_last());
        last_mount_of_sum(first, later.drop_last());
    }
}

proof fn last_mount_of_one(turn: TurnView)
    ensures
        last_mount(seq![turn]) == (match turn {
            Turn::Perform { request } if mounts(request) => Some(request),
            _ => None::<RequestView>,
        }),
{
    reveal_with_fuel(last_mount, 2);
    assert(seq![turn].drop_last() =~= Seq::empty());
}

/// Where the last mount of all is one of the root, it is the last of those too.
proof fn last_mount_of_root(turns: Seq<TurnView>)
    requires
        last_mount(turns) matches Some(request) && mounts_root(request),
    ensures
        last_root_flags(turns) == Some(last_mount(turns)->0->Mount_flags),
    decreases turns.len(),
{
    if last_mount(turns) == last_mount(turns.drop_last()) {
        match turns.last() {
            Turn::Perform { request } if mounts(request) => {},
            _ => {
                last_mount_of_root(turns.drop_last());
            },
        }
    }
}

/// How many of these turns hand out `request`.
pub open spec fn times_handed_out(turns: Seq<TurnView>, request: RequestView) -> nat
    decreases turns.len(),
{
    if turns.len() == 0 {
        0
    } else {
        times_handed_out(turns.drop_last(), request) + (if turns.last() == handing_out(request) {
            1nat
        } else {
            0nat
        })
    }
}

proof fn times_of_sum(first: Seq<TurnView>, later: Seq<TurnView>, request: RequestView)
    ensures
        times_handed_out(first + later, request) == times_handed_out(first, request)
            + times_handed_out(later, request),
    decreases later.len(),
{
    if later.len() == 0 {
        assert(first + later =~= first);
    } else {
        assert((first + later).drop_last() =~= first + later.drop_last());
        times_of_sum(first, later.drop_last(), request);
    }
}

proof fn times_of_one(turn: TurnView, request: RequestView)
    ensures
        times_handed_out(seq![turn], request) == (if turn == handing_out(request) {
            1nat
        } else {
            0nat
        }),
{
    reveal_with_fuel(times_handed_out, 2);
    assert(seq![turn].drop_last() =~= Seq::empty());
}

/// Turns that mount nothing hand out no such request.
proof fn times_without_mounts(turns: Seq<TurnView>, request: RequestView)
    requires
        last_mount(turns) is None,
        mounts(request),
    ensures
        times_handed_out(turns, request) == 0,
    decreases turns.len(),
{
    if turns.len() > 0 {
        times_without_mounts(turns.drop_last(), request);
    }
}

/// Neither the step nor what follows from it mounts or unmounts anything.
spec fn quiet(step: StepView) -> bool {
    step matches Step::Perform { request, then } ==> !mounts(request) && (then is Ignore
        || then is CopyBinary || then is DirChanged)
}

spec fn all_quiet(pending: Seq<StepView>) -> bool {
    forall|i: int| 0 <= i < pending.len() ==> quiet(#[trigger] pending[i])
}

proof fn quiet_runs_mount_nothing(config: Config, pending: Seq<StepView>, replies: Seq<ReplyView>)
    requires
        all_quiet(pending),
    ensures
        last_mount(trace(config, pending, replies)) is None,
    decreases replies.len(),
{
    let (progress, turn) = advance(pending);
    last_mount_of_one(turn);
    if pending.len() > 0 {
        assert(quiet(pending[0]));
    }
    if !(turn is Finished || replies.len() == 0) {
        let next = reaction(config, progress.waiting, replies[0]) + progress.pending;
        assert(all_quiet(reaction(config, progress.waiting, replies[0])));
        quiet_runs_mount_nothing(config, next, replies.skip(1));
        last_mount_of_sum(seq![turn], trace(config, next, replies.skip(1)));
    }
}

/// Whatever the reply, what was to come comes, or the root becomes read-only.
spec fn patient_then(then: ThenView) -> bool {
    match then {
        Then::Ignore => true,
        Then::CloneDir { .. } => true,
        Then::CloneEntry { .. } => true,
        Then::CloneLink { .. } => true,
        Then::RecreateSbin { .. } => true,
        Then::RecreateDir { .. } => true,
        Then::RecreateEntry { .. } => true,
        Then::RecreateFile { .. } => true,
        Then::RecreateLink { .. } => true,
        Then::TmpfsMounted { restore_root, .. } => restore_root,
        _ => false,
    }
}

/// Whatever the reply, what was to come comes, or `last` does and the run ends;
/// `last` is not handed out before.
spec fn faithful(step: StepView, last: RequestView) -> bool {
    step matches Step::Perform { request, then } && {
        &&& request != last
        &&& patient_then(then)
        &&& then is TmpfsMounted ==> last == remounting_root(REMOUNT_READ_ONLY)
    }
}

/// Nothing is mounted or unmounted from the step at `from` on.
spec fn settled(pending: Seq<StepView>, from: int) -> bool {
    ||| from < pending.len() && pending[from] is Stop
    ||| all_quiet(pending.skip(from))
}

/// The request `last` is to come, at `due`, and is the last that mounts or
/// unmounts something.
spec fn owing(pending: Seq<StepView>, due: int, last: RequestView) -> bool {
    &&& last == remounting_root(REMOUNT_READ_ONLY) || last is Unmount
    &&& 0 <= due < pending.len()
    &&& pending[due] == ignoring(last)
    &&& forall|i: int| 0 <= i < due ==> faithful(#[trigger] pending[i], last)
    &&& settled(pending, due + 1)
}

proof fn debts_are_paid(
    config: Config,
    pending: Seq<StepView>,
    due: int,
    last: RequestView,
    replies: Seq<ReplyView>,
)
    requires
        owing(pending, due, last),
        trace(config, pending, replies).last() is Finished,
    ensures
        last_mount(trace(config, pending, replies)) == Some(last),
        times_handed_out(trace(config, pending, replies), last) == 1,
    decreases replies.len(),
{
    let (progress, turn) = advance(pending);
    let then = progress.waiting;
    assert(due > 0 ==> faithful(pending[0], last));
    if replies.len() == 0 {
        assert(trace(config, pending, replies) =~= seq![turn]);
        assert(false);
    }
    let first = reaction(config, then, replies[0]);
    let next = first + progress.pending;
    let later = trace(config, next, replies.skip(1));
    assert(trace(config, pending, replies) =~= seq![turn] + later);
    assert(later.len() > 0);
    assert(later.last() == trace(config, pending, replies).last());
    last_mount_of_sum(seq![turn], later);
    last_mount_of_one(turn);
    times_of_sum(seq![turn], later, last);
    times_of_one(turn, last);
    if due == 0 {
        assert(next =~= pending.skip(1));
        if next.len() > 0 && next[0] is Stop {
            assert(later =~= seq![advance(next).1]);
            last_mount_of_one(advance(next).1);
        } else {
            quiet_runs_mount_nothing(config, next, replies.skip(1));
        }
        times_without_mounts(later, last);
    } else if then is TmpfsMounted && replies[0] !is Done {
        assert(next[1] == first[1]);
        assert(next[2] == first[2]);
        assert(owing(next, 1, last));
        debts_are_paid(config, next, 1, last, replies.skip(1));
    } else {
        let shifted = first.len() + due - 1;
        assert(next[shifted] == pending[due]);
        assert forall|i: int| 0 <= i < shifted implies faithful(#[trigger] next[i], last) by {
            if i < first.len() {
                assert(next[i] == first[i]);
            } else {
                assert(next[i] == pending[i - first.len() + 1]);
            }
        }
        assert(next.skip(shifted + 1) =~= pending.skip(due + 1));
        debts_are_paid(config, next, shifted, last, replies.skip(1));
    }
}

/// What a command does after it has mounted `/sbin`.
spec fn after_sbin(config: Config, action: MagiskAction) -> Seq<StepView> {
    commanded(config, action).skip(1)
}

proof fn sbin_commands_begin_with_the_probe(config: Config, action: MagiskAction)
    requires
        mounts_sbin(action),
    ensures
        commanded(config, action) == seq![probing_root()] + after_sbin(config, action),
        all_quiet(after_sbin(config, action)),
{
    let rest = after_sbin(config, action);
    assert(commanded(config, action) =~= seq![probing_root()] + rest);
    assert forall|i: int| 0 <= i < rest.len() implies quiet(#[trigger] rest[i]) by {
        assert(rest[i] == commanded(config, action)[i + 1]);
    }
}

/// A root file system in memory that was made writable to mount `/sbin` is
/// read-only again when the run is over, whatever failed on the way: it is made
/// so once, and nothing is mounted or unmounted after that.
pub proof fn root_is_read_only_again(
    config: Config,
    action: MagiskAction,
    replies: Seq<ReplyView>,
)
    requires
        mounts_sbin(action),
        replies.len() >= 2,
        replies[0] matches Reply::FsType { fs_type } && (fs_type == 0x858458f6 || fs_type
            == 0x01021994),
        replies[1] is Done,
        trace(config, commanded(config, action), replies).last() is Finished,
    ensures
        last_root_flags(trace(config, commanded(config, action), replies)) == Some(
            0x21u64,
        ),
        last_mount(trace(config, commanded(config, action), replies)) == Some(
            root_with(0x21),
        ),
        times_handed_out(
            trace(config, commanded(config, action), replies),
            root_with(0x21),
        ) == 1,
{
    let rest = after_sbin(config, action);
    let mounting = mounting_sbin(config.internal_dir@, true);
    let later = replies.skip(2);
    let probe = Request::FilesystemType { path: text_path("/"@) };
    let last = remounting_root(REMOUNT_READ_ONLY);
    sbin_commands_begin_with_the_probe(config, action);
    assert(replies =~= seq![replies[0]] + (seq![replies[1]] + later));
    trace_performs(config, probe, Then::RootProbed, rest, replies[0], seq![replies[1]] + later);
    let pending = mounting.skip(1) + rest;
    assert(mounting + rest =~= seq![
        Step::Perform { request: remounting_root(REMOUNT), then: Then::RootRemounted },
    ] + pending);
    trace_performs(
        config,
        remounting_root(REMOUNT),
        Then::RootRemounted,
        pending,
        replies[1],
        later,
    );
    assert(Seq::<StepView>::empty() + pending =~= pending);
    assert(pending.skip(8) =~= rest);
    assert(owing(pending, 7, last));
    let first = handing_out(probe);
    let second = handing_out(remounting_root(REMOUNT));
    let begun = seq![first] + seq![second];
    let remainder = trace(config, pending, later);
    let all = trace(config, commanded(config, action), replies);
    assert(all =~= begun + remainder);
    assert(remainder.len() > 0);
    assert(remainder.last() == all.last());
    debts_are_paid(config, pending, 7, last, later);
    last_mount_of_sum(begun, remainder);
    last_mount_of_root(all);
    times_of_sum(begun, remainder, last);
    times_of_sum(seq![first], seq![second], last);
    times_of_one(first, last);
    times_of_one(second, last);
}

/// Once `/sbin` is a tmpfs, the mirror is to be detached.
proof fn mirror_is_owed(config: Config, told: Seq<StepView>, rest: Seq<StepView>)
    requires
        told == after_tmpfs_mount("/sbin"@, false, Reply::Done),
        all_quiet(rest),
    ensures
        owing(
            told + mounting_sbin(config.internal_dir@, false).skip(1) + rest,
            6,
            detaching(system_root(config.internal_dir@)),
        ),
{
    let pending = told + mounting_sbin(config.internal_dir@, false).skip(1) + rest;
    assert(pending.skip(7) =~= rest);
}

/// The mirror of a root file system that is not in memory is gone when the run
/// is over: once `/sbin` is a tmpfs, whatever fails later, the mirror is detached
/// once, and nothing is mounted or unmounted after that.
pub proof fn mirror_is_detached(config: Config, action: MagiskAction, replies: Seq<ReplyView>)
    requires
        mounts_sbin(action),
        replies.len() >= 2,
        !(replies[0] matches Reply::FsType { fs_type } && (fs_type == 0x858458f6 || fs_type
            == 0x01021994)),
        replies[1] is Done,
        trace(config, commanded(config, action), replies).last() is Finished,
    ensures
        last_mount(trace(config, commanded(config, action), replies)) == Some(
            unmirroring(config),
        ),
        times_handed_out(
            trace(config, commanded(config, action), replies),
            unmirroring(config),
        ) == 1,
{
    let rest = after_sbin(config, action);
    let mounting = mounting_sbin(config.internal_dir@, false);
    let later = replies.skip(2);
    let probe = Request::FilesystemType { path: text_path("/"@) };
    sbin_commands_begin_with_the_probe(config, action);
    assert(replies =~= seq![replies[0]] + (seq![replies[1]] + later));
    trace_performs(config, probe, Then::RootProbed, rest, replies[0], seq![replies[1]] + later);
    let told = after_tmpfs_mount("/sbin"@, false, replies[1]);
    let pending = mounting.skip(1) + rest;
    assert(mounting + rest =~= seq![mounting_tmpfs("/sbin"@, false)] + pending);
    trace_performs(
        config,
        mounting_tmpfs("/sbin"@, false)->request,
        Then::TmpfsMounted { dest: "/sbin"@, restore_root: false },
        pending,
        replies[1],
        later,
    );
    let next = told + pending;
    let first = handing_out(probe);
    let second = handing_out(mounting_tmpfs("/sbin"@, false)->request);
    let begun = seq![first] + seq![second];
    let remainder = trace(config, next, later);
    let all = trace(config, commanded(config, action), replies);
    assert(all =~= begun + remainder);
    assert(remainder.len() > 0);
    assert(remainder.last() == all.last());
    let last = detaching(system_root(config.internal_dir@));
    reveal_strlit("/mirror");
    reveal_strlit("/system_root");
    reveal_strlit("/mirror/system_root");
    assert("/mirror"@ + "/system_root"@ =~= "/mirror/system_root"@);
    assert(system_root(config.internal_dir@) =~= mirror_of(config));
    mirror_is_owed(config, told, rest);
    assert(next =~= told + mounting.skip(1) + rest);
    debts_are_paid(config, next, 6, last, later);
    last_mount_of_sum(begun, remainder);
    times_of_sum(begun, remainder, last);
    times_of_sum(seq![first], seq![second], last);
    times_of_one(first, last);
    times_of_one(second, last);
}

/// Whatever the reply, the root is left alone.
spec fn aloof_then(then: ThenView) -> bool {
    match then {
        Then::Parsed => false,
        Then::RootProbed => false,
        Then::TmpfsMounted { restore_root, .. } => !restore_root,
        Then::RecreateEntry { sbin, .. } => sbin.len() > 1,
        Then::RecreateFile { sbin, .. } => sbin.len() > 1,
        _ => true,
    }
}

/// Neither the step nor what follows from it mounts the root or removes a
/// directory.
spec fn aloof(step: StepView) -> bool {
    step matches Step::Perform { request, then } ==> !mounts_root(request) && request
        !is RemoveDirAll && aloof_then(then)
}

spec fn all_aloof(pending: Seq<StepView>) -> bool {
    forall|i: int| 0 <= i < pending.len() ==> aloof(#[trigger] pending[i])
}

/// Whether none of these turns removes a directory.
pub open spec fn removes_nothing(turns: Seq<TurnView>) -> bool {
    forall|i: int|
        0 <= i < turns.len() ==> !(#[trigger] turns[i] matches Turn::Perform { request } && request
            is RemoveDirAll)
}

proof fn aloof_runs_leave_root_alone(
    config: Config,
    pending: Seq<StepView>,
    replies: Seq<ReplyView>,
)
    requires
        all_aloof(pending),
    ensures
        last_root_flags(trace(config, pending, replies)) is None,
        removes_nothing(trace(config, pending, replies)),
    decreases replies.len(),
{
    let (progress, turn) = advance(pending);
    last_root_flags_of_one(turn);
    if !(turn is Finished || replies.len() == 0) {
        assert(aloof(pending[0]));
        reveal_strlit("/");
        reveal_strlit("/sbin/");
        assert(all_aloof(reaction(config, progress.waiting, replies[0])));
        let next = reaction(config, progress.waiting, replies[0]) + progress.pending;
        aloof_runs_leave_root_alone(config, next, replies.skip(1));
        last_root_flags_of_sum(seq![turn], trace(config, next, replies.skip(1)));
    } else if pending.len() > 0 {
        assert(aloof(pending[0]));
    }
}

/// A root file system that is neither a ramfs nor a tmpfs is never mounted anew
/// to mount `/sbin`, and no directory is removed.
pub proof fn other_roots_are_left_alone(
    config: Config,
    action: MagiskAction,
    replies: Seq<ReplyView>,
)
    requires
        mounts_sbin(action),
        replies.len() > 0,
        !(replies[0] matches Reply::FsType { fs_type } && (fs_type == 0x858458f6 || fs_type
            == 0x01021994)),
    ensures
        last_root_flags(trace(config, commanded(config, action), replies)) is None,
        removes_nothing(trace(config, commanded(config, action), replies)),
{
    let rest = after_sbin(config, action);
    let mounting = mounting_sbin(config.internal_dir@, false);
    let probe = Request::FilesystemType { path: text_path("/"@) };
    sbin_commands_begin_with_the_probe(config, action);
    assert(replies =~= seq![replies[0]] + replies.skip(1));
    trace_performs(config, probe, Then::RootProbed, rest, replies[0], replies.skip(1));
    reveal_strlit("/");
    reveal_strlit("/sbin");
    reveal_strlit("/sbin/");
    assert(all_aloof(rest)) by {
        assert forall|i: int| 0 <= i < rest.len() implies aloof(#[trigger] rest[i]) by {
            assert(quiet(rest[i]));
        }
    }
    assert(all_aloof(mounting));
    aloof_runs_leave_root_alone(config, mounting + rest, replies.skip(1));
    last_root_flags_of_one(handing_out(probe));
    last_root_flags_of_sum(
        seq![handing_out(probe)],
        trace(config, mounting + rest, replies.skip(1)),
    );
}

/// The requests without which a tmpfs cannot be mounted and set up: to make the
/// root writable, to mount the tmpfs, and to change the working directory.
pub open spec fn vital(request: RequestView) -> bool {
    ||| request == root_with(0x20)
    ||| request matches Request::Mount { fstype, .. } && fstype is Some
    ||| request is ChangeDir
}

/// Every vital request of these turns was performed.
pub open spec fn vital_requests_done(turns: Seq<TurnView>, replies: Seq<ReplyView>) -> bool {
    forall|i: int|
        0 <= i < turns.len() && i < replies.len() && (#[trigger] turns[i] matches Turn::Perform {
            request,
        } && vital(request)) ==> replies[i] is Done
}

/// A step that ends the run only where it hands out a vital request that fails.
spec fn steady(step: StepView) -> bool {
    step matches Step::Perform { request, then } && match then {
        Then::RootRemounted => vital(request),
        Then::TmpfsMounted { .. } => vital(request),
        Then::DirChanged => vital(request),
        Then::CopyBinary { .. } => !vital(request),
        Then::RootProbed => !vital(request),
        _ => patient_then(then) && !vital(request),
    }
}

spec fn all_steady(pending: Seq<StepView>) -> bool {
    forall|i: int| 0 <= i < pending.len() ==> steady(#[trigger] pending[i])
}

/// The run is about to return -1, after requests whose outcome does not matter.
spec fn doomed(pending: Seq<StepView>, end: int) -> bool {
    &&& 0 <= end < pending.len()
    &&& pending[end] == returning(-1)
    &&& forall|i: int|
        0 <= i < end ==> (#[trigger] pending[i] matches Step::Perform { then, .. }
            && then is Ignore)
}

proof fn doomed_runs_fail(
    config: Config,
    pending: Seq<StepView>,
    end: int,
    replies: Seq<ReplyView>,
)
    requires
        doomed(pending, end),
        trace(config, pending, replies).last() is Finished,
    ensures
        trace(config, pending, replies).last() == ending(Finish::Return { code: (-1) as i32 }),
    decreases replies.len(),
{
    let (progress, turn) = advance(pending);
    if end > 0 {
        assert(pending[0] is Perform);
        if replies.len() == 0 {
            assert(trace(config, pending, replies) =~= seq![turn]);
            assert(false);
        }
        let next = Seq::<StepView>::empty() + progress.pending;
        let later = trace(config, next, replies.skip(1));
        assert(trace(config, pending, replies) =~= seq![turn] + later);
        assert(later.len() > 0);
        assert(later.last() == trace(config, pending, replies).last());
        assert forall|i: int| 0 <= i < end - 1 implies (
        #[trigger] next[i] matches Step::Perform { then, .. } && then is Ignore) by {
            assert(next[i] == pending[i + 1]);
        }
        assert(doomed(next, end - 1));
        doomed_runs_fail(config, next, end - 1, replies.skip(1));
    }
}

proof fn steady_runs_return(config: Config, pending: Seq<StepView>, replies: Seq<ReplyView>)
    requires
        all_steady(pending),
        trace(config, pending, replies).last() is Finished,
    ensures
        trace(config, pending, replies).last() == ending(
            Finish::Return {
                code: (if vital_requests_done(trace(config, pending, replies), replies) {
                    0
                } else {
                    -1int
                }) as i32,
            },
        ),
    decreases replies.len(),
{
    let (progress, turn) = advance(pending);
    let all = trace(config, pending, replies);
    if pending.len() > 0 {
        assert(steady(pending[0]));
        if replies.len() == 0 {
            assert(all =~= seq![turn]);
            assert(false);
        }
        let then = progress.waiting;
        let first = reaction(config, then, replies[0]);
        let next = first + progress.pending;
        let later = trace(config, next, replies.skip(1));
        assert(all =~= seq![turn] + later);
        assert(later.len() > 0);
        assert(all.last() == later.last());
        assert(all[0] == turn);
        if (then is RootRemounted || then is TmpfsMounted || then is DirChanged) && replies[0]
            !is Done {
            assert(!vital_requests_done(all, replies));
            assert(doomed(next, first.len() - 1));
            doomed_runs_fail(config, next, first.len() - 1, replies.skip(1));
        } else {
            assert(all_steady(first));
            assert(all_steady(next));
            steady_runs_return(config, next, replies.skip(1));
            if vital_requests_done(all, replies) {
                assert forall|i: int|
                    0 <= i < later.len() && i < replies.skip(1).len() && (
                    #[trigger] later[i] matches Turn::Perform { request } && vital(
                        request,
                    )) implies replies.skip(1)[i] is Done by {
                    assert(all[i + 1] == later[i]);
                }
            }
            if vital_requests_done(later, replies.skip(1)) {
                assert forall|i: int|
                    0 <= i < all.len() && i < replies.len() && (
                    #[trigger] all[i] matches Turn::Perform { request } && vital(
                        request,
                    )) implies replies[i] is Done by {
                    if i > 0 {
                        assert(all[i] == later[i - 1]);
                        assert(replies.skip(1)[i - 1] == replies[i]);
                    }
                }
            }
        }
    } else {
        assert(all =~= seq![turn]);
    }
}

/// A command that mounts a tmpfs returns 0 if every vital request was performed,
/// and -1 if one was not; no other failure matters.
pub proof fn sbin_commands_return_by_their_vital_requests(
    config: Config,
    action: MagiskAction,
    replies: Seq<ReplyView>,
)
    requires
        action is MountSbin || action is SetupSbin,
        trace(config, commanded(config, action), replies).last() is Finished,
    ensures
        trace(config, commanded(config, action), replies).last() == ending(
            Finish::Return {
                code: (if vital_requests_done(
                    trace(config, commanded(config, action), replies),
                    replies,
                ) {
                    0
                } else {
                    -1int
                }) as i32,
            },
        ),
{
    steady_runs_return(config, commanded(config, action), replies);
}

} // verus!
