//! What each command does, from its first request to its end.
//!
//! A run is told by its turns, for every reply of the host. `replies` may hold
//! more than the run asks for.

use crate::action::{
    CloneAttr, CloneFile, Config, DenyList, InstallApplet, InstallModule, MagiskAction,
    RemoveModules, RequestCode, Sqlite,
};
use crate::applet_laws::{applet_links, handing_out_all, installing_asks_for_every_link};
use crate::exec::{commanded, showing_rows};
use crate::laws::{row_replies, row_turns};
use crate::protocol::{ignoring, Finish, Reply, ReplyView, Request, Step, StepView, Then, TurnView};
use crate::session::{advance, reaction};
use crate::text::{decimal, texts};
use crate::trace::{
    ending, handing_out, trace, trace_ignores, trace_ignores_all, trace_performs, trace_stops,
};
use vstd::prelude::*;

verus! {

/// The turns of a run of the command `action`.
pub open spec fn run(config: Config, action: MagiskAction, replies: Seq<ReplyView>) -> Seq<
    TurnView,
> {
    trace(config, commanded(config, action), replies)
}

/// The end with this code.
pub open spec fn end(code: i32) -> TurnView {
    ending(Finish::Return { code })
}

/// What is to come after the first step was answered.
spec fn next(config: Config, pending: Seq<StepView>, reply: ReplyView) -> Seq<StepView> {
    reaction(config, advance(pending).0.waiting, reply) + pending.skip(1)
}

/// The first turn of a run, and what follows.
spec fn unfolded(config: Config, pending: Seq<StepView>, replies: Seq<ReplyView>) -> bool {
    &&& pending.len() == 0 ==> trace(config, pending, replies) == seq![end(0)]
    &&& pending.len() > 0 ==> match pending[0] {
        Step::Stop { finish } => trace(config, pending, replies) == seq![ending(finish)],
        Step::Perform { request, .. } => replies.len() > 0 ==> trace(config, pending, replies)
            == seq![handing_out(request)] + trace(
            config,
            next(config, pending, replies[0]),
            replies.skip(1),
        ),
    }
}

proof fn unfold(config: Config, pending: Seq<StepView>, replies: Seq<ReplyView>)
    ensures
        unfolded(config, pending, replies),
{
}

/// `-c` prints the version of the binary, the kind of build and the version
/// code.
pub proof fn local_version_is_printed(
    config: Config,
    action: MagiskAction,
    replies: Seq<ReplyView>,
)
    requires
        action is LocalVersion,
        replies.len() >= 1,
    ensures
        run(config, action, replies) == seq![
            handing_out(
                Request::PrintLine {
                    text: config.magisk_version@ + (if config.debug_assertions {
                        ":MAGISK:D ("@
                    } else {
                        ":MAGISK:R ("@
                    }) + decimal(config.magisk_ver_code as int) + ")"@,
                },
            ),
            end(0),
        ],
{
    let p0 = commanded(config, action);
    unfold(config, p0, replies);
    let p1 = next(config, p0, replies[0]);
    unfold(config, p1, replies.skip(1));
}

/// `-v` prints the text that the daemon answers, as it is.
pub proof fn daemon_version_is_printed(
    config: Config,
    action: MagiskAction,
    replies: Seq<ReplyView>,
)
    requires
        action is Version,
        replies.len() >= 3,
    ensures
        run(config, action, replies) == seq![
            handing_out(Request::Connect { code: RequestCode::CHECK_VERSION, create: false }),
        ] + (if replies[0] !is Done {
            seq![end(1)]
        } else {
            seq![handing_out(Request::ReceiveText)] + (match replies[1] {
                Reply::Text { text } => seq![handing_out(Request::PrintLine { text }), end(0)],
                _ => seq![end(1)],
            })
        }),
{
    let p0 = commanded(config, action);
    unfold(config, p0, replies);
    let p1 = next(config, p0, replies[0]);
    unfold(config, p1, replies.skip(1));
    let p2 = next(config, p1, replies[1]);
    unfold(config, p2, replies.skip(1).skip(1));
    let p3 = next(config, p2, replies[2]);
    unfold(config, p3, replies.skip(1).skip(1).skip(1));
}

/// `-V` prints the number that the daemon answers, in decimal.
pub proof fn daemon_version_code_is_printed(
    config: Config,
    action: MagiskAction,
    replies: Seq<ReplyView>,
)
    requires
        action is VersionCode,
        replies.len() >= 3,
    ensures
        run(config, action, replies) == seq![
            handing_out(Request::Connect { code: RequestCode::CHECK_VERSION_CODE, create: false }),
        ] + (if replies[0] !is Done {
            seq![end(1)]
        } else {
            seq![handing_out(Request::ReceiveNumber)] + (match replies[1] {
                Reply::Number { number } => seq![
                    handing_out(Request::PrintLine { text: decimal(number as int) }),
                    end(0),
                ],
                _ => seq![end(1)],
            })
        }),
{
    let p0 = commanded(config, action);
    unfold(config, p0, replies);
    let p1 = next(config, p0, replies[0]);
    unfold(config, p1, replies.skip(1));
    let p2 = next(config, p1, replies[1]);
    unfold(config, p2, replies.skip(1).skip(1));
    let p3 = next(config, p2, replies[2]);
    unfold(config, p3, replies.skip(1).skip(1).skip(1));
}

/// `--list` prints the name of each applet, in their order.
pub proof fn every_applet_is_listed(
    config: Config,
    action: MagiskAction,
    replies: Seq<ReplyView>,
)
    requires
        action is List,
        replies.len() >= config.applet_names@.len(),
    ensures
        run(config, action, replies) == Seq::new(
            config.applet_names@.len(),
            |i: int| handing_out(Request::PrintLine { text: config.applet_names@[i]@ }),
        ).push(end(0)),
{
    let n = config.applet_names@.len();
    let requests = Seq::new(n, |i: int| Request::PrintLine { text: config.applet_names@[i]@ });
    let rest = Seq::<StepView>::empty();
    let later = replies.skip(n as int);
    assert(replies =~= replies.take(n as int) + later);
    assert(commanded(config, action) =~= Seq::new(n, |i: int| ignoring(requests[i])) + rest);
    trace_ignores_all(config, requests, rest, replies.take(n as int), later);
    assert(trace(config, rest, later) =~= seq![end(0)]);
    assert(run(config, action, replies) =~= Seq::new(n, |i: int| handing_out(requests[i])).push(
        end(0),
    ));
}

/// `--remove-modules` tells the daemon to reboot unless `-n` is given, and
/// returns the number that it answers.
pub proof fn modules_are_removed(
    config: Config,
    action: MagiskAction,
    command: RemoveModules,
    replies: Seq<ReplyView>,
)
    requires
        action == MagiskAction::RemoveModules(command),
        replies.len() >= 3,
    ensures
        run(config, action, replies) == seq![
            handing_out(Request::Connect { code: RequestCode::REMOVE_MODULES, create: false }),
        ] + (if replies[0] !is Done {
            seq![end(1)]
        } else {
            seq![handing_out(Request::SendFlag { flag: !command.no_reboot })] + (if replies[1]
                !is Done {
                seq![end(1)]
            } else {
                seq![handing_out(Request::ReceiveNumber)] + (match replies[2] {
                    Reply::Number { number } => seq![end(number)],
                    _ => seq![end(1)],
                })
            })
        }),
{
    let p0 = commanded(config, action);
    unfold(config, p0, replies);
    let p1 = next(config, p0, replies[0]);
    unfold(config, p1, replies.skip(1));
    let p2 = next(config, p1, replies[1]);
    unfold(config, p2, replies.skip(1).skip(1));
    let p3 = next(config, p2, replies[2]);
    unfold(config, p3, replies.skip(1).skip(1).skip(1));
}

/// `--install-module` has the module installed from just the path that is given,
/// and returns 0.
pub proof fn module_is_installed_from_its_path(
    config: Config,
    action: MagiskAction,
    command: InstallModule,
    replies: Seq<ReplyView>,
)
    requires
        action == MagiskAction::InstallModule(command),
        replies.len() >= 1,
    ensures
        run(config, action, replies) == seq![
            handing_out(Request::InstallModule { zip: command.zip@ }),
            end(0),
        ],
{
    let p0 = commanded(config, action);
    unfold(config, p0, replies);
    let p1 = next(config, p0, replies[0]);
    unfold(config, p1, replies.skip(1));
}

/// `--daemon` starts the daemon, and fails if it cannot be reached.
pub proof fn daemon_is_started(
    config: Config,
    action: MagiskAction,
    replies: Seq<ReplyView>,
)
    requires
        action is Daemon,
        replies.len() >= 1,
    ensures
        run(config, action, replies) == seq![
            handing_out(Request::Connect { code: RequestCode::START_DAEMON, create: true }),
            end(
                if replies[0] is Done {
                    0
                } else {
                    1
                },
            ),
        ],
{
    let p0 = commanded(config, action);
    unfold(config, p0, replies);
    let p1 = next(config, p0, replies[0]);
    unfold(config, p1, replies.skip(1));
}

/// `--service` passes the trigger on to the daemon, which is started for it.
pub proof fn service_is_passed_on(
    config: Config,
    action: MagiskAction,
    replies: Seq<ReplyView>,
)
    requires
        action is Service,
        replies.len() >= 1,
    ensures
        run(config, action, replies) == seq![
            handing_out(Request::Connect { code: RequestCode::LATE_START, create: true }),
            end(
                if replies[0] is Done {
                    0
                } else {
                    1
                },
            ),
        ],
{
    let p0 = commanded(config, action);
    unfold(config, p0, replies);
    let p1 = next(config, p0, replies[0]);
    unfold(config, p1, replies.skip(1));
}

/// `--boot-complete` passes the trigger on to a running daemon.
pub proof fn boot_completion_is_passed_on(
    config: Config,
    action: MagiskAction,
    replies: Seq<ReplyView>,
)
    requires
        action is BootComplete,
        replies.len() >= 1,
    ensures
        run(config, action, replies) == seq![
            handing_out(Request::Connect { code: RequestCode::BOOT_COMPLETE, create: false }),
            end(
                if replies[0] is Done {
                    0
                } else {
                    1
                },
            ),
        ],
{
    let p0 = commanded(config, action);
    unfold(config, p0, replies);
    let p1 = next(config, p0, replies[0]);
    unfold(config, p1, replies.skip(1));
}

/// `--zygote-restart` passes the trigger on to a running daemon.
pub proof fn zygote_restart_is_passed_on(
    config: Config,
    action: MagiskAction,
    replies: Seq<ReplyView>,
)
    requires
        action is ZygoteRestart,
        replies.len() >= 1,
    ensures
        run(config, action, replies) == seq![
            handing_out(Request::Connect { code: RequestCode::ZYGOTE_RESTART, create: false }),
            end(
                if replies[0] is Done {
                    0
                } else {
                    1
                },
            ),
        ],
{
    let p0 = commanded(config, action);
    unfold(config, p0, replies);
    let p1 = next(config, p0, replies[0]);
    unfold(config, p1, replies.skip(1));
}

/// `--stop` stops the daemon and returns the number that it answers.
pub proof fn daemon_is_stopped(
    config: Config,
    action: MagiskAction,
    replies: Seq<ReplyView>,
)
    requires
        action is Stop,
        replies.len() >= 2,
    ensures
        run(config, action, replies) == seq![
            handing_out(Request::Connect { code: RequestCode::STOP_DAEMON, create: false }),
        ] + (if replies[0] !is Done {
            seq![end(1)]
        } else {
            seq![handing_out(Request::ReceiveNumber)] + (match replies[1] {
                Reply::Number { number } => seq![end(number)],
                _ => seq![end(1)],
            })
        }),
{
    let p0 = commanded(config, action);
    unfold(config, p0, replies);
    let p1 = next(config, p0, replies[0]);
    unfold(config, p1, replies.skip(1));
    let p2 = next(config, p1, replies[1]);
    unfold(config, p2, replies.skip(1).skip(1));
}

/// Every waiting time is usable whose milliseconds are a number of 32 bits.
pub proof fn times_in_range_are_usable(config: Config)
    ensures
        config.well_formed() <==> -2147483648 <= config.post_fs_data_wait_time * 1000
            <= 2147483647,
{
}

/// `--post-fs-data` waits until the daemon sends something, for as many seconds
/// as are configured. Less than no time fails the command.
pub proof fn post_fs_data_waits_for_the_daemon(
    config: Config,
    action: MagiskAction,
    replies: Seq<ReplyView>,
)
    requires
        config.well_formed(),
        action is PostFsData,
        replies.len() >= 2,
    ensures
        run(config, action, replies) == seq![
            handing_out(Request::Connect { code: RequestCode::POST_FS_DATA, create: true }),
        ] + (if replies[0] !is Done || config.post_fs_data_wait_time < 0 {
            seq![end(1)]
        } else {
            seq![
                handing_out(
                    Request::Poll {
                        events: 1,
                        timeout: (config.post_fs_data_wait_time * 1000) as i32,
                    },
                ),
                end(
                    if replies[1] is Done {
                        0
                    } else {
                        1
                    },
                ),
            ]
        }),
{
    let p0 = commanded(config, action);
    unfold(config, p0, replies);
    let p1 = next(config, p0, replies[0]);
    unfold(config, p1, replies.skip(1));
    let p2 = next(config, p1, replies[1]);
    unfold(config, p2, replies.skip(1).skip(1));
}

/// `--unlock-blocks` makes the block devices writable and returns 0.
pub proof fn blocks_are_unlocked(
    config: Config,
    action: MagiskAction,
    replies: Seq<ReplyView>,
)
    requires
        action is UnlockBlocks,
        replies.len() >= 1,
    ensures
        run(config, action, replies) == seq![handing_out(Request::UnlockBlocks), end(0)],
{
    let p0 = commanded(config, action);
    unfold(config, p0, replies);
    let p1 = next(config, p0, replies[0]);
    unfold(config, p1, replies.skip(1));
}

/// `--restorecon` restores the contexts and returns 0.
pub proof fn contexts_are_restored(
    config: Config,
    action: MagiskAction,
    replies: Seq<ReplyView>,
)
    requires
        action is RestoreCon,
        replies.len() >= 1,
    ensures
        run(config, action, replies) == seq![handing_out(Request::RestoreCon), end(0)],
{
    let p0 = commanded(config, action);
    unfold(config, p0, replies);
    let p1 = next(config, p0, replies[0]);
    unfold(config, p1, replies.skip(1));
}

/// `--clone-attr` copies the attributes of the first file to the second.
pub proof fn attributes_are_cloned(
    config: Config,
    action: MagiskAction,
    command: CloneAttr,
    replies: Seq<ReplyView>,
)
    requires
        action == MagiskAction::CloneAttr(command),
        replies.len() >= 1,
    ensures
        run(config, action, replies) == seq![
            handing_out(Request::CloneAttr { from: command.from@, to: command.to@ }),
            end(
                if replies[0] is Done {
                    0
                } else {
                    1
                },
            ),
        ],
{
    let p0 = commanded(config, action);
    unfold(config, p0, replies);
    let p1 = next(config, p0, replies[0]);
    unfold(config, p1, replies.skip(1));
}

/// `--clone` copies the first file to the second.
pub proof fn file_is_cloned(
    config: Config,
    action: MagiskAction,
    command: CloneFile,
    replies: Seq<ReplyView>,
)
    requires
        action == MagiskAction::CloneFile(command),
        replies.len() >= 1,
    ensures
        run(config, action, replies) == seq![
            handing_out(Request::CloneFile { from: command.from@, to: command.to@ }),
            end(
                if replies[0] is Done {
                    0
                } else {
                    1
                },
            ),
        ],
{
    let p0 = commanded(config, action);
    unfold(config, p0, replies);
    let p1 = next(config, p0, replies[0]);
    unfold(config, p1, replies.skip(1));
}

/// `--path` prints where the tmpfs is, just as it is told, and returns 1 if it is
/// nowhere.
pub proof fn tmpfs_path_is_printed(
    config: Config,
    action: MagiskAction,
    replies: Seq<ReplyView>,
)
    requires
        action is Path,
        replies.len() >= 2,
    ensures
        run(config, action, replies) == seq![handing_out(Request::MagiskTmp)] + (match replies[0] {
            Reply::Text { text } => if text.len() > 0 {
                seq![handing_out(Request::PrintLine { text }), end(0)]
            } else {
                seq![end(1)]
            },
            _ => seq![end(1)],
        }),
{
    let p0 = commanded(config, action);
    unfold(config, p0, replies);
    let p1 = next(config, p0, replies[0]);
    unfold(config, p1, replies.skip(1));
    let p2 = next(config, p1, replies[1]);
    unfold(config, p2, replies.skip(1).skip(1));
}

/// `--preinit-device` prints the device, just as it is told, and returns 1 if
/// there is none.
pub proof fn preinit_device_is_printed(
    config: Config,
    action: MagiskAction,
    replies: Seq<ReplyView>,
)
    requires
        action is PreInitDevice,
        replies.len() >= 2,
    ensures
        run(config, action, replies) == seq![handing_out(Request::PreinitDevice)] + (match replies[0] {
            Reply::Text { text } => if text.len() > 0 {
                seq![handing_out(Request::PrintLine { text }), end(0)]
            } else {
                seq![end(1)]
            },
            _ => seq![end(1)],
        }),
{
    let p0 = commanded(config, action);
    unfold(config, p0, replies);
    let p1 = next(config, p0, replies[0]);
    unfold(config, p1, replies.skip(1));
    let p2 = next(config, p1, replies[1]);
    unfold(config, p2, replies.skip(1).skip(1));
}

/// `--denylist` hands its arguments on, all of them and in their order, and
/// returns what that gives.
pub proof fn denylist_gets_its_arguments(
    config: Config,
    action: MagiskAction,
    command: DenyList,
    replies: Seq<ReplyView>,
)
    requires
        action == MagiskAction::DenyList(command),
        replies.len() >= 1,
    ensures
        run(config, action, replies) == seq![
            handing_out(
                Request::DenyList {
                    args: Seq::new(command.args@.len(), |i: int| command.args@[i]@),
                },
            ),
            match replies[0] {
                Reply::Number { number } => end(number),
                _ => end(1),
            },
        ],
{
    let p0 = commanded(config, action);
    unfold(config, p0, replies);
    let p1 = next(config, p0, replies[0]);
    unfold(config, p1, replies.skip(1));
    assert(texts(command.args@) =~= Seq::new(command.args@.len(), |i: int| command.args@[i]@));
}

/// `--sqlite` sends just the text that is given, before it receives anything.
pub proof fn sql_is_sent_whole(
    config: Config,
    action: MagiskAction,
    command: Sqlite,
    replies: Seq<ReplyView>,
)
    requires
        action == MagiskAction::Sqlite(command),
        replies.len() >= 2,
    ensures
        run(config, action, replies) == seq![
            handing_out(Request::Connect { code: RequestCode::SQLITE_CMD, create: false }),
        ] + (if replies[0] !is Done {
            seq![end(1)]
        } else {
            seq![handing_out(Request::SendText { text: command.sql@ })] + (if replies[1] !is Done {
                seq![end(1)]
            } else {
                trace(config, seq![showing_rows()], replies.skip(2))
            })
        }),
{
    let p0 = commanded(config, action);
    unfold(config, p0, replies);
    let p1 = next(config, p0, replies[0]);
    unfold(config, p1, replies.skip(1));
    let p2 = next(config, p1, replies[1]);
    unfold(config, p2, replies.skip(1).skip(1));
    assert(replies.skip(1).skip(1) =~= replies.skip(2));
    if replies[0] is Done && replies[1] is Done {
        assert(p2 =~= seq![showing_rows()]);
    }
}

/// `--sqlite` prints the rows that the daemon sends for just the text that is
/// given, each as it is and in their order. The empty row ends the run with 0,
/// and anything that is no row ends it with 1.
pub proof fn sql_rows_are_printed(
    config: Config,
    command: Sqlite,
    rows: Seq<Seq<char>>,
    acks: Seq<ReplyView>,
    last: ReplyView,
    replies: Seq<ReplyView>,
)
    requires
        forall|i: int| 0 <= i < rows.len() ==> (#[trigger] rows[i]).len() > 0,
        last matches Reply::Text { text } ==> text.len() == 0,
    ensures
        run(
            config,
            MagiskAction::Sqlite(command),
            seq![Reply::Done, Reply::Done] + (row_replies(rows, acks) + (seq![last] + replies)),
        ) == seq![
            handing_out(Request::Connect { code: RequestCode::SQLITE_CMD, create: false }),
            handing_out(Request::SendText { text: command.sql@ }),
        ] + (row_turns(rows) + seq![
            handing_out(Request::ReceiveText),
            end(
                if last is Text {
                    0
                } else {
                    1
                },
            ),
        ]),
{
    let later = row_replies(rows, acks) + (seq![last] + replies);
    let all = seq![Reply::Done, Reply::Done] + later;
    let rest = Seq::<StepView>::empty();
    sql_is_sent_whole(config, MagiskAction::Sqlite(command), command, all);
    assert(all.skip(2) =~= later);
    assert(seq![showing_rows()] =~= seq![showing_rows()] + rest);
    rows_are_printed(config, rows, acks, last, rest, replies);
}

proof fn rows_are_printed(
    config: Config,
    rows: Seq<Seq<char>>,
    acks: Seq<ReplyView>,
    last: ReplyView,
    rest: Seq<StepView>,
    replies: Seq<ReplyView>,
)
    requires
        forall|i: int| 0 <= i < rows.len() ==> (#[trigger] rows[i]).len() > 0,
        last matches Reply::Text { text } ==> text.len() == 0,
    ensures
        trace(
            config,
            seq![showing_rows()] + rest,
            row_replies(rows, acks) + (seq![last] + replies),
        ) == row_turns(rows) + seq![
            handing_out(Request::ReceiveText),
            end(
                if last is Text {
                    0
                } else {
                    1
                },
            ),
        ],
    decreases rows.len(),
{
    let wait = seq![showing_rows()] + rest;
    let tail = seq![last] + replies;
    if rows.len() == 0 {
        assert(row_replies(rows, acks) + tail =~= tail);
        trace_performs(config, Request::ReceiveText, Then::ShowRow, rest, last, replies);
        let code: i32 = if last is Text {
            0
        } else {
            1
        };
        trace_stops(config, Finish::Return { code }, rest, replies);
    } else {
        let row = rows[0];
        let later = row_replies(rows.skip(1), acks.skip(1)) + tail;
        assert(row_replies(rows, acks) + tail =~= seq![Reply::Text { text: row }] + (seq![acks[0]]
            + later));
        trace_performs(
            config,
            Request::ReceiveText,
            Then::ShowRow,
            rest,
            Reply::Text { text: row },
            seq![acks[0]] + later,
        );
        let print = Request::PrintLine { text: row };
        assert(seq![ignoring(print), showing_rows()] + rest =~= seq![ignoring(print)] + wait);
        trace_ignores(config, print, wait, acks[0], later);
        rows_are_printed(config, rows.skip(1), acks.skip(1), last, rest, replies);
        assert(row_turns(rows) =~= seq![handing_out(Request::ReceiveText), handing_out(print)]
            + row_turns(rows.skip(1)));
    }
}

/// `--install` makes the links of the applets in the directory that is given, or
/// in `/sbin`, and returns 0.
pub proof fn applets_are_installed_where_told(
    config: Config,
    command: InstallApplet,
    replies: Seq<ReplyView>,
)
    requires
        replies.len() >= config.applet_names@.len() + 1,
    ensures
        run(config, MagiskAction::Install(command), replies) == handing_out_all(
            applet_links(
                Seq::new(config.applet_names@.len(), |i: int| config.applet_names@[i]@),
                match command.path {
                    Some(path) => path@,
                    None => "/sbin"@,
                },
            ),
        ).push(end(0)),
{
    let names = Seq::new(config.applet_names@.len(), |i: int| config.applet_names@[i]@);
    let path = match command.path {
        Some(path) => path@,
        None => "/sbin"@,
    };
    let n = names.len() + 1;
    let rest = Seq::<StepView>::empty();
    let later = replies.skip(n as int);
    let links = handing_out_all(applet_links(names, path));
    assert(texts(config.applet_names@) =~= names);
    assert(replies =~= replies.take(n as int) + later);
    assert(commanded(config, MagiskAction::Install(command)) =~= commanded(
        config,
        MagiskAction::Install(command),
    ) + rest);
    installing_asks_for_every_link(config, names, path, rest, replies.take(n as int), later);
    assert(trace(config, rest, later) =~= seq![end(0)]);
    assert(links + seq![end(0)] =~= links.push(end(0)));
}

} // verus!
