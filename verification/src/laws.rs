//! Laws of the tool.

use crate::action::{Config, InstallApplet, MagiskAction, RemoveModules, RequestCode, SetupSbin};
use crate::applet::usage;
use crate::exec::{commanded, returning_number, showing_rows};
use crate::path::text_path;
use crate::protocol::{
    exiting, failure_text, ignoring, reply_text, requiring, Finish, Reply, ReplyView, Request,
    RequestView, Step, StepView, Then, ThenView, Turn, TurnView,
};
use crate::selinux::opening_context;
use crate::session::{advance, after_parse, beginning, parsing, reaction, refusing, resumed};
use crate::text::{texts, without_trailing_nul};
use crate::trace::{ending, handing_out, trace, trace_ignores, trace_performs, trace_stops};
use vstd::prelude::*;

verus! {

/// A run that has ended stays so: resuming it changes nothing.
pub proof fn ended_runs_stay_ended(config: Config, pending: Seq<StepView>, reply: ReplyView)
    requires
        advance(pending).1 is Finished,
    ensures
        resumed(config, advance(pending).0, reply) == advance(pending),
{
    assert(Seq::<StepView>::empty() + pending =~= pending);
}

/// The command line that is parsed starts with `--`, so that nothing the user
/// typed is taken for an option of the tool itself.
pub proof fn parsed_arguments_are_no_options(
    config: Config,
    args: Seq<Seq<char>>,
    index: int,
    command: Seq<Seq<char>>,
    parsed: Seq<Seq<char>>,
)
    requires
        0 <= index < beginning(config, args).len(),
        beginning(config, args)[index] matches Step::Perform { request, .. } && request == (
        Request::<Seq<char>, Seq<u8>, Seq<Seq<char>>>::ParseArgs { command, args: parsed }),
    ensures
        parsed.len() > 1,
        parsed[0] == "--"@,
        command == seq![args[0]],
        exists|n: int| 1 <= n <= 2 && parsed.skip(1) == #[trigger] args.skip(n),
{
    let n: int = if args[1] == "--auto-selinux"@ {
        2
    } else {
        1
    };
    assert(parsed.skip(1) =~= args.skip(n));
}

/// `--auto-selinux` only puts the change of context before the rest: the tool
/// goes on as it would without that argument.
pub proof fn auto_selinux_is_a_prefix(config: Config, args: Seq<Seq<char>>)
    requires
        args.len() >= 2,
        args[1] == "--auto-selinux"@,
        args.len() >= 3 ==> args[2] != "--auto-selinux"@,
    ensures
        beginning(config, args) == seq![opening_context()] + beginning(config, args.remove(1)),
{
    assert(args.remove(1).skip(1) =~= args.skip(2));
    assert(beginning(config, args) =~= seq![opening_context()] + beginning(
        config,
        args.remove(1),
    ));
}

/// A command line without a command prints the usage message and exits with 1,
/// whatever the host answers.
pub proof fn no_command_shows_usage(
    config: Config,
    args: Seq<Seq<char>>,
    reply: ReplyView,
    replies: Seq<ReplyView>,
)
    requires
        args.len() < 2,
    ensures
        trace(config, beginning(config, args), seq![reply] + replies) == seq![
            handing_out(
                Request::ErrorLine {
                    text: usage(texts(config.applet_names@)),
                },
            ),
            ending(Finish::Exit { code: 1 }),
        ],
{
    usage_and_exit(config, 1, Seq::empty(), reply, replies);
    assert(refusing(config, 1) + Seq::<StepView>::empty() =~= refusing(config, 1));
}

/// A refusal prints the usage message and exits with the code, whatever was to
/// come.
pub proof fn usage_and_exit(
    config: Config,
    code: int,
    rest: Seq<StepView>,
    reply: ReplyView,
    replies: Seq<ReplyView>,
)
    ensures
        trace(config, refusing(config, code) + rest, seq![reply] + replies) == seq![
            handing_out(
                Request::ErrorLine {
                    text: usage(texts(config.applet_names@)),
                },
            ),
            ending(Finish::Exit { code: code as i32 }),
        ],
{
    let stop = seq![exiting(code)];
    let text = usage(texts(config.applet_names@));
    assert(refusing(config, code) + rest =~= seq![ignoring(Request::ErrorLine { text })] + (stop
        + rest));
    trace_ignores(config, Request::ErrorLine { text }, stop + rest, reply, replies);
    trace_stops(config, Finish::Exit { code: code as i32 }, rest, replies);
}

/// A command line that cannot be parsed is answered with the error and the
/// usage message, and the tool exits with 1. One that asks for help is answered
/// with the usage message alone, and the tool exits with 0.
pub proof fn unparsed_command_lines_are_refused(
    config: Config,
    command: Seq<char>,
    args: Seq<Seq<char>>,
    reply: ReplyView,
    acks: Seq<ReplyView>,
)
    requires
        reply !is Parsed,
        acks.len() >= 2,
    ensures
        trace(config, seq![parsing(command, args)], seq![reply] + acks) == seq![
            handing_out(
                Request::ParseArgs { command: seq![command], args: seq!["--"@] + args },
            ),
        ] + (if reply is Help {
            Seq::empty()
        } else {
            seq![handing_out(Request::ErrorLine { text: failure_text(reply) })]
        }) + seq![
            handing_out(Request::ErrorLine { text: usage(texts(config.applet_names@)) }),
            ending(
                Finish::Exit {
                    code: if reply is Help {
                        0
                    } else {
                        1
                    },
                },
            ),
        ],
{
    let rest = Seq::<StepView>::empty();
    let parse = Request::ParseArgs { command: seq![command], args: seq!["--"@] + args };
    assert(seq![parsing(command, args)] + rest =~= seq![parsing(command, args)]);
    trace_performs(config, parse, Then::Parsed, rest, reply, acks);
    assert(acks =~= seq![acks[0]] + acks.skip(1));
    if reply is Help {
        usage_and_exit(config, 0, rest, acks[0], acks.skip(1));
    } else {
        let complaint = Request::ErrorLine { text: failure_text(reply) };
        let refusal = refusing(config, 1) + rest;
        assert(after_parse(config, reply) + rest =~= seq![ignoring(complaint)] + refusal);
        trace_ignores(config, complaint, refusal, acks[0], acks.skip(1));
        assert(acks.skip(1) =~= seq![acks[1]] + acks.skip(2));
        usage_and_exit(config, 1, rest, acks[1], acks.skip(2));
    }
}

/// A request without which the tool cannot go on ends the run with code 1 where
/// it fails, and is the last thing that the host is asked.
pub proof fn failed_requirement_returns_one(
    config: Config,
    request: RequestView,
    rest: Seq<StepView>,
    reply: ReplyView,
    replies: Seq<ReplyView>,
)
    requires
        reply !is Done,
    ensures
        trace(config, seq![requiring(request)] + rest, seq![reply] + replies) == seq![
            handing_out(request),
            ending(Finish::Return { code: 1 }),
        ],
{
    trace_performs(config, request, Then::Required, rest, reply, replies);
    trace_stops(config, Finish::Return { code: 1 }, rest, replies);
}

/// A tmpfs that is set up without being told where goes on `/sbin`.
pub proof fn sbin_is_the_default_of_setup(config: Config, given: SetupSbin, default: SetupSbin)
    requires
        given.bin_dir@ == default.bin_dir@,
        given.tmpfs_dest matches Some(dest) && dest@ == "/sbin"@,
        default.tmpfs_dest is None,
    ensures
        commanded(config, MagiskAction::SetupSbin(given)) == commanded(
            config,
            MagiskAction::SetupSbin(default),
        ),
{
}

/// Applets that are installed without being told where go into `/sbin`.
pub proof fn sbin_is_the_default_of_install(
    config: Config,
    given: InstallApplet,
    default: InstallApplet,
)
    requires
        given.path matches Some(path) && path@ == "/sbin"@,
        default.path is None,
    ensures
        commanded(config, MagiskAction::Install(given)) == commanded(
            config,
            MagiskAction::Install(default),
        ),
{
}

/// What a daemon answers that sends these rows, where `acks` answer the lines
/// that are printed meanwhile.
pub open spec fn row_replies(rows: Seq<Seq<char>>, acks: Seq<ReplyView>) -> Seq<ReplyView>
    decreases rows.len(),
{
    if rows.len() == 0 {
        Seq::empty()
    } else {
        seq![Reply::Text { text: rows[0] }, acks[0]] + row_replies(rows.skip(1), acks.skip(1))
    }
}

/// Receiving and printing each of these rows.
pub open spec fn row_turns(rows: Seq<Seq<char>>) -> Seq<TurnView>
    decreases rows.len(),
{
    if rows.len() == 0 {
        Seq::empty()
    } else {
        seq![handing_out(Request::ReceiveText), handing_out(Request::PrintLine { text: rows[0] })]
            + row_turns(rows.skip(1))
    }
}

/// The rows of a query's result are printed, each as it came and in their
/// order, up to the empty one, which ends the run with 0.
pub proof fn rows_are_shown_up_to_the_empty_one(
    config: Config,
    rows: Seq<Seq<char>>,
    acks: Seq<ReplyView>,
    rest: Seq<StepView>,
    replies: Seq<ReplyView>,
)
    requires
        forall|i: int| 0 <= i < rows.len() ==> (#[trigger] rows[i]).len() > 0,
    ensures
        trace(
            config,
            seq![showing_rows()] + rest,
            row_replies(rows, acks) + (seq![Reply::Text { text: Seq::empty() }] + replies),
        ) == row_turns(rows) + seq![
            handing_out(Request::ReceiveText),
            ending(Finish::Return { code: 0 }),
        ],
    decreases rows.len(),
{
    let last = seq![Reply::Text { text: Seq::empty() }] + replies;
    let wait = seq![showing_rows()] + rest;
    if rows.len() == 0 {
        assert(row_replies(rows, acks) + last =~= last);
        trace_performs(
            config,
            Request::ReceiveText,
            Then::ShowRow,
            rest,
            Reply::Text { text: Seq::empty() },
            replies,
        );
        trace_stops(config, Finish::Return { code: 0 }, rest, replies);
    } else {
        let row = rows[0];
        let later = row_replies(rows.skip(1), acks.skip(1)) + last;
        assert(row_replies(rows, acks) + last =~= seq![Reply::Text { text: row }] + (seq![acks[0]]
            + later));
        trace_performs(
            config,
            Request::ReceiveText,
            Then::ShowRow,
            rest,
            Reply::Text { text: row },
            seq![acks[0]] + later,
        );
        let print = Request::PrintLine { text: row };
        assert(seq![ignoring(print), showing_rows()] + rest =~= seq![ignoring(print)] + wait);
        trace_ignores(config, print, wait, acks[0], later);
        rows_are_shown_up_to_the_empty_one(config, rows.skip(1), acks.skip(1), rest, replies);
        assert(row_turns(rows) =~= seq![handing_out(Request::ReceiveText), handing_out(print)]
            + row_turns(rows.skip(1)));
    }
}

/// What a host answers to the attempt to enter a context, as far as it is
/// asked: to opening the file, to writing the first and the second context,
/// to reading it back, to the message and to closing the file.
pub open spec fn context_replies(
    open: ReplyView,
    first: ReplyView,
    second: ReplyView,
    read: ReplyView,
    shown: ReplyView,
    closed: ReplyView,
) -> Seq<ReplyView> {
    if open !is Done {
        seq![open]
    } else if first is Done {
        seq![open, first, read, shown, closed]
    } else if second is Done {
        seq![open, first, second, read, shown, closed]
    } else {
        seq![open, first, second, closed]
    }
}

/// The attempt to enter a context: that of the tool, or else that of `su`. The
/// message tells the context that was read, where one was entered.
pub open spec fn context_turns(
    domain: Seq<char>,
    open: ReplyView,
    first: ReplyView,
    second: ReplyView,
    read: ReplyView,
) -> Seq<TurnView> {
    let opening = handing_out(Request::OpenFile { path: text_path("/proc/self/attr/current"@) });
    let own = handing_out(Request::WriteFile { text: "u:r:"@ + domain + ":s0\0"@ });
    let su = handing_out(Request::WriteFile { text: "u:r:su:s0\0"@ });
    let message = handing_out(
        Request::ErrorLine {
            text: "SeLinux context: "@ + without_trailing_nul(
                match read {
                    Reply::Text { text } => text,
                    _ => Seq::empty(),
                },
            ),
        },
    );
    let reading = handing_out(Request::ReadFile);
    let closing = handing_out(Request::CloseFile);
    if open !is Done {
        seq![opening]
    } else if first is Done {
        seq![opening, own, reading, message, closing]
    } else if second is Done {
        seq![opening, own, su, reading, message, closing]
    } else {
        seq![opening, own, su, closing]
    }
}

/// The attempt to enter a context never ends the run: whatever becomes of it,
/// the tool goes on with the rest.
pub proof fn entering_a_context_never_fails(
    config: Config,
    open: ReplyView,
    first: ReplyView,
    second: ReplyView,
    read: ReplyView,
    shown: ReplyView,
    closed: ReplyView,
    rest: Seq<StepView>,
    replies: Seq<ReplyView>,
)
    ensures
        trace(
            config,
            seq![opening_context()] + rest,
            context_replies(open, first, second, read, shown, closed) + replies,
        ) == context_turns(config.sepol_proc_domain@, open, first, second, read) + trace(
            config,
            rest,
            replies,
        ),
{
    let domain = config.sepol_proc_domain@;
    let all = context_replies(open, first, second, read, shown, closed) + replies;
    let opening = Request::OpenFile { path: text_path("/proc/self/attr/current"@) };
    let own = Request::WriteFile { text: "u:r:"@ + domain + ":s0\0"@ };
    let su = Request::WriteFile { text: "u:r:su:s0\0"@ };
    let message = Request::ErrorLine {
        text: "SeLinux context: "@ + without_trailing_nul(reply_text(read)),
    };
    // The message and the closing of the file, after a context was entered.
    let told = seq![shown, closed] + replies;
    assert(told =~= seq![shown] + (seq![closed] + replies));
    let tell = seq![ignoring(message), ignoring(Request::CloseFile)] + rest;
    assert(tell =~= seq![ignoring(message)] + (seq![ignoring(Request::CloseFile)] + rest));
    trace_ignores(
        config,
        message,
        seq![ignoring(Request::CloseFile)] + rest,
        shown,
        seq![closed] + replies,
    );
    trace_ignores(config, Request::CloseFile, rest, closed, replies);
    trace_performs(config, Request::ReadFile, Then::ContextRead, rest, read, told);
    if open !is Done {
        trace_performs(config, opening, Then::ContextOpened, rest, open, replies);
        assert(Seq::<StepView>::empty() + rest =~= rest);
    } else if first is Done {
        assert(all =~= seq![open] + (seq![first] + (seq![read] + told)));
        trace_performs(
            config,
            opening,
            Then::ContextOpened,
            rest,
            open,
            seq![first] + (seq![read] + told),
        );
        trace_performs(
            config,
            own,
            Then::ContextWritten { last: false },
            rest,
            first,
            seq![read] + told,
        );
    } else {
        let after: Seq<ReplyView> = if second is Done {
            seq![read] + told
        } else {
            seq![closed] + replies
        };
        assert(all =~= seq![open] + (seq![first] + (seq![second] + after)));
        trace_performs(
            config,
            opening,
            Then::ContextOpened,
            rest,
            open,
            seq![first] + (seq![second] + after),
        );
        trace_performs(
            config,
            own,
            Then::ContextWritten { last: false },
            rest,
            first,
            seq![second] + after,
        );
        trace_performs(config, su, Then::ContextWritten { last: true }, rest, second, after);
    }
    assert(trace(config, seq![opening_context()] + rest, all) =~= context_turns(
        domain,
        open,
        first,
        second,
        read,
    ) + trace(config, rest, replies));
}

/// Whether a command talks to the daemon.
pub open spec fn talks_to_daemon(action: MagiskAction) -> bool {
    match action {
        MagiskAction::Version(_) => true,
        MagiskAction::VersionCode(_) => true,
        MagiskAction::RemoveModules(_) => true,
        MagiskAction::Daemon(_) => true,
        MagiskAction::Stop(_) => true,
        MagiskAction::PostFsData(_) => true,
        MagiskAction::Service(_) => true,
        MagiskAction::BootComplete(_) => true,
        MagiskAction::ZygoteRestart(_) => true,
        MagiskAction::Sqlite(_) => true,
        _ => false,
    }
}

/// Whether a turn connects to the daemon.
pub open spec fn connects(turn: TurnView) -> bool {
    turn matches Turn::Perform { request } && request is Connect
}

/// Neither the step nor what follows from it connects to the daemon.
spec fn offline(step: StepView) -> bool {
    step matches Step::Perform { request, then } ==> request !is Connect && then !is Parsed
}

spec fn all_offline(pending: Seq<StepView>) -> bool {
    forall|i: int| 0 <= i < pending.len() ==> offline(#[trigger] pending[i])
}

proof fn offline_steps_stay_offline(config: Config, then: ThenView, reply: ReplyView)
    requires
        then !is Parsed,
    ensures
        all_offline(reaction(config, then, reply)),
{
}

proof fn offline_runs_do_not_connect(
    config: Config,
    pending: Seq<StepView>,
    replies: Seq<ReplyView>,
    index: int,
)
    requires
        all_offline(pending),
        0 <= index < trace(config, pending, replies).len(),
    ensures
        !connects(trace(config, pending, replies)[index]),
    decreases replies.len(),
{
    let (progress, turn) = advance(pending);
    if pending.len() > 0 {
        assert(offline(pending[0]));
    }
    if !(turn is Finished || replies.len() == 0) && index > 0 {
        let first = reaction(config, progress.waiting, replies[0]);
        offline_steps_stay_offline(config, progress.waiting, replies[0]);
        offline_runs_do_not_connect(
            config,
            first + progress.pending,
            replies.skip(1),
            index - 1,
        );
    }
}

/// A command that talks to the daemon connects to it once, before anything
/// else; any other command never does.
pub proof fn daemon_commands_connect_once_and_first(
    config: Config,
    action: MagiskAction,
    replies: Seq<ReplyView>,
    index: int,
)
    requires
        0 <= index < trace(config, commanded(config, action), replies).len(),
    ensures
        connects(trace(config, commanded(config, action), replies)[index]) <==> index == 0
            && talks_to_daemon(action),
{
    let pending = commanded(config, action);
    let (progress, turn) = advance(pending);
    if talks_to_daemon(action) {
        if index > 0 {
            let next = reaction(config, progress.waiting, replies[0]) + progress.pending;
            offline_steps_stay_offline(config, progress.waiting, replies[0]);
            assert(all_offline(progress.pending));
            assert(all_offline(next));
            offline_runs_do_not_connect(config, next, replies.skip(1), index - 1);
        }
    } else {
        assert(all_offline(pending));
        offline_runs_do_not_connect(config, pending, replies, index);
    }
}

/// Whether a turn opens a file.
pub open spec fn opens_file(turn: TurnView) -> bool {
    turn matches Turn::Perform { request } && request is OpenFile
}

spec fn none_opens(pending: Seq<StepView>) -> bool {
    forall|i: int|
        0 <= i < pending.len() ==> (#[trigger] pending[i] matches Step::Perform { request, .. }
            ==> request !is OpenFile)
}

proof fn commands_open_no_file(config: Config, action: MagiskAction)
    ensures
        none_opens(commanded(config, action)),
{
}

proof fn reactions_open_no_file(config: Config, then: ThenView, reply: ReplyView)
    ensures
        none_opens(reaction(config, then, reply)),
{
    if then is Parsed {
        if let Reply::Parsed { action } = reply {
            commands_open_no_file(config, action);
        }
    }
}

proof fn runs_open_no_file(
    config: Config,
    pending: Seq<StepView>,
    replies: Seq<ReplyView>,
    index: int,
)
    requires
        none_opens(pending),
        0 <= index < trace(config, pending, replies).len(),
    ensures
        !opens_file(trace(config, pending, replies)[index]),
    decreases replies.len(),
{
    let (progress, turn) = advance(pending);
    if !(turn is Finished || replies.len() == 0) && index > 0 {
        let first = reaction(config, progress.waiting, replies[0]);
        reactions_open_no_file(config, progress.waiting, replies[0]);
        runs_open_no_file(config, first + progress.pending, replies.skip(1), index - 1);
    }
}

/// The file of the process's own context is opened first of all where the first
/// argument is `--auto-selinux`; apart from that a run opens no file.
pub proof fn context_is_opened_at_most_once(
    config: Config,
    args: Seq<Seq<char>>,
    replies: Seq<ReplyView>,
    index: int,
)
    requires
        0 <= index < trace(config, beginning(config, args), replies).len(),
    ensures
        opens_file(trace(config, beginning(config, args), replies)[index]) <==> index == 0
            && args.len() >= 2 && args[1] == "--auto-selinux"@,
        opens_file(trace(config, beginning(config, args), replies)[index]) ==> trace(
            config,
            beginning(config, args),
            replies,
        )[index] == handing_out(
            Request::OpenFile { path: text_path("/proc/self/attr/current"@) },
        ),
{
    let pending = beginning(config, args);
    let (progress, turn) = advance(pending);
    if args.len() >= 2 && args[1] == "--auto-selinux"@ {
        assert(pending[0] == opening_context());
        if index > 0 {
            let next = reaction(config, progress.waiting, replies[0]) + progress.pending;
            reactions_open_no_file(config, progress.waiting, replies[0]);
            assert(none_opens(progress.pending));
            assert(none_opens(next));
            runs_open_no_file(config, next, replies.skip(1), index - 1);
        }
    } else {
        assert(none_opens(pending));
        runs_open_no_file(config, pending, replies, index);
    }
}

/// Removing all modules asks the daemon once, for a reboot exactly where the
/// command does not say otherwise, and returns what the daemon answers.
pub proof fn modules_are_removed_with_a_reboot_unless_told_otherwise(
    config: Config,
    args: Seq<Seq<char>>,
    command: RemoveModules,
    number: i32,
    replies: Seq<ReplyView>,
)
    requires
        args.len() >= 2,
        args[1] != "--auto-selinux"@,
    ensures
        trace(
            config,
            beginning(config, args),
            seq![
                Reply::Parsed { action: MagiskAction::RemoveModules(command) },
                Reply::Done,
                Reply::Done,
                Reply::Number { number },
            ] + replies,
        ) == seq![
            handing_out(
                Request::ParseArgs { command: seq![args[0]], args: seq!["--"@] + args.skip(1) },
            ),
            handing_out(Request::Connect { code: RequestCode::REMOVE_MODULES, create: false }),
            handing_out(Request::SendFlag { flag: !command.no_reboot }),
            handing_out(Request::ReceiveNumber),
            ending(Finish::Return { code: number }),
        ],
{
    let action = MagiskAction::RemoveModules(command);
    let rest = Seq::<StepView>::empty();
    let parsed: ReplyView = Reply::Parsed { action };
    let done: ReplyView = Reply::Done;
    let last = seq![Reply::Number { number }] + replies;
    let receive = seq![returning_number()] + rest;
    let connect = Request::Connect { code: RequestCode::REMOVE_MODULES, create: false };
    let send = Request::SendFlag { flag: !command.no_reboot };
    let all = seq![parsed, done, done, Reply::Number { number }] + replies;
    assert(all =~= seq![parsed] + (seq![done] + (seq![done] + last)));
    assert(beginning(config, args) =~= seq![parsing(args[0], args.skip(1))] + rest);
    trace_performs(
        config,
        Request::ParseArgs { command: seq![args[0]], args: seq!["--"@] + args.skip(1) },
        Then::Parsed,
        rest,
        parsed,
        seq![done] + (seq![done] + last),
    );
    assert(commanded(config, action) + rest =~= seq![requiring(connect)] + (seq![requiring(send)]
        + receive));
    trace_performs(
        config,
        connect,
        Then::Required,
        seq![requiring(send)] + receive,
        done,
        seq![done] + last,
    );
    assert(Seq::<StepView>::empty() + (seq![requiring(send)] + receive) =~= seq![requiring(send)]
        + receive);
    trace_performs(config, send, Then::Required, receive, done, last);
    assert(Seq::<StepView>::empty() + receive =~= receive);
    trace_performs(
        config,
        Request::ReceiveNumber,
        Then::ReturnNumber,
        rest,
        Reply::Number { number },
        replies,
    );
    trace_stops(config, Finish::Return { code: number }, rest, replies);
}

} // verus!
