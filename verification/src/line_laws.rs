//! What a command line comes to, from its first request to the command.

use crate::action::Config;
use crate::applet::{usage, USAGE};
use crate::command_laws::run;
use crate::exec::commanded;
use crate::laws::{
    context_replies, context_turns, entering_a_context_never_fails,
    unparsed_command_lines_are_refused, usage_and_exit,
};
use crate::protocol::{Finish, Reply, ReplyView, Request, RequestView, StepView, Then, TurnView};
use crate::selinux::opening_context;
use crate::session::{beginning, parsing, refusing};
use crate::setup_laws::applets;
use crate::text::{separated, texts};
use crate::trace::{ending, handing_out, trace, trace_performs};
use vstd::prelude::*;

verus! {

/// The usage message, with all applets.
pub open spec fn usage_message(config: Config) -> RequestView {
    Request::ErrorLine { text: USAGE@ + separated(applets(config), ", "@) + "\n"@ }
}

/// The usage message and the end of the process with this code.
pub open spec fn usage_turns(config: Config, code: i32) -> Seq<TurnView> {
    seq![handing_out(usage_message(config)), ending(Finish::Exit { code })]
}

/// The request to parse the arguments of a command, after a `--`.
pub open spec fn parse_turn(command: Seq<char>, args: Seq<Seq<char>>) -> TurnView {
    handing_out(Request::ParseArgs { command: seq![command], args: seq!["--"@] + args })
}

/// What follows from what a command line parses to: the command runs; a call for
/// help gets the usage message; an error gets itself and the usage message.
pub open spec fn outcome(config: Config, reply: ReplyView, replies: Seq<ReplyView>) -> Seq<
    TurnView,
> {
    match reply {
        Reply::Parsed { action } => run(config, action, replies),
        Reply::Help => usage_turns(config, 0),
        Reply::Failed { error } => seq![handing_out(Request::ErrorLine { text: error })]
            + usage_turns(config, 1),
        _ => seq![handing_out(Request::ErrorLine { text: Seq::empty() })] + usage_turns(config, 1),
    }
}

proof fn same_usage(config: Config)
    ensures
        usage_message(config) == (Request::<Seq<char>, Seq<u8>, Seq<Seq<char>>>::ErrorLine {
            text: usage(texts(config.applet_names@)),
        }),
{
    assert(texts(config.applet_names@) =~= applets(config));
}

proof fn parses(
    config: Config,
    command: Seq<char>,
    args: Seq<Seq<char>>,
    reply: ReplyView,
    replies: Seq<ReplyView>,
)
    requires
        replies.len() >= 2,
    ensures
        trace(config, seq![parsing(command, args)], seq![reply] + replies) == seq![
            parse_turn(command, args),
        ] + outcome(config, reply, replies),
{
    let rest = Seq::<StepView>::empty();
    same_usage(config);
    if let Reply::Parsed { action } = reply {
        assert(seq![parsing(command, args)] =~= seq![parsing(command, args)] + rest);
        trace_performs(
            config,
            Request::ParseArgs { command: seq![command], args: seq!["--"@] + args },
            Then::Parsed,
            rest,
            reply,
            replies,
        );
        assert(commanded(config, action) + rest =~= commanded(
            config,
            action,
        ));
    } else {
        unparsed_command_lines_are_refused(config, command, args, reply, replies);
        assert(trace(config, seq![parsing(command, args)], seq![reply] + replies) =~= seq![
            parse_turn(command, args),
        ] + outcome(config, reply, replies));
    }
}

/// A command line without a command gets the usage message, and the tool exits
/// with 1.
pub proof fn missing_commands_get_the_usage(
    config: Config,
    args: Seq<Seq<char>>,
    replies: Seq<ReplyView>,
)
    requires
        args.len() < 2,
        replies.len() >= 1,
    ensures
        trace(config, beginning(config, args), replies) == usage_turns(config, 1),
{
    same_usage(config);
    let rest = Seq::<StepView>::empty();
    assert(refusing(config, 1) + rest =~= refusing(config, 1));
    assert(replies =~= seq![replies[0]] + replies.skip(1));
    usage_and_exit(config, 1, rest, replies[0], replies.skip(1));
}

/// A command line is parsed whole, after a `--` and under its own command name,
/// and its outcome follows.
pub proof fn command_lines_are_parsed_whole(
    config: Config,
    args: Seq<Seq<char>>,
    reply: ReplyView,
    replies: Seq<ReplyView>,
)
    requires
        args.len() >= 2,
        args[1] != "--auto-selinux"@,
        replies.len() >= 2,
    ensures
        trace(config, beginning(config, args), seq![reply] + replies) == seq![
            parse_turn(args[0], args.skip(1)),
        ] + outcome(config, reply, replies),
{
    parses(config, args[0], args.skip(1), reply, replies);
}

/// After `--auto-selinux` a context is entered if one can be, and the rest of the
/// command line is parsed whole; if there is none, it gets the usage message.
pub proof fn auto_selinux_goes_before_the_command(
    config: Config,
    args: Seq<Seq<char>>,
    open: ReplyView,
    first: ReplyView,
    second: ReplyView,
    read: ReplyView,
    shown: ReplyView,
    closed: ReplyView,
    reply: ReplyView,
    replies: Seq<ReplyView>,
)
    requires
        args.len() >= 2,
        args[1] == "--auto-selinux"@,
        replies.len() >= 2,
    ensures
        trace(
            config,
            beginning(config, args),
            context_replies(open, first, second, read, shown, closed) + (seq![reply] + replies),
        ) == context_turns(config.sepol_proc_domain@, open, first, second, read) + (if args.len()
            == 2 {
            usage_turns(config, 1)
        } else {
            seq![parse_turn(args[0], args.skip(2))] + outcome(config, reply, replies)
        }),
{
    let rest = if args.len() == 2 {
        refusing(config, 1)
    } else {
        seq![parsing(args[0], args.skip(2))]
    };
    assert(beginning(config, args) =~= seq![opening_context()] + rest);
    entering_a_context_never_fails(
        config,
        open,
        first,
        second,
        read,
        shown,
        closed,
        rest,
        seq![reply] + replies,
    );
    if args.len() == 2 {
        same_usage(config);
        let none = Seq::<StepView>::empty();
        assert(refusing(config, 1) + none =~= refusing(config, 1));
        usage_and_exit(config, 1, none, reply, replies);
    } else {
        parses(config, args[0], args.skip(2), reply, replies);
    }
}

} // verus!
