//! A run of the tool, from its command line to its end.

use crate::action::Config;
use crate::applet::{print_usage, printing_usage};
use crate::clone::{
    after_clone_listing, after_clone_probe, after_link_read, clone_entries, clone_entry,
    clone_link,
};
use crate::exec::{
    after_binary_probe, after_code, after_dir_change, after_number, after_required, after_row,
    after_search, after_text, binary_probed, commanded, dir_changed, number_received, required,
    show_found, show_number, show_row, show_text,
};
use crate::mount::{
    after_root_remount, after_tmpfs_mount, mounting_sbin, root_in_memory, root_probed,
    root_remounted, tmpfs_mounted,
};
use crate::path::{text_path, to_path};
use crate::protocol::{
    error_text, exit_code, exiting, failure_text, ignore, ignoring, steps, Finish, HostReply,
    HostStep, HostThen, HostTurn, Reply, ReplyView, Request, Step, StepView, Then, ThenView, Turn,
    TurnView,
};
use crate::recreate::{
    after_exists_probe, after_mirror_listing, after_recreate_probe, after_tmp_known,
    recreate_entries, recreate_file, recreate_listing, recreate_missing, text_names_kept,
};
use crate::selinux::{
    after_context_open, after_context_read, after_context_write, context_opened, context_read,
    context_written, handle_auto_selinux, opening_context,
};
use crate::text::{same_text, texts};
use vstd::prelude::*;

verus! {

/// Prints the usage message and exits with `code`.
pub open spec fn refusing(config: Config, code: int) -> Seq<StepView> {
    seq![printing_usage(texts(config.applet_names@)), exiting(code)]
}

/// Has the command `command` parsed with the arguments `args`, none of which is
/// taken for an option: a `--` goes before them.
pub open spec fn parsing(command: Seq<char>, args: Seq<Seq<char>>) -> StepView {
    Step::Perform {
        request: Request::ParseArgs { command: seq![command], args: seq!["--"@] + args },
        then: Then::Parsed,
    }
}

/// What a run begins with.
pub open spec fn beginning(config: Config, args: Seq<Seq<char>>) -> Seq<StepView> {
    if args.len() < 2 {
        refusing(config, 1)
    } else if args[1] != "--auto-selinux"@ {
        seq![parsing(args[0], args.skip(1))]
    } else if args.len() < 3 {
        seq![opening_context()] + refusing(config, 1)
    } else {
        seq![opening_context(), parsing(args[0], args.skip(2))]
    }
}

/// Runs the parsed command. A call for help prints the usage message and exits
/// with 0, an error prints itself before it and exits with 1.
pub open spec fn after_parse(config: Config, reply: ReplyView) -> Seq<StepView> {
    match reply {
        Reply::Parsed { action } => commanded(config, action),
        Reply::Help => refusing(config, 0),
        _ => seq![ignoring(Request::ErrorLine { text: failure_text(reply) })] + refusing(
            config,
            1,
        ),
    }
}

/// What comes next after a reply, before anything that was to come anyway.
pub open spec fn reaction(config: Config, then: ThenView, reply: ReplyView) -> Seq<StepView> {
    match then {
        Then::Ignore => Seq::empty(),
        Then::Required => after_required(reply),
        Then::Parsed => after_parse(config, reply),
        Then::ContextOpened => after_context_open(config.sepol_proc_domain@, reply),
        Then::ContextWritten { last } => after_context_write(last, reply),
        Then::ContextRead => after_context_read(reply),
        Then::ShowText => after_text(reply),
        Then::ShowNumber => after_number(reply),
        Then::ReturnNumber => after_code(reply),
        Then::ShowRow => after_row(reply),
        Then::ShowFound => after_search(reply),
        Then::RootProbed => mounting_sbin(config.internal_dir@, root_in_memory(reply)),
        Then::RootRemounted => after_root_remount(reply),
        Then::TmpfsMounted { dest, restore_root } => after_tmpfs_mount(dest, restore_root, reply),
        Then::CloneDir { src, dest } => after_clone_listing(src, dest, reply),
        Then::CloneEntry { src, dest } => after_clone_probe(src, dest, reply),
        Then::CloneLink { dest } => after_link_read(dest, reply),
        Then::RecreateSbin { mirror, use_bind_mount } => after_tmp_known(
            mirror,
            use_bind_mount,
            reply,
        ),
        Then::RecreateDir { mirror, magisk_tmp, use_bind_mount } => after_mirror_listing(
            mirror,
            magisk_tmp,
            use_bind_mount,
            reply,
        ),
        Then::RecreateEntry { src, sbin, keep_existing, use_bind_mount } => after_exists_probe(
            src,
            sbin,
            keep_existing,
            use_bind_mount,
            reply,
        ),
        Then::RecreateFile { src, sbin, use_bind_mount } => after_recreate_probe(
            src,
            sbin,
            use_bind_mount,
            reply,
        ),
        Then::RecreateLink { sbin } => after_link_read(text_path(sbin), reply),
        Then::CopyBinary { src, dest } => after_binary_probe(src, dest, reply),
        Then::DirChanged => after_dir_change(reply),
    }
}

/// Goes by the reply to the last request.
pub fn react(config: &Config, then: HostThen, reply: HostReply) -> (next: Vec<HostStep>)
    requires
        config.well_formed(),
    ensures
        steps(next@) == reaction(*config, then@, reply@),
        then@ is RecreateDir ==> text_names_kept(reply@),
{
    match then {
        Then::Ignore => {
            let next: Vec<HostStep> = Vec::new();
            assert(steps(next@) =~= Seq::<StepView>::empty());
            next
        },
        Then::Required => required(&reply),
        Then::Parsed => args_parsed(config, reply),
        Then::ContextOpened => context_opened(config, &reply),
        Then::ContextWritten { last } => context_written(last, &reply),
        Then::ContextRead => context_read(reply),
        Then::ShowText => show_text(reply),
        Then::ShowNumber => show_number(&reply),
        Then::ReturnNumber => number_received(&reply),
        Then::ShowRow => show_row(reply),
        Then::ShowFound => show_found(reply),
        Then::RootProbed => root_probed(config, &reply),
        Then::RootRemounted => root_remounted(reply),
        Then::TmpfsMounted { dest, restore_root } => tmpfs_mounted(
            dest.as_str(),
            restore_root,
            reply,
        ),
        Then::CloneDir { src, dest } => clone_entries(src.as_str(), dest.as_str(), &reply),
        Then::CloneEntry { src, dest } => clone_entry(src, dest, &reply),
        Then::CloneLink { dest } => clone_link(dest, reply),
        Then::RecreateSbin { mirror, use_bind_mount } => recreate_listing(
            mirror,
            use_bind_mount,
            reply,
        ),
        Then::RecreateDir { mirror, magisk_tmp, use_bind_mount } => recreate_entries(
            mirror.as_str(),
            magisk_tmp.as_str(),
            use_bind_mount,
            &reply,
        ),
        Then::RecreateEntry { src, sbin, keep_existing, use_bind_mount } => recreate_missing(
            src,
            sbin,
            keep_existing,
            use_bind_mount,
            &reply,
        ),
        Then::RecreateFile { src, sbin, use_bind_mount } => recreate_file(
            src,
            sbin,
            use_bind_mount,
            &reply,
        ),
        Then::RecreateLink { sbin } => clone_link(to_path(sbin.as_str()), reply),
        Then::CopyBinary { src, dest } => binary_probed(src.as_str(), dest.as_str(), &reply),
        Then::DirChanged => dir_changed(&reply),
    }
}

/// Goes on after the command line was parsed.
pub fn args_parsed(config: &Config, reply: HostReply) -> (next: Vec<HostStep>)
    requires
        config.well_formed(),
    ensures
        steps(next@) == after_parse(*config, reply@),
{
    let mut next: Vec<HostStep> = Vec::new();
    match reply {
        Reply::Parsed { action } => {
            return action.exec(config);
        },
        Reply::Help => {
            next.push(print_usage(config));
            next.push(exit_code(0));
        },
        _ => {
            next.push(ignore(Request::ErrorLine { text: error_text(reply) }));
            next.push(print_usage(config));
            next.push(exit_code(1));
        },
    }
    assert(steps(next@) =~= after_parse(*config, reply@));
    next
}

/// Where a run stands: what it is about to do, and how it goes by the reply to
/// the request that it handed out last.
pub struct Progress {
    pub pending: Seq<StepView>,
    pub waiting: ThenView,
}

/// What a run with these pending steps asks of its host, and where it stands
/// afterwards. A run out of steps returns 0; one that has ended stays so.
pub open spec fn advance(pending: Seq<StepView>) -> (Progress, TurnView) {
    if pending.len() == 0 {
        (
            Progress { pending, waiting: Then::Ignore },
            Turn::Finished { finish: Finish::Return { code: 0 } },
        )
    } else {
        match pending[0] {
            Step::Perform { request, then } => (
                Progress { pending: pending.skip(1), waiting: then },
                Turn::Perform { request },
            ),
            Step::Stop { finish } => (
                Progress { pending, waiting: Then::Ignore },
                Turn::Finished { finish },
            ),
        }
    }
}

/// How a run goes on after a reply.
pub open spec fn resumed(config: Config, progress: Progress, reply: ReplyView) -> (
    Progress,
    TurnView,
) {
    advance(reaction(config, progress.waiting, reply) + progress.pending)
}

/// A run of the tool.
pub struct Session {
    config: Config,
    /// What is to come, the next step last.
    stack: Vec<HostStep>,
    waiting: HostThen,
}

impl View for Session {
    type V = Progress;

    closed spec fn view(&self) -> Progress {
        Progress { pending: steps(self.stack@).reverse(), waiting: self.waiting@ }
    }
}

impl Session {
    /// The settings of the run.
    pub closed spec fn config(&self) -> Config {
        self.config
    }

    /// The settings are usable.
    pub open spec fn well_formed(&self) -> bool {
        self.config().well_formed()
    }

    /// Puts `next` before all that is to come.
    fn push_steps(&mut self, next: Vec<HostStep>)
        ensures
            final(self)@.pending == steps(next@) + old(self)@.pending,
            final(self)@.waiting == old(self)@.waiting,
            final(self).config() == old(self).config(),
    {
        let mut next: Vec<HostStep> = next;
        let ghost all = steps(next@) + self@.pending;
        while next.len() > 0
            invariant
                all == steps(next@) + self@.pending,
                self@.waiting == old(self)@.waiting,
                self.config() == old(self).config(),
            decreases next.len(),
        {
            let ghost before = self@.pending;
            let ghost rest = steps(next@);
            let step: HostStep = next.pop().unwrap();
            self.stack.push(step);
            assert(self@.pending =~= seq![step@] + before);
            assert(rest =~= steps(next@).push(step@));
            assert(steps(next@) + self@.pending =~= all);
        }
        assert(steps(next@) + self@.pending =~= self@.pending);
    }

    /// Takes the next step.
    fn step(&mut self) -> (turn: HostTurn)
        ensures
            (final(self)@, turn@) == advance(old(self)@.pending),
            final(self).config() == old(self).config(),
    {
        let ghost pending = self@.pending;
        match self.stack.pop() {
            None => {
                self.waiting = Then::Ignore;
                assert(self@.pending =~= pending);
                Turn::Finished { finish: Finish::Return { code: 0 } }
            },
            Some(Step::Perform { request, then }) => {
                self.waiting = then;
                assert(self@.pending =~= pending.skip(1));
                Turn::Perform { request }
            },
            Some(Step::Stop { finish }) => {
                self.stack.push(Step::Stop { finish });
                self.waiting = Then::Ignore;
                assert(self@.pending =~= pending);
                Turn::Finished { finish }
            },
        }
    }

    /// Goes on with the reply to the last request. A reply of another kind than
    /// the request asks for counts as a failure of the request.
    pub fn resume(&mut self, reply: HostReply) -> (turn: HostTurn)
        requires
            old(self).well_formed(),
        ensures
            (final(self)@, turn@) == resumed(old(self).config(), old(self)@, reply@),
            old(self)@.waiting is RecreateDir ==> text_names_kept(reply@),
            final(self).config() == old(self).config(),
            final(self).well_formed(),
    {
        let mut then: HostThen = Then::Ignore;
        std::mem::swap(&mut then, &mut self.waiting);
        let next: Vec<HostStep> = react(&self.config, then, reply);
        self.push_steps(next);
        self.step()
    }
}

/// Begins a run of the tool with its command line, the name of the command
/// first: the session, and what it asks of its host first.
pub fn magisk_main(config: Config, args: Vec<String>) -> (run: (Session, HostTurn))
    requires
        config.well_formed(),
    ensures
        (run.0@, run.1@) == advance(beginning(config, texts(args@))),
        run.0.config() == config,
        run.0.well_formed(),
{
    let mut cmds: Vec<String> = args;
    let mut next: Vec<HostStep> = Vec::new();
    if cmds.len() < 2 {
        next.push(print_usage(&config));
        next.push(exit_code(1));
    } else {
        if same_text(cmds[1].as_str(), "--auto-selinux") {
            next.push(handle_auto_selinux());
            let _ = cmds.remove(1);
        }
        if cmds.len() < 2 {
            next.push(print_usage(&config));
            next.push(exit_code(1));
        } else {
            let command: String = cmds.remove(0);
            cmds.insert(0, "--".to_string());
            let mut name: Vec<String> = Vec::new();
            name.push(command);
            assert(texts(name@) =~= seq![args@[0]@]);
            next.push(
                Step::Perform {
                    request: Request::ParseArgs { command: name, args: cmds },
                    then: Then::Parsed,
                },
            );
            assert(texts(cmds@) =~= seq!["--"@] + texts(args@).skip(
                if args@[1]@ == "--auto-selinux"@ {
                    2
                } else {
                    1
                },
            ));
        }
    }
    assert(steps(next@) =~= beginning(config, texts(args@)));
    let mut session: Session = Session { config, stack: Vec::new(), waiting: Then::Ignore };
    session.push_steps(next);
    assert(session@.pending =~= steps(next@));
    let turn: HostTurn = session.step();
    (session, turn)
}

} // verus!
