//! Entering an SELinux context by hand.

use crate::action::Config;
use crate::path::{text_path, to_path};
use crate::protocol::{
    ignore, ignoring, received_text, reply_text, steps, HostReply, HostStep, Reply, ReplyView,
    Request, Step, StepView, Then,
};
use crate::text::{join2, join3, trim_trailing_nul, without_trailing_nul};
use vstd::prelude::*;

verus! {

/// Opens the file through which a process sees and sets its own context.
pub open spec fn opening_context() -> StepView {
    Step::Perform {
        request: Request::OpenFile { path: text_path("/proc/self/attr/current"@) },
        then: Then::ContextOpened,
    }
}

/// Begins to enter the context of the tool, or that of `su`.
pub fn handle_auto_selinux() -> (step: HostStep)
    ensures
        step@ == opening_context(),
{
    Step::Perform {
        request: Request::OpenFile { path: to_path("/proc/self/attr/current") },
        then: Then::ContextOpened,
    }
}

/// Tries to enter `context`.
pub open spec fn entering(context: Seq<char>, last: bool) -> StepView {
    Step::Perform {
        request: Request::WriteFile { text: context },
        then: Then::ContextWritten { last },
    }
}

/// Tries the context of the tool first, where the file could be opened.
pub open spec fn after_context_open(domain: Seq<char>, reply: ReplyView) -> Seq<StepView> {
    if reply is Done {
        seq![entering("u:r:"@ + domain + ":s0\0"@, false)]
    } else {
        Seq::empty()
    }
}

/// Goes on after the attempt to open the file of the process's context.
pub fn context_opened(config: &Config, reply: &HostReply) -> (next: Vec<HostStep>)
    ensures
        steps(next@) == after_context_open(config.sepol_proc_domain@, reply@),
{
    let mut next: Vec<HostStep> = Vec::new();
    if let Reply::Done = reply {
        let text: String = join3("u:r:", config.sepol_proc_domain.as_str(), ":s0\0");
        next.push(
            Step::Perform {
                request: Request::WriteFile { text },
                then: Then::ContextWritten { last: false },
            },
        );
    }
    assert(steps(next@) =~= after_context_open(config.sepol_proc_domain@, reply@));
    next
}

/// Reads the context back where one was entered; else tries that of `su`, and
/// gives up after that.
pub open spec fn after_context_write(last: bool, reply: ReplyView) -> Seq<StepView> {
    if reply is Done {
        seq![Step::Perform { request: Request::ReadFile, then: Then::ContextRead }]
    } else if last {
        seq![ignoring(Request::CloseFile)]
    } else {
        seq![entering("u:r:su:s0\0"@, true)]
    }
}

/// Goes on after the attempt to enter a context.
pub fn context_written(last: bool, reply: &HostReply) -> (next: Vec<HostStep>)
    ensures
        steps(next@) == after_context_write(last, reply@),
{
    let mut next: Vec<HostStep> = Vec::new();
    match reply {
        Reply::Done => {
            next.push(Step::Perform { request: Request::ReadFile, then: Then::ContextRead });
        },
        _ => {
            if last {
                next.push(ignore(Request::CloseFile));
            } else {
                next.push(
                    Step::Perform {
                        request: Request::WriteFile { text: "u:r:su:s0\0".to_string() },
                        then: Then::ContextWritten { last: true },
                    },
                );
            }
        },
    }
    assert(steps(next@) =~= after_context_write(last, reply@));
    next
}

/// Shows the context that was read, without the NULs at its end.
pub open spec fn after_context_read(reply: ReplyView) -> Seq<StepView> {
    seq![
        ignoring(
            Request::ErrorLine {
                text: "SeLinux context: "@ + without_trailing_nul(reply_text(reply)),
            },
        ),
        ignoring(Request::CloseFile),
    ]
}

/// Goes on after the context was read back.
pub fn context_read(reply: HostReply) -> (next: Vec<HostStep>)
    ensures
        steps(next@) == after_context_read(reply@),
{
    let text: String = received_text(reply);
    let current: String = trim_trailing_nul(text.as_str());
    let mut next: Vec<HostStep> = Vec::new();
    next.push(
        ignore(Request::ErrorLine { text: join2("SeLinux context: ", current.as_str()) }),
    );
    next.push(ignore(Request::CloseFile));
    assert(steps(next@) =~= after_context_read(reply@));
    next
}

} // verus!
