//! Whole runs: what a host sees of one, given its replies.

use crate::action::Config;
use crate::protocol::{
    ignoring, Finish, ReplyView, RequestView, Step, StepView, Then, ThenView, Turn, TurnView,
};
use crate::session::{advance, reaction, resumed, Progress};
use vstd::prelude::*;

verus! {

/// The turns of a run with these pending steps, where the host gives these
/// replies. It goes on to the end of the run, or to the first request without
/// a reply.
pub open spec fn trace(config: Config, pending: Seq<StepView>, replies: Seq<ReplyView>) -> Seq<
    TurnView,
>
    decreases replies.len(),
{
    let (progress, turn) = advance(pending);
    if turn is Finished || replies.len() == 0 {
        seq![turn]
    } else {
        seq![turn] + trace(
            config,
            reaction(config, progress.waiting, replies[0]) + progress.pending,
            replies.skip(1),
        )
    }
}

/// The turn that hands out `request`.
pub open spec fn handing_out(request: RequestView) -> TurnView {
    Turn::Perform { request }
}

/// The turn that ends a run.
pub open spec fn ending(finish: Finish) -> TurnView {
    Turn::Finished { finish }
}

/// A run whose first step hands out a request does so, and goes by the reply.
pub proof fn trace_performs(
    config: Config,
    request: RequestView,
    then: ThenView,
    rest: Seq<StepView>,
    reply: ReplyView,
    replies: Seq<ReplyView>,
)
    ensures
        trace(config, seq![Step::Perform { request, then }] + rest, seq![reply] + replies)
            == seq![handing_out(request)] + trace(
            config,
            reaction(config, then, reply) + rest,
            replies,
        ),
{
    let pending = seq![Step::Perform { request, then }] + rest;
    let all = seq![reply] + replies;
    assert(pending.skip(1) =~= rest);
    assert(all.skip(1) =~= replies);
}

/// A request whose outcome does not matter is handed out, and the run goes on.
pub proof fn trace_ignores(
    config: Config,
    request: RequestView,
    rest: Seq<StepView>,
    reply: ReplyView,
    replies: Seq<ReplyView>,
)
    ensures
        trace(config, seq![ignoring(request)] + rest, seq![reply] + replies) == seq![
            handing_out(request),
        ] + trace(config, rest, replies),
{
    trace_performs(config, request, Then::Ignore, rest, reply, replies);
    assert(Seq::<StepView>::empty() + rest =~= rest);
}

/// A run whose first step is to stop ends there, whatever was to come.
pub proof fn trace_stops(
    config: Config,
    finish: Finish,
    rest: Seq<StepView>,
    replies: Seq<ReplyView>,
)
    ensures
        trace(config, seq![Step::Stop { finish }] + rest, replies) == seq![
            ending(finish),
        ],
{
}

/// The turns of a session that is resumed with one reply after the other are
/// those of the trace, in their order; one that is resumed after its end goes on
/// to tell how it ended.
///
/// `runs` holds where the session stands and what it asks for, at first and
/// after each reply.
pub proof fn resumed_sessions_follow_the_trace(
    config: Config,
    pending: Seq<StepView>,
    runs: Seq<(Progress, TurnView)>,
    replies: Seq<ReplyView>,
    index: int,
)
    requires
        runs.len() == replies.len() + 1,
        runs[0] == advance(pending),
        forall|i: int|
            0 <= i < replies.len() ==> runs[i + 1] == resumed(
                config,
                runs[i].0,
                #[trigger] replies[i],
            ),
        0 <= index < runs.len(),
    ensures
        index < trace(config, pending, replies).len() ==> runs[index].1 == trace(
            config,
            pending,
            replies,
        )[index],
        index >= trace(config, pending, replies).len() ==> {
            &&& trace(config, pending, replies).last() is Finished
            &&& runs[index].1 == trace(config, pending, replies).last()
        },
    decreases index,
{
    let (progress, turn) = advance(pending);
    if index > 0 {
        let next = reaction(config, progress.waiting, replies[0]) + progress.pending;
        assert(runs[1] == resumed(config, runs[0].0, replies[0]));
        assert(runs.skip(1)[0] == advance(next));
        assert forall|i: int| 0 <= i < replies.skip(1).len() implies runs.skip(1)[i + 1]
            == resumed(config, runs.skip(1)[i].0, #[trigger] replies.skip(1)[i]) by {
            assert(replies.skip(1)[i] == replies[i + 1]);
        }
        resumed_sessions_follow_the_trace(
            config,
            next,
            runs.skip(1),
            replies.skip(1),
            index - 1,
        );
        if turn is Finished {
            assert(next =~= pending);
        }
    }
}

/// Requests whose outcomes do not matter are all handed out, in their order, and
/// the run goes on.
pub proof fn trace_ignores_all(
    config: Config,
    requests: Seq<RequestView>,
    rest: Seq<StepView>,
    acks: Seq<ReplyView>,
    replies: Seq<ReplyView>,
)
    requires
        acks.len() == requests.len(),
    ensures
        trace(
            config,
            Seq::new(requests.len(), |i: int| ignoring(requests[i])) + rest,
            acks + replies,
        ) == Seq::new(requests.len(), |i: int| handing_out(requests[i])) + trace(
            config,
            rest,
            replies,
        ),
    decreases requests.len(),
{
    let steps = Seq::new(requests.len(), |i: int| ignoring(requests[i]));
    let turns = Seq::new(requests.len(), |i: int| handing_out(requests[i]));
    if requests.len() == 0 {
        assert(steps + rest =~= rest);
        assert(acks + replies =~= replies);
        assert(turns + trace(config, rest, replies) =~= trace(config, rest, replies));
    } else {
        let others = requests.skip(1);
        let later = Seq::new(others.len(), |i: int| ignoring(others[i]));
        assert(steps + rest =~= seq![ignoring(requests[0])] + (later + rest));
        assert(acks + replies =~= seq![acks[0]] + (acks.skip(1) + replies));
        trace_ignores(config, requests[0], later + rest, acks[0], acks.skip(1) + replies);
        trace_ignores_all(config, others, rest, acks.skip(1), replies);
        assert(turns + trace(config, rest, replies) =~= seq![handing_out(requests[0])] + (Seq::new(
            others.len(),
            |i: int| handing_out(others[i]),
        ) + trace(config, rest, replies)));
    }
}

} // verus!
