//! Whole runs: what a sequence of events leads to, and what holds of every run.

use crate::message::{message_views, Message, MessageView};
use crate::runner::{
    announcement, judge_spec, launch, pending, react, Action, ActionView, Event, EventView, Phase,
    Runner, Verdict, FAILURE, PRIVILEGED,
};
use crate::step::{step_views, Step, StepView};
use vstd::prelude::*;
use vstd::seq_lib::lemma_seq_concat_contains_all_elements;

verus! {

/// What a run has come to.
pub struct Trace {
    /// Where the run stands in the end.
    pub phase: Phase,
    /// Everything that was said, in order.
    pub messages: Seq<MessageView>,
    /// Every launch that was asked for, in order.
    pub launched: Seq<ActionView>,
}

/// The launch that entering `phase` asks for, if it asks for one.
pub open spec fn started(steps: Seq<StepView>, phase: Phase) -> Seq<ActionView> {
    if phase is Running {
        seq![pending(steps, phase)]
    } else {
        seq![]
    }
}

/// The run that begins in `phase` and is handed `events` one after the other.
/// An event that cannot follow what is pending changes nothing.
pub open spec fn replay(steps: Seq<StepView>, phase: Phase, events: Seq<EventView>) -> Trace
    decreases events.len(),
{
    if events.len() == 0 {
        Trace { phase, messages: seq![], launched: seq![] }
    } else {
        match react(steps, phase, events[0]) {
            Some(reaction) => {
                let rest = replay(steps, reaction.phase, events.drop_first());
                Trace {
                    phase: rest.phase,
                    messages: reaction.messages + rest.messages,
                    launched: started(steps, reaction.phase) + rest.launched,
                }
            },
            None => replay(steps, phase, events.drop_first()),
        }
    }
}

/// The run of `steps` from the beginning.
pub open spec fn run(steps: Seq<StepView>, events: Seq<EventView>) -> Trace {
    replay(steps, Phase::Start, events)
}

/// The view of each event, in order.
pub open spec fn event_views(events: Seq<Event>) -> Seq<EventView> {
    Seq::new(events.len(), |i: int| events[i]@)
}

/// The view of each action, in order.
pub open spec fn action_views(actions: Seq<Action>) -> Seq<ActionView> {
    Seq::new(actions.len(), |i: int| actions[i]@)
}

/// What a rehearsal came to.
#[derive(Debug, PartialEq, Eq)]
pub struct Rehearsal {
    /// Where the run stands in the end.
    pub phase: Phase,
    /// Everything that was said, in order.
    pub messages: Vec<Message>,
    /// Every launch that was asked for, in order.
    pub launched: Vec<Action>,
}

impl View for Rehearsal {
    type V = Trace;

    open spec fn view(&self) -> Trace {
        Trace {
            phase: self.phase,
            messages: message_views(self.messages@),
            launched: action_views(self.launched@),
        }
    }
}

/// Goes through a run of `steps` without doing anything outside: the
/// events are taken as what happened, one after the other, and what the run
/// says and asks to be launched is recorded.
pub fn rehearse(steps: Vec<Step>, events: Vec<Event>) -> (rehearsal: Rehearsal)
    ensures
        rehearsal@ == run(step_views(steps@), event_views(events@)),
{
    let ghost plan = step_views(steps@);
    let ghost script = event_views(events@);
    let mut runner = Runner::new(steps);
    let mut messages: Vec<Message> = Vec::new();
    let mut launched: Vec<Action> = Vec::new();
    assert(script.skip(0) =~= script);
    for event in iter: events
        invariant
            runner@.steps == plan,
            runner@.wf(),
            iter.seq().len() == script.len(),
            forall|k: int| 0 <= k < script.len() ==> iter.seq()[k]@ == script[k],
            run(plan, script) == ({
                let rest = replay(plan, runner@.phase, script.skip(iter.index() as int));
                Trace {
                    phase: rest.phase,
                    messages: message_views(messages@) + rest.messages,
                    launched: action_views(launched@) + rest.launched,
                }
            }),
    {
        let ghost before = runner@.phase;
        let ghost said_before = message_views(messages@);
        let ghost launched_before = action_views(launched@);
        let ghost later = script.skip(iter.index() + 1);
        proof {
            assert(script.skip(iter.index() as int) =~= seq![event@] + later);
            assert((seq![event@] + later).drop_first() =~= later);
        }
        match runner.advance(event) {
            Some(mut said) => {
                let ghost reaction = react(plan, before, event@)->0;
                messages.append(&mut said);
                let action = runner.pending();
                match action {
                    Action::Launch { .. } => {
                        launched.push(action);
                    },
                    _ => {},
                }
                proof {
                    let rest = replay(plan, reaction.phase, later);
                    assert(message_views(messages@) + rest.messages =~= said_before + (
                    reaction.messages + rest.messages));
                    assert(action_views(launched@) + rest.launched =~= launched_before + (started(
                        plan,
                        reaction.phase,
                    ) + rest.launched));
                }
            },
            None => {},
        }
    }
    Rehearsal { phase: runner.phase(), messages, launched }
}

/// The launches of the steps from position `from` up to, not including, `to`.
pub open spec fn launches(steps: Seq<StepView>, from: int, to: int) -> Seq<ActionView> {
    Seq::new((to - from) as nat, |k: int| launch(steps[from + k]))
}

/// What is said before the steps from position `from` up to, not including,
/// `to`, one announcement after the other.
pub open spec fn announcements(steps: Seq<StepView>, from: int, to: int) -> Seq<MessageView>
    decreases to - from,
{
    if from >= to {
        seq![]
    } else {
        announcement(steps[from]) + announcements(steps, from + 1, to)
    }
}

/// `count` commands in a row that end with exit code zero.
pub open spec fn successes(count: nat) -> Seq<EventView> {
    Seq::new(count, |k: int| EventView::Exited(Some(0i32)))
}

/// A run that reacts to `event` goes on from the reaction with the events that follow.
pub proof fn lemma_replay_accepted(
    steps: Seq<StepView>,
    phase: Phase,
    event: EventView,
    rest: Seq<EventView>,
)
    requires
        react(steps, phase, event) is Some,
    ensures
        replay(steps, phase, seq![event] + rest) == ({
            let reaction = react(steps, phase, event)->0;
            let after = replay(steps, reaction.phase, rest);
            Trace {
                phase: after.phase,
                messages: reaction.messages + after.messages,
                launched: started(steps, reaction.phase) + after.launched,
            }
        }),
{
    assert((seq![event] + rest).drop_first() =~= rest);
}

/// A finished run stays finished: whatever comes, its exit code stands,
/// nothing more is said and nothing is launched.
pub proof fn lemma_finished_is_final(steps: Seq<StepView>, code: i32, events: Seq<EventView>)
    ensures
        replay(steps, Phase::Finished(code), events) == (Trace {
            phase: Phase::Finished(code),
            messages: seq![],
            launched: seq![],
        }),
    decreases events.len(),
{
    if events.len() > 0 {
        lemma_finished_is_final(steps, code, events.drop_first());
    }
}

/// A caller without the privileged identity is told so and the run ends
/// with the failure code; nothing is launched, whatever follows.
pub proof fn lemma_unprivileged_launches_nothing(
    steps: Seq<StepView>,
    identity: u32,
    rest: Seq<EventView>,
)
    requires
        identity != PRIVILEGED,
    ensures
        run(steps, seq![EventView::Identity(identity)] + rest) == (Trace {
            phase: Phase::Finished(FAILURE),
            messages: seq![MessageView::NotPrivileged],
            launched: seq![],
        }),
{
    lemma_replay_accepted(steps, Phase::Start, EventView::Identity(identity), rest);
    lemma_finished_is_final(steps, FAILURE, rest);
}

/// The banner is shown to the privileged identity, before anything else,
/// and to no other.
pub proof fn lemma_banner_is_for_the_privileged(
    steps: Seq<StepView>,
    identity: u32,
    rest: Seq<EventView>,
)
    ensures
        run(steps, seq![EventView::Identity(identity)] + rest).messages.contains(
            MessageView::Banner,
        ) <==> identity == PRIVILEGED,
        identity == PRIVILEGED ==> run(
            steps,
            seq![EventView::Identity(identity)] + rest,
        ).messages[0] == MessageView::Banner,
{
    if identity == PRIVILEGED {
        lemma_replay_accepted(steps, Phase::Start, EventView::Identity(identity), rest);
    } else {
        lemma_unprivileged_launches_nothing(steps, identity, rest);
    }
}

/// A run in which a step is running and the next `count` commands succeed
/// announces and launches the `count` steps that follow, in order, and goes
/// on from the last of them.
pub proof fn lemma_successes_launch_in_order(
    steps: Seq<StepView>,
    index: usize,
    count: nat,
    rest: Seq<EventView>,
)
    requires
        index + count < steps.len() <= usize::MAX,
    ensures
        replay(steps, Phase::Running(index), successes(count) + rest) == ({
            let after = replay(steps, Phase::Running((index + count) as usize), rest);
            Trace {
                phase: after.phase,
                messages: announcements(steps, index + 1, index + count + 1) + after.messages,
                launched: launches(steps, index + 1, index + count + 1) + after.launched,
            }
        }),
    decreases count,
{
    if count > 0 {
        let after = replay(steps, Phase::Running((index + count) as usize), rest);
        let success = EventView::Exited(Some(0i32));
        let later = successes((count - 1) as nat) + rest;
        assert(successes(count) + rest =~= seq![success] + later);
        lemma_replay_accepted(steps, Phase::Running(index), success, later);
        lemma_successes_launch_in_order(steps, (index + 1) as usize, (count - 1) as nat, rest);
        let next = Phase::Running((index + 1) as usize);
        assert(started(steps, next) + (launches(steps, index + 2, index + count + 1)
            + after.launched) =~= launches(steps, index + 1, index + count + 1) + after.launched);
        assert(announcement(steps[index + 1]) + (announcements(
            steps,
            index + 2,
            index + count + 1,
        ) + after.messages) =~= announcements(steps, index + 1, index + count + 1)
            + after.messages);
    }
}

/// A privileged caller is shown the banner and the first step is announced
/// and launched; while the commands succeed, the steps that follow are
/// announced and launched in order.
pub proof fn lemma_privileged_run_begins(steps: Seq<StepView>, done: nat, rest: Seq<EventView>)
    requires
        done < steps.len() <= usize::MAX,
    ensures
        run(steps, seq![EventView::Identity(PRIVILEGED)] + successes(done) + rest) == ({
            let after = replay(steps, Phase::Running(done as usize), rest);
            Trace {
                phase: after.phase,
                messages: seq![MessageView::Banner] + announcements(steps, 0, (done + 1) as int)
                    + after.messages,
                launched: launches(steps, 0, (done + 1) as int) + after.launched,
            }
        }),
{
    let identity = EventView::Identity(PRIVILEGED);
    let after = replay(steps, Phase::Running(done as usize), rest);
    assert(seq![identity] + successes(done) + rest =~= seq![identity] + (successes(done) + rest));
    lemma_replay_accepted(steps, Phase::Start, identity, successes(done) + rest);
    lemma_successes_launch_in_order(steps, 0, done, rest);
    assert(started(steps, Phase::Running(0)) + (launches(steps, 1, (done + 1) as int) + after.launched)
        =~= launches(steps, 0, (done + 1) as int) + after.launched);
    assert((seq![MessageView::Banner] + announcement(steps[0])) + (announcements(
        steps,
        1,
        (done + 1) as int,
    ) + after.messages) =~= seq![MessageView::Banner] + announcements(steps, 0, (done + 1) as int)
        + after.messages);
}

/// Where the caller is privileged and every command succeeds, every step is
/// announced and launched, in order, success is reported and the exit code
/// is zero.
pub proof fn lemma_all_succeed(steps: Seq<StepView>, rest: Seq<EventView>)
    requires
        steps.len() <= usize::MAX,
    ensures
        run(steps, seq![EventView::Identity(PRIVILEGED)] + successes(steps.len()) + rest) == (
        Trace {
            phase: Phase::Finished(0),
            messages: seq![MessageView::Banner] + announcements(steps, 0, steps.len() as int)
                + seq![MessageView::Success],
            launched: launches(steps, 0, steps.len() as int),
        }),
{
    let identity = EventView::Identity(PRIVILEGED);
    let events = seq![identity] + successes(steps.len()) + rest;
    if steps.len() == 0 {
        lemma_replay_accepted(steps, Phase::Start, identity, rest);
        lemma_finished_is_final(steps, 0, rest);
        assert(run(steps, events).launched =~= launches(steps, 0, 0));
    } else {
        let done = (steps.len() - 1) as nat;
        let success = EventView::Exited(Some(0i32));
        assert(events =~= seq![identity] + successes(done) + (seq![success] + rest));
        lemma_privileged_run_begins(steps, done, seq![success] + rest);
        lemma_replay_accepted(steps, Phase::Running(done as usize), success, rest);
        lemma_finished_is_final(steps, 0, rest);
    }
}

/// Where a command fails after `done` commands have succeeded, the failure
/// is reported with the command's exit code, no later step is launched, and
/// the run ends with the exit code that the failure calls for.
pub proof fn lemma_failure_ends_the_run(
    steps: Seq<StepView>,
    done: nat,
    code: Option<i32>,
    rest: Seq<EventView>,
)
    requires
        done < steps.len() <= usize::MAX,
        judge_spec(code) is Failure,
    ensures
        run(
            steps,
            seq![EventView::Identity(PRIVILEGED)] + successes(done) + seq![EventView::Exited(code)]
                + rest,
        ) == (Trace {
            phase: Phase::Finished(judge_spec(code)->0),
            messages: seq![MessageView::Banner] + announcements(steps, 0, (done + 1) as int)
                + seq![MessageView::CommandFailed(code)],
            launched: launches(steps, 0, (done + 1) as int),
        }),
{
    let identity = EventView::Identity(PRIVILEGED);
    let failure = EventView::Exited(code);
    let events = seq![identity] + successes(done) + seq![failure] + rest;
    assert(events =~= seq![identity] + successes(done) + (seq![failure] + rest));
    lemma_privileged_run_begins(steps, done, seq![failure] + rest);
    lemma_replay_accepted(steps, Phase::Running(done as usize), failure, rest);
    lemma_finished_is_final(steps, judge_spec(code)->0, rest);
}

/// Where a command cannot be launched after `done` commands have succeeded,
/// the cause is reported, no later step is launched, and the run ends with
/// the failure code.
pub proof fn lemma_launch_failure_ends_the_run(
    steps: Seq<StepView>,
    done: nat,
    cause: Seq<char>,
    rest: Seq<EventView>,
)
    requires
        done < steps.len() <= usize::MAX,
    ensures
        run(
            steps,
            seq![EventView::Identity(PRIVILEGED)] + successes(done)
                + seq![EventView::LaunchFailed(cause)] + rest,
        ) == (Trace {
            phase: Phase::Finished(FAILURE),
            messages: seq![MessageView::Banner] + announcements(steps, 0, (done + 1) as int)
                + seq![MessageView::Error(cause)],
            launched: launches(steps, 0, (done + 1) as int),
        }),
{
    let identity = EventView::Identity(PRIVILEGED);
    let failure = EventView::LaunchFailed(cause);
    let events = seq![identity] + successes(done) + seq![failure] + rest;
    assert(events =~= seq![identity] + successes(done) + (seq![failure] + rest));
    lemma_privileged_run_begins(steps, done, seq![failure] + rest);
    lemma_replay_accepted(steps, Phase::Running(done as usize), failure, rest);
    lemma_finished_is_final(steps, FAILURE, rest);
}

/// What holds of a run whose launches begin with the step at `from`: the
/// launches follow the steps without a gap, a step that is still running is
/// the last that was launched, and success is said exactly where every step
/// was launched and the exit code is zero.
spec fn orderly(steps: Seq<StepView>, from: int, trace: Trace) -> bool {
    let upto = from + trace.launched.len();
    &&& upto <= steps.len()
    &&& trace.launched == launches(steps, from, upto)
    &&& trace.phase matches Phase::Running(index) ==> index + 1 == upto
    &&& trace.phase == Phase::Finished(0) ==> upto == steps.len()
    &&& trace.messages.contains(MessageView::Success) <==> trace.phase == Phase::Finished(0)
}

/// Every run that goes on from a running step is orderly.
proof fn lemma_running_is_orderly(steps: Seq<StepView>, index: usize, events: Seq<EventView>)
    requires
        index < steps.len() <= usize::MAX,
    ensures
        orderly(steps, index + 1, replay(steps, Phase::Running(index), events)),
        !(replay(steps, Phase::Running(index), events).phase is Start),
    decreases events.len(),
{
    broadcast use lemma_seq_concat_contains_all_elements;

    let trace = replay(steps, Phase::Running(index), events);
    if events.len() == 0 {
        assert(trace.launched =~= launches(steps, index + 1, index + 1));
    } else {
        let rest = events.drop_first();
        match events[0] {
            EventView::Identity(_) => {
                lemma_running_is_orderly(steps, index, rest);
            },
            EventView::LaunchFailed(_) => {
                lemma_finished_is_final(steps, FAILURE, rest);
                assert(trace.launched =~= launches(steps, index + 1, index + 1));
            },
            EventView::Exited(code) => {
                match judge_spec(code) {
                    Verdict::Failure(exit_code) => {
                        lemma_finished_is_final(steps, exit_code, rest);
                        assert(trace.launched =~= launches(steps, index + 1, index + 1));
                    },
                    Verdict::Success => {
                        if index + 1 < steps.len() {
                            let next = (index + 1) as usize;
                            lemma_running_is_orderly(steps, next, rest);
                            assert(trace.launched =~= launches(
                                steps,
                                index + 1,
                                index + 1 + trace.launched.len(),
                            ));
                        } else {
                            lemma_finished_is_final(steps, 0, rest);
                            assert(trace.launched =~= launches(steps, index + 1, index + 1));
                            assert(trace.messages[0] == MessageView::Success);
                        }
                    },
                }
            },
        }
    }
}

/// Every run from the beginning is orderly.
proof fn lemma_run_is_orderly(steps: Seq<StepView>, events: Seq<EventView>)
    requires
        steps.len() <= usize::MAX,
    ensures
        orderly(steps, 0, run(steps, events)),
    decreases events.len(),
{
    broadcast use lemma_seq_concat_contains_all_elements;

    let trace = run(steps, events);
    if events.len() == 0 {
        assert(trace.launched =~= launches(steps, 0, 0));
    } else {
        let rest = events.drop_first();
        match events[0] {
            EventView::Exited(_) | EventView::LaunchFailed(_) => {
                lemma_run_is_orderly(steps, rest);
            },
            EventView::Identity(identity) => {
                if identity != PRIVILEGED {
                    lemma_finished_is_final(steps, FAILURE, rest);
                    assert(trace.launched =~= launches(steps, 0, 0));
                } else if steps.len() > 0 {
                    lemma_running_is_orderly(steps, 0, rest);
                    assert(trace.launched =~= launches(steps, 0, trace.launched.len() as int));
                } else {
                    lemma_finished_is_final(steps, 0, rest);
                    assert(trace.launched =~= launches(steps, 0, 0));
                    assert(trace.messages[1] == MessageView::Success);
                }
            },
        }
    }
}

/// In every run the steps are launched in their order, from the first on
/// and without a gap; a step that is running is the last that was launched.
pub proof fn lemma_steps_are_launched_in_order(steps: Seq<StepView>, events: Seq<EventView>)
    requires
        steps.len() <= usize::MAX,
    ensures
        run(steps, events).launched.len() <= steps.len(),
        run(steps, events).launched == launches(
            steps,
            0,
            run(steps, events).launched.len() as int,
        ),
        run(steps, events).phase matches Phase::Running(index) ==> index + 1 == run(
            steps,
            events,
        ).launched.len(),
{
    lemma_run_is_orderly(steps, events);
}

/// Success is said in exactly the runs that end with exit code zero, and in
/// those every step was launched.
pub proof fn lemma_success_is_said_only_at_exit_zero(
    steps: Seq<StepView>,
    events: Seq<EventView>,
)
    requires
        steps.len() <= usize::MAX,
    ensures
        run(steps, events).messages.contains(MessageView::Success) <==> run(steps, events).phase
            == Phase::Finished(0),
        run(steps, events).phase == Phase::Finished(0) ==> run(steps, events).launched
            == launches(steps, 0, steps.len() as int),
{
    lemma_run_is_orderly(steps, events);
}

/// A step is begun only by the privileged identity, if it is the first, or
/// by the success of the step before it.
pub proof fn lemma_step_begins_after_success(
    steps: Seq<StepView>,
    phase: Phase,
    event: EventView,
    index: usize,
)
    requires
        steps.len() <= usize::MAX,
        phase matches Phase::Running(current) ==> current < steps.len(),
        react(steps, phase, event) matches Some(reaction) && reaction.phase == Phase::Running(
            index,
        ),
    ensures
        index < steps.len(),
        index == 0 ==> phase == Phase::Start && event == EventView::Identity(PRIVILEGED),
        index > 0 ==> phase == Phase::Running((index - 1) as usize) && event == EventView::Exited(
            Some(0i32),
        ),
{
}

} // verus!
