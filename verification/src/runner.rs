//! The runner's decisions: from where a run stands and what just happened to
//! where it stands next, what it says, and what is to be done next.

use crate::message::{message_views, Message, MessageView};
use crate::step::{step_views, texts, Step, StepView};
use vstd::prelude::*;

verus! {

/// The identity that may run the steps.
pub const PRIVILEGED: u32 = 0;

/// The exit code of a run that failed without a command's exit code to pass on.
pub const FAILURE: i32 = 1;

/// Where a run stands.
#[derive(Clone, Copy, Debug, PartialEq, Eq, Structural)]
pub enum Phase {
    /// Nothing has happened; the caller's identity is not known yet.
    Start,
    /// The step at this position has been announced and is running.
    Running(usize),
    /// The run is over, with this exit code.
    Finished(i32),
}

/// What happened outside since the last decision.
#[derive(Clone, Debug, PartialEq, Eq)]
pub enum Event {
    /// The effective user identity of the process was read.
    Identity(u32),
    /// The launched command ended, with this exit code where it had one.
    Exited(Option<i32>),
    /// The command could not be launched at all, for this reason.
    LaunchFailed(String),
}

/// An event as plain values.
pub enum EventView {
    Identity(u32),
    Exited(Option<i32>),
    LaunchFailed(Seq<char>),
}

impl View for Event {
    type V = EventView;

    open spec fn view(&self) -> EventView {
        match self {
            Event::Identity(identity) => EventView::Identity(*identity),
            Event::Exited(code) => EventView::Exited(*code),
            Event::LaunchFailed(cause) => EventView::LaunchFailed(cause@),
        }
    }
}

/// What is to be done outside next.
#[derive(Clone, Debug, PartialEq, Eq)]
pub enum Action {
    /// Read the effective user identity of the process.
    ReadIdentity,
    /// Launch the program with the arguments, without input and with the
    /// terminal as its output, and wait for it to end.
    Launch { program: String, arguments: Vec<String> },
    /// End the process with this exit code.
    Exit(i32),
}

/// An action as plain values.
pub enum ActionView {
    ReadIdentity,
    Launch { program: Seq<char>, arguments: Seq<Seq<char>> },
    Exit(i32),
}

impl View for Action {
    type V = ActionView;

    open spec fn view(&self) -> ActionView {
        match self {
            Action::ReadIdentity => ActionView::ReadIdentity,
            Action::Launch { program, arguments } => ActionView::Launch {
                program: program@,
                arguments: texts(arguments@),
            },
            Action::Exit(code) => ActionView::Exit(*code),
        }
    }
}

/// How a command ended, as far as the run is concerned.
#[derive(Clone, Copy, Debug, PartialEq, Eq, Structural)]
pub enum Verdict {
    /// It ended with exit code zero.
    Success,
    /// It did not, and the run is to end with this exit code.
    Failure(i32),
}

/// A command succeeded exactly if its exit code is zero. A failed command
/// hands its exit code on; one that was ended by a signal has none, and
/// stands for the general failure code.
pub open spec fn judge_spec(code: Option<i32>) -> Verdict {
    match code {
        Some(value) => if value == 0 {
            Verdict::Success
        } else {
            Verdict::Failure(value)
        },
        None => Verdict::Failure(FAILURE),
    }
}

/// Judges how a command ended from its exit code.
pub fn judge(code: Option<i32>) -> (verdict: Verdict)
    ensures
        verdict == judge_spec(code),
{
    match code {
        Some(value) => if value == 0 {
            Verdict::Success
        } else {
            Verdict::Failure(value)
        },
        None => Verdict::Failure(FAILURE),
    }
}

/// What a decision comes to: the next phase, and what is said on the way.
pub struct Reaction {
    pub phase: Phase,
    pub messages: Seq<MessageView>,
}

/// What is said before a step runs: its description, unless it has none,
/// then its command line.
pub open spec fn announcement(step: StepView) -> Seq<MessageView> {
    if step.description.len() > 0 {
        seq![MessageView::Heading(step.description), MessageView::Command(step.command_line())]
    } else {
        seq![MessageView::Command(step.command_line())]
    }
}

/// What follows once every step before `index` has succeeded: the step at
/// `index` is announced and runs, or, where none is left, the run ends well.
pub open spec fn proceed(steps: Seq<StepView>, index: int) -> Reaction {
    if 0 <= index < steps.len() {
        Reaction { phase: Phase::Running(index as usize), messages: announcement(steps[index]) }
    } else {
        Reaction { phase: Phase::Finished(0), messages: seq![MessageView::Success] }
    }
}

/// The reaction to `event` in `phase`, or `None` where the event is not one
/// that can follow what the phase asked for.
pub open spec fn react(steps: Seq<StepView>, phase: Phase, event: EventView) -> Option<Reaction> {
    match (phase, event) {
        (Phase::Start, EventView::Identity(identity)) => Some(
            if identity == PRIVILEGED {
                Reaction {
                    phase: proceed(steps, 0).phase,
                    messages: seq![MessageView::Banner] + proceed(steps, 0).messages,
                }
            } else {
                Reaction {
                    phase: Phase::Finished(FAILURE),
                    messages: seq![MessageView::NotPrivileged],
                }
            },
        ),
        (Phase::Running(index), EventView::Exited(code)) => Some(
            match judge_spec(code) {
                Verdict::Success => proceed(steps, index + 1),
                Verdict::Failure(exit_code) => Reaction {
                    phase: Phase::Finished(exit_code),
                    messages: seq![MessageView::CommandFailed(code)],
                },
            },
        ),
        (Phase::Running(_), EventView::LaunchFailed(cause)) => Some(
            Reaction { phase: Phase::Finished(FAILURE), messages: seq![MessageView::Error(cause)] },
        ),
        _ => None,
    }
}

/// The launch of a step's command: its first token is the program, the
/// others are the arguments.
pub open spec fn launch(step: StepView) -> ActionView {
    ActionView::Launch { program: step.program(), arguments: step.arguments() }
}

/// What `phase` asks to be done outside.
pub open spec fn pending(steps: Seq<StepView>, phase: Phase) -> ActionView
    recommends
        phase matches Phase::Running(index) ==> index < steps.len(),
{
    match phase {
        Phase::Start => ActionView::ReadIdentity,
        Phase::Running(index) => launch(steps[index as int]),
        Phase::Finished(code) => ActionView::Exit(code),
    }
}

/// A run of a fixed list of steps.
pub struct Runner {
    steps: Vec<Step>,
    phase: Phase,
}

/// A runner as plain values.
pub struct RunnerView {
    pub steps: Seq<StepView>,
    pub phase: Phase,
}

impl RunnerView {
    /// A step that is running is one of the steps.
    pub open spec fn wf(self) -> bool {
        self.phase matches Phase::Running(index) ==> index < self.steps.len()
    }
}

impl View for Runner {
    type V = RunnerView;

    closed spec fn view(&self) -> RunnerView {
        RunnerView { steps: step_views(self.steps@), phase: self.phase }
    }
}

impl Runner {
    /// A runner never stands at a step that it does not have.
    #[verifier::type_invariant]
    spec fn inv(self) -> bool {
        self@.wf()
    }

    /// A run of `steps` that has not begun.
    pub fn new(steps: Vec<Step>) -> (runner: Runner)
        ensures
            runner@ == (RunnerView { steps: step_views(steps@), phase: Phase::Start }),
    {
        Runner { steps, phase: Phase::Start }
    }

    /// Where the run stands.
    pub fn phase(&self) -> (phase: Phase)
        ensures
            phase == self@.phase,
            self@.wf(),
    {
        proof {
            use_type_invariant(self);
        }
        self.phase
    }

    /// What is to be done outside next.
    pub fn pending(&self) -> (action: Action)
        ensures
            action@ == pending(self@.steps, self@.phase),
            self@.wf(),
    {
        proof {
            use_type_invariant(self);
        }
        match self.phase {
            Phase::Start => Action::ReadIdentity,
            Phase::Running(index) => Action::Launch {
                program: self.steps[index].program(),
                arguments: self.steps[index].arguments(),
            },
            Phase::Finished(code) => Action::Exit(code),
        }
    }

    /// Moves on to the step at `index`, or to the good end where there is
    /// none, and adds what is said on the way to `messages`.
    fn proceed(&mut self, index: usize, messages: &mut Vec<Message>)
        requires
            index <= old(self)@.steps.len(),
        ensures
            final(self)@.steps == old(self)@.steps,
            final(self)@.phase == proceed(old(self)@.steps, index as int).phase,
            message_views(final(messages)@) == message_views(old(messages)@) + proceed(
                old(self)@.steps,
                index as int,
            ).messages,
    {
        if index < self.steps.len() {
            let step = &self.steps[index];
            if !step.description.as_str().is_empty() {
                messages.push(Message::Heading(step.description.clone()));
            }
            messages.push(Message::Command(step.command_line()));
            self.phase = Phase::Running(index);
        } else {
            messages.push(Message::Success);
            self.phase = Phase::Finished(0);
        }
    }

    /// Takes in what happened and decides. Where `event` can follow what was
    /// pending, the run moves on and the messages to print, in order, are
    /// returned; where it cannot, nothing changes.
    pub fn advance(&mut self, event: Event) -> (messages: Option<Vec<Message>>)
        ensures
            final(self)@.steps == old(self)@.steps,
            final(self)@.wf(),
            match react(old(self)@.steps, old(self)@.phase, event@) {
                Some(reaction) => {
                    &&& final(self)@.phase == reaction.phase
                    &&& messages matches Some(said)
                    &&& message_views(said@) == reaction.messages
                },
                None => final(self)@.phase == old(self)@.phase && messages is None,
            },
    {
        proof {
            use_type_invariant(&*self);
        }
        let mut said: Vec<Message> = Vec::new();
        match (self.phase, event) {
            (Phase::Start, Event::Identity(identity)) => {
                if identity == PRIVILEGED {
                    said.push(Message::Banner);
                    self.proceed(0, &mut said);
                } else {
                    said.push(Message::NotPrivileged);
                    self.phase = Phase::Finished(FAILURE);
                }
            },
            (Phase::Running(index), Event::Exited(code)) => {
                match judge(code) {
                    Verdict::Success => {
                        assert(index < self.steps.len());
                        self.proceed(index + 1, &mut said);
                    },
                    Verdict::Failure(exit_code) => {
                        said.push(Message::CommandFailed(code));
                        self.phase = Phase::Finished(exit_code);
                    },
                }
            },
            (Phase::Running(_), Event::LaunchFailed(cause)) => {
                said.push(Message::Error(cause));
                self.phase = Phase::Finished(FAILURE);
            },
            _ => {
                return None;
            },
        }
        proof {
            use_type_invariant(&*self);
        }
        Some(said)
    }
}

} // verus!
