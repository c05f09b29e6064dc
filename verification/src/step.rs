//! Steps: an external command and the words that announce it.

use vstd::prelude::*;
use vstd::string::*;

verus! {

/// One unit of a run: a command, as its program name followed by its
/// arguments, and a description for the person watching.
#[derive(Clone, Debug, PartialEq, Eq)]
pub struct Step {
    pub command: Vec<String>,
    pub description: String,
}

/// A step as plain text.
pub struct StepView {
    pub command: Seq<Seq<char>>,
    pub description: Seq<char>,
}

/// The text of each string, in order.
pub open spec fn texts(strings: Seq<String>) -> Seq<Seq<char>> {
    Seq::new(strings.len(), |i: int| strings[i]@)
}

/// The view of each step, in order.
pub open spec fn step_views(steps: Seq<Step>) -> Seq<StepView> {
    Seq::new(steps.len(), |i: int| steps[i]@)
}

/// The tokens, in order, with a single space between neighbours.
pub open spec fn joined(tokens: Seq<Seq<char>>) -> Seq<char>
    decreases tokens.len(),
{
    if tokens.len() == 0 {
        Seq::empty()
    } else if tokens.len() == 1 {
        tokens[0]
    } else {
        joined(tokens.drop_last()) + seq![' '] + tokens.last()
    }
}

impl View for Step {
    type V = StepView;

    open spec fn view(&self) -> StepView {
        StepView { command: texts(self.command@), description: self.description@ }
    }
}

impl StepView {
    /// The program to launch: the first token, or nothing where the command is empty.
    pub open spec fn program(self) -> Seq<char> {
        if self.command.len() > 0 {
            self.command[0]
        } else {
            Seq::empty()
        }
    }

    /// What is handed to the program: every token after the first.
    pub open spec fn arguments(self) -> Seq<Seq<char>> {
        if self.command.len() > 0 {
            self.command.subrange(1, self.command.len() as int)
        } else {
            Seq::empty()
        }
    }

    /// The command as it would be typed.
    pub open spec fn command_line(self) -> Seq<char> {
        joined(self.command)
    }
}

impl Step {
    /// The step that runs `command` and is announced by `description`.
    pub fn new(command: Vec<String>, description: String) -> (step: Step)
        ensures
            step@ == (StepView { command: texts(command@), description: description@ }),
    {
        Step { command, description }
    }

    /// The program to launch.
    pub fn program(&self) -> (program: String)
        ensures
            program@ == self@.program(),
    {
        if self.command.len() > 0 {
            self.command[0].clone()
        } else {
            String::new()
        }
    }

    /// The arguments to launch the program with.
    pub fn arguments(&self) -> (arguments: Vec<String>)
        ensures
            texts(arguments@) == self@.arguments(),
    {
        let mut arguments: Vec<String> = Vec::new();
        if self.command.len() == 0 {
            return arguments;
        }
        let mut i: usize = 1;
        while i < self.command.len()
            invariant
                1 <= i <= self.command.len(),
                texts(arguments@) == texts(self.command@).subrange(1, i as int),
            decreases self.command.len() - i,
        {
            let ghost before = texts(arguments@);
            arguments.push(self.command[i].clone());
            assert(texts(arguments@) =~= before.push(self.command[i as int]@));
            i += 1;
        }
        arguments
    }

    /// The command as it would be typed: its tokens, a space between each two.
    pub fn command_line(&self) -> (line: String)
        ensures
            line@ == self@.command_line(),
    {
        let mut line = String::new();
        let mut i: usize = 0;
        while i < self.command.len()
            invariant
                i <= self.command.len(),
                line@ == joined(texts(self.command@).take(i as int)),
            decreases self.command.len() - i,
        {
            if i > 0 {
                proof {
                    reveal_strlit(" ");
                }
                line.append(" ");
            }
            line.append(self.command[i].as_str());
            proof {
                let tokens = texts(self.command@);
                assert(tokens.take(i + 1).drop_last() =~= tokens.take(i as int));
            }
            i += 1;
        }
        assert(texts(self.command@).take(i as int) =~= texts(self.command@));
        line
    }
}

} // verus!
