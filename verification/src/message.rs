//! What a run says on the console.

use crate::decimal::{decimal, push_decimal};
use crate::style::{paint, painted, Role};
use vstd::prelude::*;
use vstd::string::*;

verus! {

/// One thing said to the person watching the run.
#[derive(Clone, Debug, PartialEq, Eq)]
pub enum Message {
    /// The caller is not the privileged identity.
    NotPrivileged,
    /// The name of the tool, once, before any step.
    Banner,
    /// The description of the step that is about to run.
    Heading(String),
    /// The command line that is about to run.
    Command(String),
    /// A command ended unsuccessfully, with this exit code where it had one.
    CommandFailed(Option<i32>),
    /// Something could not be done at all, and why.
    Error(String),
    /// Every step succeeded.
    Success,
}

/// A message as plain text.
pub enum MessageView {
    NotPrivileged,
    Banner,
    Heading(Seq<char>),
    Command(Seq<char>),
    CommandFailed(Option<i32>),
    Error(Seq<char>),
    Success,
}

impl View for Message {
    type V = MessageView;

    open spec fn view(&self) -> MessageView {
        match self {
            Message::NotPrivileged => MessageView::NotPrivileged,
            Message::Banner => MessageView::Banner,
            Message::Heading(description) => MessageView::Heading(description@),
            Message::Command(line) => MessageView::Command(line@),
            Message::CommandFailed(code) => MessageView::CommandFailed(*code),
            Message::Error(cause) => MessageView::Error(cause@),
            Message::Success => MessageView::Success,
        }
    }
}

/// The view of each message, in order.
pub open spec fn message_views(messages: Seq<Message>) -> Seq<MessageView> {
    Seq::new(messages.len(), |i: int| messages[i]@)
}

/// How an exit code is written in a message: the code in brackets where the
/// command had one, a word for its absence where it was ended by a signal.
pub open spec fn status_text(code: Option<i32>) -> Seq<char> {
    match code {
        Some(value) => "Some("@ + decimal(value as int) + ")"@,
        None => "None"@,
    }
}

/// `part` occurs in `text` as a run of consecutive characters.
pub open spec fn mentions(text: Seq<char>, part: Seq<char>) -> bool {
    exists|at: int|
        0 <= at && at + part.len() <= text.len() && #[trigger] text.subrange(
            at,
            at + part.len(),
        ) == part
}

impl MessageView {
    /// The characters written to the console for this message.
    pub open spec fn text(self) -> Seq<char> {
        match self {
            MessageView::NotPrivileged => painted(
                Role::Red,
                "❌ This script must be run as root (sudo).\n"@,
            ),
            MessageView::Banner => painted(
                Role::Magenta,
                Role::Bold.escape_spec() + "🦏 Rhino Linux Update & Cleanup"@
                    + Role::Reset.escape_spec() + "\n\n"@,
            ),
            MessageView::Heading(description) => painted(
                Role::Blue,
                Role::Bold.escape_spec() + "➜ "@ + Role::Reset.escape_spec() + description,
            ) + "\n"@,
            MessageView::Command(line) => painted(Role::Cyan, "▶ "@) + line + "\n"@,
            MessageView::CommandFailed(code) => painted(
                Role::Red,
                "❌ Command failed with exit code: "@ + status_text(code) + "\n"@,
            ),
            MessageView::Error(cause) => painted(Role::Red, "❌ Error: "@ + cause + "\n"@),
            MessageView::Success => painted(
                Role::Green,
                "✅ Rhino Linux is up-to-date and squeaky-clean!\n"@,
            ),
        }
    }
}

/// How an exit code is written in a message.
pub fn status_string(code: Option<i32>) -> (text: String)
    ensures
        text@ == status_text(code),
{
    match code {
        Some(value) => {
            let mut text = String::from_str("Some(");
            push_decimal(&mut text, value);
            text.append(")");
            text
        },
        None => String::from_str("None"),
    }
}

impl Message {
    /// The characters to write to the console for this message.
    pub fn render(&self) -> (text: String)
        ensures
            text@ == self@.text(),
    {
        let mut text = String::new();
        match self {
            Message::NotPrivileged => {
                paint(&mut text, Role::Red, "❌ This script must be run as root (sudo).\n");
            },
            Message::Banner => {
                let mut title = String::from_str(Role::Bold.escape());
                title.append("🦏 Rhino Linux Update & Cleanup");
                title.append(Role::Reset.escape());
                title.append("\n\n");
                paint(&mut text, Role::Magenta, title.as_str());
            },
            Message::Heading(description) => {
                let mut heading = String::from_str(Role::Bold.escape());
                heading.append("➜ ");
                heading.append(Role::Reset.escape());
                heading.append(description.as_str());
                paint(&mut text, Role::Blue, heading.as_str());
                text.append("\n");
            },
            Message::Command(line) => {
                paint(&mut text, Role::Cyan, "▶ ");
                text.append(line.as_str());
                text.append("\n");
            },
            Message::CommandFailed(code) => {
                let mut report = String::from_str("❌ Command failed with exit code: ");
                report.append(status_string(*code).as_str());
                report.append("\n");
                paint(&mut text, Role::Red, report.as_str());
            },
            Message::Error(cause) => {
                let mut report = String::from_str("❌ Error: ");
                report.append(cause.as_str());
                report.append("\n");
                paint(&mut text, Role::Red, report.as_str());
            },
            Message::Success => {
                paint(
                    &mut text,
                    Role::Green,
                    "✅ Rhino Linux is up-to-date and squeaky-clean!\n",
                );
            },
        }
        text
    }
}

/// An error message names its cause.
pub proof fn lemma_error_mentions_cause(cause: Seq<char>)
    ensures
        mentions(MessageView::Error(cause).text(), cause),
{
    let text = MessageView::Error(cause).text();
    let at = (Role::Red.escape_spec().len() + "❌ Error: "@.len()) as int;
    assert(text.subrange(at, at + cause.len()) =~= cause);
}

/// The message about a failed command names the exit code, in decimal.
pub proof fn lemma_failure_mentions_code(code: i32)
    ensures
        mentions(MessageView::CommandFailed(Some(code)).text(), decimal(code as int)),
{
    let text = MessageView::CommandFailed(Some(code)).text();
    let number = decimal(code as int);
    let at = (Role::Red.escape_spec().len() + "❌ Command failed with exit code: "@.len()
        + "Some("@.len()) as int;
    assert(text.subrange(at, at + number.len()) =~= number);
}

} // verus!
