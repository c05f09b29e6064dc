//! The terminal styles the runner's messages are painted with.

use vstd::prelude::*;
use vstd::string::*;

verus! {

/// What a piece of console text is styled as.
#[derive(Clone, Copy, PartialEq, Eq, Structural, Debug)]
pub enum Role {
    Reset,
    Bold,
    Red,
    Green,
    Yellow,
    Blue,
    Magenta,
    Cyan,
}

impl Role {
    /// The ANSI escape sequence that switches the terminal to this role.
    pub open spec fn escape_spec(self) -> Seq<char> {
        match self {
            Role::Reset => seq!['\x1b', '[', '0', 'm'],
            Role::Bold => seq!['\x1b', '[', '1', 'm'],
            Role::Red => seq!['\x1b', '[', '3', '1', 'm'],
            Role::Green => seq!['\x1b', '[', '3', '2', 'm'],
            Role::Yellow => seq!['\x1b', '[', '3', '3', 'm'],
            Role::Blue => seq!['\x1b', '[', '3', '4', 'm'],
            Role::Magenta => seq!['\x1b', '[', '3', '5', 'm'],
            Role::Cyan => seq!['\x1b', '[', '3', '6', 'm'],
        }
    }

    /// The escape sequence of this role.
    pub fn escape(self) -> (sequence: &'static str)
        ensures
            sequence@ == self.escape_spec(),
    {
        proof {
            reveal_strlit("\x1b[0m");
            reveal_strlit("\x1b[1m");
            reveal_strlit("\x1b[31m");
            reveal_strlit("\x1b[32m");
            reveal_strlit("\x1b[33m");
            reveal_strlit("\x1b[34m");
            reveal_strlit("\x1b[35m");
            reveal_strlit("\x1b[36m");
        }
        let sequence = match self {
            Role::Reset => "\x1b[0m",
            Role::Bold => "\x1b[1m",
            Role::Red => "\x1b[31m",
            Role::Green => "\x1b[32m",
            Role::Yellow => "\x1b[33m",
            Role::Blue => "\x1b[34m",
            Role::Magenta => "\x1b[35m",
            Role::Cyan => "\x1b[36m",
        };
        sequence
    }
}

/// `text` in the given role, followed by a reset to the terminal's default.
pub open spec fn painted(role: Role, text: Seq<char>) -> Seq<char> {
    role.escape_spec() + text + Role::Reset.escape_spec()
}

/// Appends `text`, painted in `role`, to `out`.
pub fn paint(out: &mut String, role: Role, text: &str)
    ensures
        final(out)@ == old(out)@ + painted(role, text@),
{
    out.append(role.escape());
    out.append(text);
    out.append(Role::Reset.escape());
}

} // verus!
