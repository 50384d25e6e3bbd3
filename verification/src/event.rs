//! What comes in from the terminal and what goes out to it.

use vstd::prelude::*;

verus! {

/// The key that was pressed.
#[derive(Debug, Clone, Copy, PartialEq, Eq, Structural)]
pub enum KeyCode {
    Backspace,
    Enter,
    Left,
    Right,
    Up,
    Down,
    Home,
    End,
    PageUp,
    PageDown,
    Tab,
    Delete,
    Esc,
    /// A key that stands for a character.
    Char(char),
    /// Any other key.
    Other,
}

/// A key press.
#[derive(Debug, Clone, Copy, PartialEq, Eq, Structural)]
pub struct KeyEvent {
    pub code: KeyCode,
    /// Whether the control key was held down.
    pub control: bool,
}

/// What the terminal reports.
#[derive(Debug, Clone, Copy, PartialEq, Eq, Structural)]
pub enum Event {
    Key(KeyEvent),
    /// Anything that is no key press: it changes nothing.
    Other,
}

/// One thing to do on the terminal. Rows and columns count from zero.
#[derive(Debug, Clone, Copy, PartialEq, Eq, Structural)]
pub enum Draw {
    /// Switch raw mode on or off.
    RawMode(bool),
    /// Move the cursor up by so many rows.
    MoveUp(usize),
    /// Move the cursor down by so many rows.
    MoveDown(usize),
    /// Move the cursor to the column in its row.
    MoveToColumn(usize),
    /// Move the cursor to the start of the row so many rows down.
    MoveToNextLine(usize),
    /// Move the cursor to the top left corner.
    MoveHome,
    /// Clear the row of the cursor.
    ClearLine,
    /// Clear everything from the cursor down.
    ClearBelow,
    /// Clear the whole terminal.
    ClearAll,
    /// Switch to the colour of the session.
    Colour,
    /// Switch back to the terminal's own colour.
    ResetColour,
    /// Print the leader: that of the first line of a command where the flag
    /// is set, that of the lines after it where it is not.
    Leader(bool),
    /// Print the line at this index of the command that is shown, as the
    /// language wants it shown.
    Line(usize),
    /// Go to the next row.
    Newline,
}

/// A request to the caller that stands in place of a command.
#[derive(Debug, Clone, Copy, PartialEq, Eq, Structural)]
pub enum Sentinel {
    Exit,
    Detach,
    Back,
}

/// How a step of the session ended.
#[derive(Debug, PartialEq, Eq)]
pub enum Outcome {
    /// The command is not complete: the session goes on.
    Continue,
    /// A command was entered; this is its text.
    Command(String),
    /// The user asked for something other than a command.
    Signal(Sentinel),
}

/// An [`Outcome`], with the text of a command as its characters.
pub enum OutcomeView {
    Continue,
    Command(Seq<char>),
    Signal(Sentinel),
}

impl View for Outcome {
    type V = OutcomeView;

    open spec fn view(&self) -> OutcomeView {
        match self {
            Outcome::Continue => OutcomeView::Continue,
            Outcome::Command(text) => OutcomeView::Command(text@),
            Outcome::Signal(sentinel) => OutcomeView::Signal(*sentinel),
        }
    }
}

/// What a step of the session asks of its caller.
pub struct Step {
    /// What to do on the terminal, in this order.
    pub draws: Vec<Draw>,
    /// Whether the session goes on, and what it returns where it does not.
    pub outcome: Outcome,
}

impl Sentinel {
    /// The word that the caller gets in place of a command.
    pub open spec fn word(self) -> Seq<char> {
        match self {
            Sentinel::Exit => seq!['e', 'x', 'i', 't'],
            Sentinel::Detach => seq!['d', 'e', 't', 'a', 'c', 'h'],
            Sentinel::Back => seq!['b', 'a', 'c', 'k'],
        }
    }

    /// The word that the caller gets in place of a command.
    pub fn as_str(&self) -> (word: &'static str)
        ensures
            word@ == self.word(),
    {
        proof {
            reveal_strlit("exit");
            reveal_strlit("detach");
            reveal_strlit("back");
        }
        match self {
            Sentinel::Exit => "exit",
            Sentinel::Detach => "detach",
            Sentinel::Back => "back",
        }
    }
}

} // verus!
