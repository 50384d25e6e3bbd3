//! The session as a state machine: what each key does to the buffer, the
//! cursor and the history, and what it draws.

use crate::event::{Draw, Event, KeyCode, KeyEvent, OutcomeView, Sentinel};
use crate::history::pushed;
use crate::text::{blanks, decimal, is_blank, joined};
use vstd::prelude::*;

verus! {

/// The state of a session.
pub struct State {
    /// The stored commands, newest first.
    pub entries: Seq<Seq<Seq<char>>>,
    /// The position of the stored command that is browsed, or `-1`.
    pub index: int,
    /// The most commands that are stored.
    pub limit: nat,
    /// The command that is being written, line by line.
    pub lines: Seq<Seq<char>>,
    /// Whether a stored command is shown in place of the one being written.
    pub browsing: bool,
    /// The line of the cursor in the command that is shown.
    pub line_index: nat,
    /// The character of the cursor in its line.
    pub char_index: nat,
    /// Whether the leader of this command was printed.
    pub prompted: bool,
    /// The number of what the session is attached to, if anything.
    pub attached: Option<nat>,
    /// The name of the module that was selected, if any.
    pub module: Option<Seq<char>>,
    /// What stands before the first line of a command.
    pub leader: Seq<char>,
    /// What stands before each further line of a command.
    pub continued_leader: Seq<char>,
    /// The command that clears the terminal.
    pub clear_keyword: Seq<char>,
    /// The command that asks to leave, if there is one.
    pub exit_keyword: Option<Seq<char>>,
}

/// What a step does: the state after it, what it draws, and how it ends.
pub struct Reaction {
    pub state: State,
    pub draws: Seq<Draw>,
    pub outcome: OutcomeView,
}

/// `n` as a machine number; a number too large for one becomes the largest.
pub open spec fn fit(n: int) -> usize {
    if n < 0 {
        0
    } else if n > usize::MAX {
        usize::MAX
    } else {
        n as usize
    }
}

/// The smaller of two numbers.
pub open spec fn least(a: nat, b: nat) -> nat {
    if a <= b {
        a
    } else {
        b
    }
}

/// Where the cursor goes in a line of `len` characters when another command
/// comes into view: it keeps its character, but goes to the end of the line
/// from the start of its line and from beyond the end.
pub open spec fn snap(char_index: nat, len: nat) -> nat {
    if char_index == 0 || char_index > len {
        len
    } else {
        char_index
    }
}

/// What is drawn for line `i` of a command.
pub open spec fn row(i: nat) -> Seq<Draw> {
    seq![
        Draw::MoveToColumn(0),
        Draw::Colour,
        Draw::Leader(i == 0),
        Draw::Line(fit(i as int)),
        Draw::Newline,
    ]
}

/// What is drawn for the first `n` lines of a command.
pub open spec fn rows(n: nat) -> Seq<Draw>
    decreases n,
{
    if n == 0 {
        Seq::empty()
    } else {
        rows((n - 1) as nat) + row((n - 1) as nat)
    }
}

/// What is drawn when the session hands control back to its caller.
pub open spec fn leave_draws() -> Seq<Draw> {
    seq![Draw::RawMode(false), Draw::Newline, Draw::Colour]
}

impl State {
    /// The state of a session that was just made.
    pub open spec fn initial(leader: Seq<char>, continued_leader: Seq<char>, limit: nat) -> State {
        State {
            entries: Seq::empty(),
            index: -1,
            limit,
            lines: seq![Seq::empty()],
            browsing: false,
            line_index: 0,
            char_index: 0,
            prompted: false,
            attached: None,
            module: None,
            leader,
            continued_leader,
            clear_keyword: seq!['c', 'l', 'e', 'a', 'r'],
            exit_keyword: None,
        }
    }

    /// The command that is shown: the stored command that is browsed, or
    /// else the command that is being written.
    pub open spec fn active(self) -> Seq<Seq<char>> {
        if self.browsing {
            self.entries[self.index]
        } else {
            self.lines
        }
    }

    /// The line of the cursor.
    pub open spec fn line(self) -> Seq<char> {
        self.active()[self.line_index as int]
    }

    /// The cursor stands in a line of the command that is shown, and in that
    /// line before a character or at the end.
    pub open spec fn in_range(self) -> bool {
        &&& self.line_index < self.active().len()
        &&& self.char_index <= self.line().len()
    }

    /// The store is within its capacity and holds no command without lines,
    /// a stored command is browsed exactly where its position is given, the
    /// command that is being written has a line, and the cursor is in range.
    pub open spec fn wf(self) -> bool {
        &&& self.entries.len() <= self.limit
        &&& forall|i: int| 0 <= i < self.entries.len() ==> (#[trigger] self.entries[i]).len() > 0
        &&& -1 <= self.index < self.entries.len()
        &&& self.browsing == (self.index >= 0)
        &&& self.lines.len() > 0
        &&& self.in_range()
    }

    /// What stands before the leader of the first line: the attachment, or
    /// else the module.
    pub open spec fn decoration(self) -> Seq<char> {
        match self.attached {
            Some(id) => seq!['(', 'A', 't', 't', 'a', 'c', 'h', 'e', 'd', ':', ' '] + decimal(id)
                + seq![')', ' '],
            None => match self.module {
                Some(name) => seq!['('] + name + seq![')', ' '],
                None => Seq::empty(),
            },
        }
    }

    /// What is printed before a line: before the first line of a command
    /// the decoration and the leader, before the others the leader of
    /// continued lines.
    pub open spec fn leader_text(self, first: bool) -> Seq<char> {
        if first {
            self.decoration() + self.leader
        } else {
            self.continued_leader
        }
    }

    /// The column of the cursor on the terminal: the width of what is
    /// printed before its line, and its character.
    pub open spec fn column(self) -> usize {
        fit((self.leader_text(self.line_index == 0).len() + self.char_index) as int)
    }

    /// What is drawn to show the whole command again when the cursor of the
    /// terminal stands in row `from` of the command: everything from the
    /// first row down is cleared, each line is printed after its leader, and
    /// the cursor goes back to its place.
    pub open spec fn repaint(self, from: nat) -> Seq<Draw> {
        (if from > 0 {
            seq![Draw::MoveUp(fit(from as int))]
        } else {
            Seq::empty()
        }) + seq![Draw::ClearLine, Draw::ClearBelow] + rows(self.active().len()) + seq![
            Draw::MoveUp(fit(self.active().len() - self.line_index)),
            Draw::MoveToColumn(self.column()),
        ]
    }

    /// What is drawn to show the line of the cursor again.
    pub open spec fn repaint_line(self) -> Seq<Draw> {
        seq![
            Draw::ClearLine,
            Draw::MoveToColumn(0),
            Draw::Colour,
            Draw::Leader(self.line_index == 0),
            Draw::Line(fit(self.line_index as int)),
            Draw::MoveToColumn(self.column()),
        ]
    }

    /// The state between two commands: one empty line, the cursor at its
    /// start, nothing browsed, the leader not printed.
    pub open spec fn reset(self) -> State {
        State {
            index: -1,
            lines: seq![Seq::empty()],
            browsing: false,
            line_index: 0,
            char_index: 0,
            prompted: false,
            ..self
        }
    }

    /// The state in which the command that is shown is the one that is being
    /// written: a stored command that was browsed is copied, line by line,
    /// and browsing ends. The store keeps its commands as they are.
    pub open spec fn materialize(self) -> State {
        if self.browsing {
            State { lines: self.entries[self.index], index: -1, browsing: false, ..self }
        } else {
            self
        }
    }

    /// The state at the start of a cycle, and what is drawn for it.
    pub open spec fn begin(self) -> Reaction {
        Reaction {
            state: State { prompted: true, ..self },
            draws: (if self.attached is None {
                seq![Draw::RawMode(true)]
            } else {
                Seq::empty()
            }) + (if self.prompted {
                Seq::empty()
            } else if self.attached is None {
                seq![Draw::Colour, Draw::Leader(true), Draw::ResetColour]
            } else {
                seq![Draw::Colour, Draw::ResetColour]
            }),
            outcome: OutcomeView::Continue,
        }
    }

    /// A step that changes nothing but the line of the cursor on the
    /// terminal.
    pub open spec fn shown(self) -> Reaction {
        Reaction { state: self, draws: self.repaint_line(), outcome: OutcomeView::Continue }
    }

    /// A step that ends the cycle with a request to the caller.
    pub open spec fn leave(self, sentinel: Sentinel, draws: Seq<Draw>) -> Reaction {
        Reaction { state: self.reset(), draws, outcome: OutcomeView::Signal(sentinel) }
    }

    /// The characters of `text` go in at the cursor, which moves behind them.
    pub open spec fn typed(self, text: Seq<char>) -> State {
        let m = self.materialize();
        let c = self.char_index as int;
        let line = m.lines[self.line_index as int];
        State {
            lines: m.lines.update(self.line_index as int, line.take(c) + text + line.skip(c)),
            char_index: self.char_index + text.len(),
            ..m
        }
    }

    /// The cursor goes to the start of its line.
    pub open spec fn home(self) -> State {
        State { char_index: 0, ..self }
    }

    /// The cursor goes to the end of its line.
    pub open spec fn end(self) -> State {
        State { char_index: self.line().len(), ..self }
    }

    /// The cursor goes one character to the left, unless it is at the start
    /// of its line.
    pub open spec fn left(self) -> State {
        if self.char_index > 0 {
            State { char_index: (self.char_index - 1) as nat, ..self }
        } else {
            self
        }
    }

    /// The cursor goes one character to the right, unless it is at the end
    /// of its line.
    pub open spec fn right(self) -> State {
        if self.char_index < self.line().len() {
            State { char_index: self.char_index + 1, ..self }
        } else {
            self
        }
    }

    /// The cursor goes to line `line` of the command that is shown and keeps
    /// its character, or goes to the end of that line where the line is
    /// shorter.
    pub open spec fn to_line(self, line: nat) -> State {
        State {
            line_index: line,
            char_index: least(self.char_index, self.active()[line as int].len()),
            ..self
        }
    }

    /// Whether there is a stored command older than what is shown.
    pub open spec fn has_older(self) -> bool {
        self.index + 1 < self.entries.len()
    }

    /// The next older stored command comes into view. The cursor goes to
    /// its last line, or stays in its row where `retain` is set and the
    /// command has that row. At the oldest command nothing changes.
    pub open spec fn older(self, retain: bool) -> State {
        if self.has_older() {
            let entry = self.entries[self.index + 1];
            let last = (entry.len() - 1) as nat;
            let c = snap(self.char_index, entry[last as int].len());
            let line = if retain && self.line_index < last {
                self.line_index
            } else {
                last
            };
            State {
                index: self.index + 1,
                browsing: true,
                line_index: line,
                char_index: least(c, entry[line as int].len()),
                ..self
            }
        } else {
            self
        }
    }

    /// The next newer stored command comes into view, or after the newest
    /// the command that is being written, as it was left. The cursor goes
    /// to the first line, or stays in its row where `retain` is set, as far
    /// as the command has rows. Where nothing is browsed nothing changes.
    pub open spec fn newer(self, retain: bool) -> State {
        if self.browsing {
            let next = State { index: self.index - 1, browsing: self.index > 0, ..self };
            let shown = next.active();
            let c = snap(self.char_index, shown[0].len());
            let line = if retain {
                least(self.line_index, (shown.len() - 1) as nat)
            } else {
                0
            };
            State { line_index: line, char_index: least(c, shown[line as int].len()), ..next }
        } else {
            self
        }
    }

    /// What a step into the history does: where another command came into
    /// view, all of it is drawn.
    pub open spec fn browsed(self, to: State) -> Reaction {
        Reaction {
            state: to,
            draws: if to.index != self.index {
                to.repaint(self.line_index)
            } else {
                to.repaint_line()
            },
            outcome: OutcomeView::Continue,
        }
    }

    /// The key Up: within a command the cursor goes up one line; from the
    /// first line the next older stored command comes into view.
    pub open spec fn up(self) -> Reaction {
        if self.line_index == 0 {
            self.browsed(self.older(false))
        } else {
            let to = self.to_line((self.line_index - 1) as nat);
            Reaction {
                state: to,
                draws: seq![Draw::MoveUp(1)] + to.repaint_line(),
                outcome: OutcomeView::Continue,
            }
        }
    }

    /// The key Down: within a command the cursor goes down one line; from
    /// the last line of a stored command the next newer one comes into
    /// view; in the last line of the command that is being written nothing
    /// changes.
    pub open spec fn down(self) -> Reaction {
        if self.line_index + 1 < self.active().len() {
            let to = self.to_line(self.line_index + 1);
            Reaction {
                state: to,
                draws: seq![Draw::MoveDown(1)] + to.repaint_line(),
                outcome: OutcomeView::Continue,
            }
        } else {
            self.browsed(self.newer(false))
        }
    }

    /// The key Backspace: the character before the cursor goes; at the
    /// start of a line that is not the first, the line is joined to the end
    /// of the line before it, and the cursor stands where the two meet.
    pub open spec fn backspace(self) -> Reaction {
        let m = self.materialize();
        let l = self.line_index as int;
        let c = self.char_index as int;
        if c > 0 {
            State {
                lines: m.lines.update(l, m.lines[l].remove(c - 1)),
                char_index: (c - 1) as nat,
                ..m
            }.shown()
        } else if l > 0 {
            let to = State {
                lines: m.lines.update(l - 1, m.lines[l - 1] + m.lines[l]).remove(l),
                line_index: (l - 1) as nat,
                char_index: m.lines[l - 1].len(),
                ..m
            };
            Reaction {
                state: to,
                draws: to.repaint(self.line_index),
                outcome: OutcomeView::Continue,
            }
        } else {
            self.shown()
        }
    }

    /// The key Delete: the character at the cursor goes; at the end of a
    /// line that is not the last, the line after it is joined to it. The
    /// cursor stays.
    pub open spec fn delete(self) -> Reaction {
        let m = self.materialize();
        let l = self.line_index as int;
        let c = self.char_index as int;
        if c < self.line().len() {
            State { lines: m.lines.update(l, m.lines[l].remove(c)), ..m }.shown()
        } else if l + 1 < self.active().len() {
            let to = State {
                lines: m.lines.update(l, m.lines[l] + m.lines[l + 1]).remove(l + 1),
                ..m
            };
            Reaction {
                state: to,
                draws: to.repaint(self.line_index),
                outcome: OutcomeView::Continue,
            }
        } else {
            self.shown()
        }
    }

    /// Whether the command that is being written is the one line `keyword`.
    pub open spec fn is_keyword(self, keyword: Seq<char>) -> bool {
        !self.browsing && self.lines.len() == 1 && self.lines[0] == keyword
    }

    /// Whether the language is asked for an indentation when Enter is
    /// pressed: not where the session is attached, the first line is blank,
    /// or a keyword was entered.
    pub open spec fn asks_indent(self) -> bool {
        &&& self.attached is None
        &&& !is_blank(self.active()[0])
        &&& !(self.exit_keyword is Some && self.is_keyword(self.exit_keyword->0))
        &&& !self.is_keyword(self.clear_keyword)
    }

    /// The lines that the language is given to say how far the next line is
    /// indented: those of the command that is shown, up to the line of the
    /// cursor.
    pub open spec fn indent_context(self) -> Seq<Seq<char>> {
        self.active().take(self.line_index as int + 1)
    }

    /// Whether Enter ends the command, given the indentation: the cursor is
    /// in the last line, and the command is a stored one or the indentation
    /// is zero.
    pub open spec fn completes(self, indent: nat) -> bool {
        self.line_index + 1 == self.active().len() && (self.browsing || indent == 0)
    }

    /// The key Enter, where the language answered `indent`.
    pub open spec fn enter(self, indent: nat) -> Reaction {
        if self.attached is Some {
            self.leave(Sentinel::Detach, leave_draws())
        } else if is_blank(self.active()[0]) {
            Reaction {
                state: self,
                draws: seq![Draw::MoveToNextLine(1), Draw::Colour, Draw::Leader(true)],
                outcome: OutcomeView::Continue,
            }
        } else if self.exit_keyword is Some && self.is_keyword(self.exit_keyword->0) {
            self.leave(Sentinel::Exit, seq![Draw::RawMode(false), Draw::Newline])
        } else if self.is_keyword(self.clear_keyword) {
            Reaction {
                state: State { lines: seq![Seq::empty()], char_index: 0, ..self },
                draws: seq![
                    Draw::ClearAll,
                    Draw::MoveHome,
                    Draw::Colour,
                    Draw::Leader(true),
                    Draw::ResetColour,
                ],
                outcome: OutcomeView::Continue,
            }
        } else if self.completes(indent) {
            Reaction {
                state: State {
                    entries: pushed(self.entries, self.active(), self.limit),
                    ..self.reset()
                },
                draws: seq![Draw::RawMode(false), Draw::Newline],
                outcome: OutcomeView::Command(joined(self.active())),
            }
        } else {
            let m = self.materialize();
            let to = State {
                lines: m.lines.insert(self.line_index as int + 1, blanks(indent)),
                line_index: self.line_index + 1,
                char_index: indent,
                ..m
            };
            Reaction {
                state: to,
                draws: seq![Draw::Newline] + to.repaint(to.line_index),
                outcome: OutcomeView::Continue,
            }
        }
    }

    /// What a key does, where the language answers `indent` if it is asked.
    pub open spec fn key(self, key: KeyEvent, indent: nat) -> Reaction {
        match key.code {
            KeyCode::Char(ch) => {
                if key.control && ch == 'c' {
                    self.leave(Sentinel::Exit, seq![Draw::RawMode(false)])
                } else if key.control && ch == 'd' {
                    self.leave(Sentinel::Detach, leave_draws())
                } else if key.control && ch == 'l' {
                    Reaction {
                        state: self,
                        draws: seq![Draw::ClearAll, Draw::MoveHome] + self.repaint(0),
                        outcome: OutcomeView::Continue,
                    }
                } else {
                    self.typed(seq![ch]).shown()
                }
            },
            KeyCode::Esc => self.leave(Sentinel::Back, leave_draws()),
            KeyCode::Tab => self.typed(blanks(4)).shown(),
            KeyCode::Home => self.home().shown(),
            KeyCode::End => self.end().shown(),
            KeyCode::Left => self.left().shown(),
            KeyCode::Right => self.right().shown(),
            KeyCode::PageUp => self.browsed(self.older(true)),
            KeyCode::Up => self.up(),
            KeyCode::PageDown => self.browsed(self.newer(true)),
            KeyCode::Down => self.down(),
            KeyCode::Backspace => self.backspace(),
            KeyCode::Delete => self.delete(),
            KeyCode::Enter => self.enter(indent),
            KeyCode::Other => self.shown(),
        }
    }

    /// Whether `event` makes the session ask the language for an
    /// indentation: it is the key Enter, and Enter asks.
    pub open spec fn consults(self, event: Event) -> bool {
        event matches Event::Key(key) && key.code == KeyCode::Enter && self.asks_indent()
    }

    /// What an event does, where the language answers `indent` if it is
    /// asked.
    pub open spec fn react(self, event: Event, indent: nat) -> Reaction {
        match event {
            Event::Key(key) => self.key(key, indent),
            Event::Other => self.shown(),
        }
    }
}

} // verus!
