//! What the keys do.

use super::{Cursor, Repl};
use crate::event::{Draw, Event, KeyCode, KeyEvent, Outcome, Sentinel, Step};
use crate::lang::{default_indent, DefaultLangInterface, LangInterface};
use crate::model::{leave_draws, State};
use crate::text::{
    blank, blanks, clone_lines, insert_char, insert_text, join_lines, lines_view, remove_char,
    spaces,
};
use vstd::prelude::*;
use vstd::string::*;

verus! {

impl<L: LangInterface> Repl<L> {
    /// A step that did not end the cycle, with what it drew.
    fn going_on(draws: Vec<Draw>) -> (step: Step)
        ensures
            step.draws == draws,
            step.outcome == Outcome::Continue,
    {
        Step { draws, outcome: Outcome::Continue }
    }

    /// Draws the line of the cursor again, and goes on.
    fn show(&self) -> (step: Step)
        requires
            self.wf(),
        ensures
            step.draws@ == self@.repaint_line(),
            step.outcome == Outcome::Continue,
    {
        let mut draws: Vec<Draw> = Vec::new();
        self.print_cursor_line(&mut draws);
        Self::going_on(draws)
    }

    /// Draws the whole command again from row `from` of it, and goes on.
    fn show_all(&self, from: usize) -> (step: Step)
        requires
            self.wf(),
        ensures
            step.draws@ == self@.repaint(from as nat),
            step.outcome == Outcome::Continue,
    {
        let mut draws: Vec<Draw> = Vec::new();
        self.print_lines(from, &mut draws);
        Self::going_on(draws)
    }

    /// What is drawn when the session hands control back to its caller.
    fn leave_draws() -> (draws: Vec<Draw>)
        ensures
            draws@ == leave_draws(),
    {
        let mut draws: Vec<Draw> = Vec::new();
        draws.push(Draw::RawMode(false));
        draws.push(Draw::Newline);
        draws.push(Draw::Colour);
        draws
    }

    /// Ends the cycle with a request to the caller.
    fn leave(&mut self, sentinel: Sentinel, draws: Vec<Draw>) -> (step: Step)
        requires
            old(self).wf(),
        ensures
            final(self).wf(),
            final(self)@ == old(self)@.reset(),
            final(self).file() == old(self).file(),
            step.outcome == Outcome::Signal(sentinel),
            step.draws == draws,
    {
        self.reset_lines();
        Step { draws, outcome: Outcome::Signal(sentinel) }
    }

    /// Puts `ch` in at the cursor, which moves behind it.
    fn type_char(&mut self, ch: char)
        requires
            old(self).wf(),
        ensures
            final(self).wf(),
            final(self)@ == old(self)@.typed(seq![ch]),
            final(self).file() == old(self).file(),
    {
        self.replace_with_history();
        let l = self.c.line_index;
        let c = self.c.char_index;
        let ghost before = self@;
        let ghost line = self.lines[l as int]@;
        insert_char(&mut self.lines[l], c, ch);
        self.c.char_index = c + 1;
        proof {
            assert(line.insert(c as int, ch) == line.take(c as int) + seq![ch] + line.skip(
                c as int,
            ));
            assert(self.lines.deep_view() == before.lines.update(
                l as int,
                line.take(c as int) + seq![ch] + line.skip(c as int),
            ));
        }
    }

    /// Puts `text` in at the cursor, which moves behind it.
    fn type_text(&mut self, text: &str)
        requires
            old(self).wf(),
        ensures
            final(self).wf(),
            final(self)@ == old(self)@.typed(text@),
            final(self).file() == old(self).file(),
    {
        self.replace_with_history();
        let l = self.c.line_index;
        let c = self.c.char_index;
        let ghost before = self@;
        let ghost line = self.lines[l as int]@;
        insert_text(&mut self.lines[l], c, text);
        let added = text.unicode_len();
        self.c.char_index = c + added;
        proof {
            assert(self.lines.deep_view() == before.lines.update(
                l as int,
                line.take(c as int) + text@ + line.skip(c as int),
            ));
        }
    }

    /// Moves the cursor to line `line` of the command that is shown.
    fn go_to_line(&mut self, line: usize)
        requires
            old(self).wf(),
            line < old(self)@.active().len(),
        ensures
            final(self).wf(),
            final(self)@ == old(self)@.to_line(line as nat),
            final(self).file() == old(self).file(),
    {
        let len = self.cur()[line].as_str().unicode_len();
        self.c.line_index = line;
        if self.c.char_index > len {
            self.c.char_index = len;
        }
    }

    /// Steps to the next older stored command, if there is one.
    fn history_up(&mut self, retain: bool) -> (step: Step)
        requires
            old(self).wf(),
        ensures
            final(self).wf(),
            final(self)@ == old(self)@.older(retain),
            final(self).file() == old(self).file(),
            step.draws@ == old(self)@.browsed(old(self)@.older(retain)).draws,
            step.outcome == Outcome::Continue,
    {
        let from = self.c.line_index;
        let c0 = self.c.char_index;
        let to: Option<Cursor> = match self.history.prev() {
            Some(entry) => {
                let last = entry.len() - 1;
                let end = entry[last].as_str().unicode_len();
                let c = if c0 == 0 || c0 > end {
                    end
                } else {
                    c0
                };
                let line = if retain && from < last {
                    from
                } else {
                    last
                };
                let len = entry[line].as_str().unicode_len();
                Some(
                    Cursor {
                        browsing: true,
                        line_index: line,
                        char_index: if c > len {
                            len
                        } else {
                            c
                        },
                    },
                )
            },
            None => None,
        };
        match to {
            Some(cursor) => {
                self.c = cursor;
                self.show_all(from)
            },
            None => self.show(),
        }
    }

    /// Steps to the next newer stored command, or back to the command that
    /// is being written.
    fn history_down(&mut self, retain: bool) -> (step: Step)
        requires
            old(self).wf(),
        ensures
            final(self).wf(),
            final(self)@ == old(self)@.newer(retain),
            final(self).file() == old(self).file(),
            step.draws@ == old(self)@.browsed(old(self)@.newer(retain)).draws,
            step.outcome == Outcome::Continue,
    {
        if !self.c.browsing {
            return self.show();
        }
        let from = self.c.line_index;
        let c0 = self.c.char_index;
        let browsing = self.history.next().is_some();
        self.c = Cursor { browsing, line_index: 0, char_index: 0 };
        let shown = self.cur();
        let end = shown[0].as_str().unicode_len();
        let c = if c0 == 0 || c0 > end {
            end
        } else {
            c0
        };
        let line = if retain {
            if from < shown.len() - 1 {
                from
            } else {
                shown.len() - 1
            }
        } else {
            0
        };
        let len = shown[line].as_str().unicode_len();
        self.c = Cursor {
            browsing,
            line_index: line,
            char_index: if c > len {
                len
            } else {
                c
            },
        };
        self.show_all(from)
    }

    /// The key Up.
    fn key_up(&mut self) -> (step: Step)
        requires
            old(self).wf(),
        ensures
            final(self).wf(),
            final(self)@ == old(self)@.up().state,
            final(self).file() == old(self).file(),
            step.draws@ == old(self)@.up().draws,
            step.outcome == Outcome::Continue,
    {
        if self.c.line_index == 0 {
            self.history_up(false)
        } else {
            self.go_to_line(self.c.line_index - 1);
            let mut draws: Vec<Draw> = Vec::new();
            draws.push(Draw::MoveUp(1));
            self.print_cursor_line(&mut draws);
            Self::going_on(draws)
        }
    }

    /// The key Down.
    fn key_down(&mut self) -> (step: Step)
        requires
            old(self).wf(),
        ensures
            final(self).wf(),
            final(self)@ == old(self)@.down().state,
            final(self).file() == old(self).file(),
            step.draws@ == old(self)@.down().draws,
            step.outcome == Outcome::Continue,
    {
        let n = self.cur().len();
        if self.c.line_index < n - 1 {
            self.go_to_line(self.c.line_index + 1);
            let mut draws: Vec<Draw> = Vec::new();
            draws.push(Draw::MoveDown(1));
            self.print_cursor_line(&mut draws);
            Self::going_on(draws)
        } else {
            self.history_down(false)
        }
    }

    /// The key Backspace.
    fn key_backspace(&mut self) -> (step: Step)
        requires
            old(self).wf(),
        ensures
            final(self).wf(),
            final(self)@ == old(self)@.backspace().state,
            final(self).file() == old(self).file(),
            step.draws@ == old(self)@.backspace().draws,
            step.outcome == Outcome::Continue,
    {
        let l = self.c.line_index;
        let c = self.c.char_index;
        if c > 0 {
            self.replace_with_history();
            let ghost before = self@;
            remove_char(&mut self.lines[l], c - 1);
            self.c.char_index = c - 1;
            proof {
                assert(self.lines.deep_view() == before.lines.update(
                    l as int,
                    before.lines[l as int].remove(c - 1),
                ));
            }
            self.show()
        } else if l > 0 {
            self.replace_with_history();
            let ghost before = self@;
            let line = self.lines.remove(l);
            let end = self.lines[l - 1].as_str().unicode_len();
            self.lines[l - 1].append(line.as_str());
            self.c.line_index = l - 1;
            self.c.char_index = end;
            proof {
                assert(self.lines.deep_view() == before.lines.update(
                    l - 1,
                    before.lines[l - 1] + before.lines[l as int],
                ).remove(l as int));
            }
            self.show_all(l)
        } else {
            self.show()
        }
    }

    /// The key Delete.
    fn key_delete(&mut self) -> (step: Step)
        requires
            old(self).wf(),
        ensures
            final(self).wf(),
            final(self)@ == old(self)@.delete().state,
            final(self).file() == old(self).file(),
            step.draws@ == old(self)@.delete().draws,
            step.outcome == Outcome::Continue,
    {
        let l = self.c.line_index;
        let c = self.c.char_index;
        if c < self.cur_len() {
            self.replace_with_history();
            let ghost before = self@;
            remove_char(&mut self.lines[l], c);
            proof {
                assert(self.lines.deep_view() == before.lines.update(
                    l as int,
                    before.lines[l as int].remove(c as int),
                ));
            }
            self.show()
        } else if l < self.cur().len() - 1 {
            self.replace_with_history();
            let ghost before = self@;
            let line = self.lines.remove(l + 1);
            self.lines[l].append(line.as_str());
            proof {
                assert(self.lines.deep_view() == before.lines.update(
                    l as int,
                    before.lines[l as int] + before.lines[l + 1],
                ).remove(l + 1));
            }
            self.show_all(l)
        } else {
            self.show()
        }
    }
}

/// Whether the language may show `line` for line `index` of the command
/// `shown`.
pub open spec fn shows<L: LangInterface>(
    shown: Seq<Seq<char>>,
    index: usize,
    line: String,
) -> bool {
    exists|lines: &[String]|
        lines_view(lines@) == shown && #[trigger] call_ensures(
            L::print_line,
            (lines, index),
            line,
        )
}

/// Whether the language may answer `indent` when it is asked how far the
/// line after `context` is indented.
pub open spec fn answers<L: LangInterface>(context: Seq<Seq<char>>, indent: usize) -> bool {
    exists|lines: &[String]|
        lines_view(lines@) == context && #[trigger] call_ensures(L::get_indent, (lines,), indent)
}

/// The language that needs nothing of its own shows each line as it is,
/// and answers with the indentation of the last line.
pub proof fn lemma_default_language(
    lines: Seq<Seq<char>>,
    index: usize,
    line: String,
    indent: usize,
)
    ensures
        shows::<DefaultLangInterface>(lines, index, line) && index < lines.len() ==> line@
            == lines[index as int],
        answers::<DefaultLangInterface>(lines, indent) ==> indent == default_indent(lines),
{
}

/// Whether `step` and `after` are what `event` makes of the state `before`
/// where the language answers `indent`.
pub open spec fn reacted(
    before: State,
    event: Event,
    indent: nat,
    after: State,
    step: Step,
) -> bool {
    &&& after == before.react(event, indent).state
    &&& step.draws@ == before.react(event, indent).draws
    &&& step.outcome@ == before.react(event, indent).outcome
}

impl<L: LangInterface> Repl<L> {
    /// Whether the command that is being written is the one line `keyword`.
    fn is_keyword(&self, keyword: &String) -> (b: bool)
        requires
            self.wf(),
        ensures
            b == self@.is_keyword(keyword@),
    {
        !self.c.browsing && self.lines.len() == 1 && self.lines[0] == *keyword
    }

    /// Whether the exit keyword was entered.
    fn is_exit(&self) -> (b: bool)
        requires
            self.wf(),
        ensures
            b == (self@.exit_keyword is Some && self@.is_keyword(self@.exit_keyword->0)),
    {
        match &self.exit_keyword {
            Some(word) => self.is_keyword(word),
            None => false,
        }
    }

    /// Whether Enter asks the language for an indentation.
    pub fn asks_indent(&self) -> (b: bool)
        requires
            self.wf(),
        ensures
            b == self@.asks_indent(),
    {
        self.attached.is_none() && !blank(self.cur()[0].as_str()) && !self.is_exit()
            && !self.is_keyword(&self.clear_keyword)
    }

    /// The lines that the language is given to say how far the next line is
    /// indented.
    pub fn indent_context(&self) -> (lines: &[String])
        requires
            self.wf(),
        ensures
            lines_view(lines@) == self@.indent_context(),
    {
        let shown = self.cur();
        let n = shown.len();
        let end = if self.c.line_index < n {
            self.c.line_index + 1
        } else {
            n
        };
        vstd::slice::slice_subrange(shown.as_slice(), 0, end)
    }

    /// The text to show for line `index` of the command that is shown, as
    /// the language wants it shown; nothing where there is no such line.
    pub fn render_line(&self, index: usize) -> (text: Option<String>)
        requires
            self.wf(),
        ensures
            text.is_some() == (index < self@.active().len()),
            text matches Some(line) ==> shows::<L>(self@.active(), index, line),
    {
        let shown = self.cur();
        if index < shown.len() {
            let lines = shown.as_slice();
            let line = L::print_line(lines, index);
            assert(lines_view(lines@) == self@.active());
            assert(call_ensures(L::print_line, (lines, index), line));
            assert(shows::<L>(self@.active(), index, line));
            Some(line)
        } else {
            None
        }
    }

    /// The key Enter, where the language answered `indent`.
    pub fn enter(&mut self, indent: usize) -> (step: Step)
        requires
            old(self).wf(),
        ensures
            final(self).wf(),
            final(self)@ == old(self)@.enter(indent as nat).state,
            final(self).file() == old(self).file(),
            step.draws@ == old(self)@.enter(indent as nat).draws,
            step.outcome@ == old(self)@.enter(indent as nat).outcome,
    {
        if self.attached.is_some() {
            return self.leave(Sentinel::Detach, Self::leave_draws());
        }
        if blank(self.cur()[0].as_str()) {
            let mut draws: Vec<Draw> = Vec::new();
            draws.push(Draw::MoveToNextLine(1));
            draws.push(Draw::Colour);
            draws.push(Draw::Leader(true));
            return Self::going_on(draws);
        }
        if self.is_exit() {
            let mut draws: Vec<Draw> = Vec::new();
            draws.push(Draw::RawMode(false));
            draws.push(Draw::Newline);
            return self.leave(Sentinel::Exit, draws);
        }
        if self.is_keyword(&self.clear_keyword) {
            let mut lines: Vec<String> = Vec::new();
            lines.push(String::new());
            self.lines = lines;
            self.c.char_index = 0;
            let mut draws: Vec<Draw> = Vec::new();
            draws.push(Draw::ClearAll);
            draws.push(Draw::MoveHome);
            draws.push(Draw::Colour);
            draws.push(Draw::Leader(true));
            draws.push(Draw::ResetColour);
            proof {
                assert(self.lines.deep_view() == seq![Seq::<char>::empty()]);
            }
            return Self::going_on(draws);
        }
        let l = self.c.line_index;
        let last = l == self.cur().len() - 1;
        if last && (self.c.browsing || indent == 0) {
            let text = join_lines(self.cur());
            let entry = clone_lines(self.cur());
            self.reset_lines();
            self.history.push(entry);
            let mut draws: Vec<Draw> = Vec::new();
            draws.push(Draw::RawMode(false));
            draws.push(Draw::Newline);
            Step { draws, outcome: Outcome::Command(text) }
        } else {
            self.replace_with_history();
            let ghost before = self@;
            self.lines.insert(l + 1, spaces(indent));
            self.c.line_index = l + 1;
            self.c.char_index = indent;
            proof {
                assert(self.lines.deep_view() == before.lines.insert(
                    l + 1,
                    blanks(indent as nat),
                ));
            }
            let mut draws: Vec<Draw> = Vec::new();
            draws.push(Draw::Newline);
            self.print_lines(l + 1, &mut draws);
            Self::going_on(draws)
        }
    }

    /// A key that stands for a character: with the control key, `c` asks to
    /// leave, `d` to detach, and `l` clears the terminal and draws the
    /// command again; any other character is typed.
    fn key_char(&mut self, ch: char, control: bool) -> (step: Step)
        requires
            old(self).wf(),
        ensures
            final(self).wf(),
            final(self).file() == old(self).file(),
            reacted(
                old(self)@,
                Event::Key(KeyEvent { code: KeyCode::Char(ch), control }),
                0,
                final(self)@,
                step,
            ),
    {
        if control && ch == 'c' {
            let mut draws: Vec<Draw> = Vec::new();
            draws.push(Draw::RawMode(false));
            self.leave(Sentinel::Exit, draws)
        } else if control && ch == 'd' {
            self.leave(Sentinel::Detach, Self::leave_draws())
        } else if control && ch == 'l' {
            let mut draws: Vec<Draw> = Vec::new();
            draws.push(Draw::ClearAll);
            draws.push(Draw::MoveHome);
            assert(draws@ == seq![Draw::ClearAll, Draw::MoveHome]);
            self.print_lines(0, &mut draws);
            Self::going_on(draws)
        } else {
            self.type_char(ch);
            self.show()
        }
    }

    /// The key Tab: four spaces are typed.
    fn key_tab(&mut self) -> (step: Step)
        requires
            old(self).wf(),
        ensures
            final(self).wf(),
            final(self).file() == old(self).file(),
            final(self)@ == old(self)@.typed(blanks(4)),
            step.draws@ == final(self)@.repaint_line(),
            step.outcome == Outcome::Continue,
    {
        proof {
            reveal_strlit("    ");
            assert("    "@ == blanks(4));
        }
        self.type_text("    ");
        self.show()
    }

    /// The keys that move the cursor within its line.
    fn key_move(&mut self, code: KeyCode) -> (step: Step)
        requires
            old(self).wf(),
            code == KeyCode::Home || code == KeyCode::End || code == KeyCode::Left || code
                == KeyCode::Right,
        ensures
            final(self).wf(),
            final(self).file() == old(self).file(),
            final(self)@ == (match code {
                KeyCode::Home => old(self)@.home(),
                KeyCode::End => old(self)@.end(),
                KeyCode::Left => old(self)@.left(),
                _ => old(self)@.right(),
            }),
            step.draws@ == final(self)@.repaint_line(),
            step.outcome == Outcome::Continue,
    {
        let len = self.cur_len();
        let c = self.c.char_index;
        self.c.char_index = match code {
            KeyCode::Home => 0,
            KeyCode::End => len,
            KeyCode::Left => if c > 0 {
                c - 1
            } else {
                c
            },
            _ => if c < len {
                c + 1
            } else {
                c
            },
        };
        self.show()
    }

    /// What a key does, where the language answers `indent` if it is asked.
    fn key(&mut self, key: KeyEvent, indent: usize) -> (step: Step)
        requires
            old(self).wf(),
        ensures
            final(self).wf(),
            final(self).file() == old(self).file(),
            reacted(old(self)@, Event::Key(key), indent as nat, final(self)@, step),
    {
        match key.code {
            KeyCode::Char(ch) => self.key_char(ch, key.control),
            KeyCode::Esc => self.leave(Sentinel::Back, Self::leave_draws()),
            KeyCode::Tab => self.key_tab(),
            KeyCode::Home => self.key_move(KeyCode::Home),
            KeyCode::End => self.key_move(KeyCode::End),
            KeyCode::Left => self.key_move(KeyCode::Left),
            KeyCode::Right => self.key_move(KeyCode::Right),
            KeyCode::PageUp => self.history_up(true),
            KeyCode::Up => self.key_up(),
            KeyCode::PageDown => self.history_down(true),
            KeyCode::Down => self.key_down(),
            KeyCode::Backspace => self.key_backspace(),
            KeyCode::Delete => self.key_delete(),
            KeyCode::Enter => self.enter(indent),
            KeyCode::Other => self.show(),
        }
    }

    /// What an event does, where the language answers `indent` if it is
    /// asked.
    pub fn handle_with(&mut self, event: Event, indent: usize) -> (step: Step)
        requires
            old(self).wf(),
        ensures
            final(self).wf(),
            final(self).file() == old(self).file(),
            final(self)@.in_range(),
            reacted(old(self)@, event, indent as nat, final(self)@, step),
    {
        match event {
            Event::Key(key) => self.key(key, indent),
            Event::Other => self.show(),
        }
    }

    /// What an event does. Where Enter needs to know how far the next line
    /// is indented, the language is asked, with the lines of
    /// [`Repl::indent_context`]; what follows is [`Repl::handle_with`] for
    /// its answer.
    pub fn handle(&mut self, event: Event) -> (step: Step)
        requires
            old(self).wf(),
        ensures
            final(self).wf(),
            final(self).file() == old(self).file(),
            final(self)@.in_range(),
            old(self)@.consults(event) ==> exists|indent: usize| #[trigger]
                answers::<L>(old(self)@.indent_context(), indent) && reacted(
                    old(self)@,
                    event,
                    indent as nat,
                    final(self)@,
                    step,
                ),
            !old(self)@.consults(event) ==> reacted(old(self)@, event, 0, final(self)@, step),
    {
        let asked = match event {
            Event::Key(key) => match key.code {
                KeyCode::Enter => self.asks_indent(),
                _ => false,
            },
            Event::Other => false,
        };
        if asked {
            let context = self.indent_context();
            let indent = L::get_indent(context);
            proof {
                assert(call_ensures(L::get_indent, (context,), indent));
                assert(answers::<L>(self@.indent_context(), indent));
            }
            self.handle_with(event, indent)
        } else {
            self.handle_with(event, 0)
        }
    }
}

} // verus!
