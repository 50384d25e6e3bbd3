//! The session: a command that is being written, a cursor in it, and the
//! history of the commands before it.

pub mod keys;

use crate::event::Draw;
use crate::history::History;
use crate::lang::{DefaultLangInterface, LangInterface};
use crate::model::{fit, row, rows, State};
use crate::persist::{loaded, split_lines};
use crate::text::{clone_lines, decimal, decimal_text, lemma_decimal_len};
use std::marker::PhantomData;
use std::path::PathBuf;
use vstd::prelude::*;
use vstd::string::*;

verus! {

/// Where the cursor is.
#[derive(Debug, Clone, Copy, PartialEq, Eq, Structural)]
pub struct Cursor {
    /// Whether a stored command is shown in place of the one being written.
    pub browsing: bool,
    /// The line of the cursor in the command that is shown.
    pub line_index: usize,
    /// The character of the cursor in its line.
    pub char_index: usize,
}

/// The name of a module as it stands before the leader.
pub open spec fn module_name(name: Seq<char>) -> Seq<char> {
    seq!['('] + name + seq![')', ' ']
}

/// The name of a module as it stands before the leader.
pub fn print_module_name(name: &str) -> (text: String)
    ensures
        text@ == module_name(name@),
{
    proof {
        reveal_strlit("(");
        reveal_strlit(") ");
    }
    let mut text = String::from_str("(");
    text.append(name);
    text.append(") ");
    text
}

/// The number of decimal digits of `n`.
pub fn digits(n: usize) -> (d: usize)
    ensures
        d == decimal(n as nat).len(),
        1 <= d <= 20,
    decreases n,
{
    proof {
        lemma_decimal_len(n as nat);
    }
    if n < 10 {
        1
    } else {
        digits(n / 10) + 1
    }
}

/// A session with the terminal.
///
/// - `leader` is printed before the first line of a command.
/// - `continued_leader` is printed before each further line.
/// - The history holds the most recent commands, up to its capacity, and is
///   kept in a file where a path was given.
/// - The clear keyword, entered as a command, clears the terminal.
pub struct Repl<L: LangInterface = DefaultLangInterface> {
    /// The commands that were entered.
    history: History,
    /// What is printed before the first line of a command.
    leader: &'static str,
    /// What the session is attached to, if anything.
    attached: Option<usize>,
    /// The number of characters of the leader.
    leader_len: usize,
    /// The name of the module that was selected, if any.
    module: Option<&'static str>,
    /// The number of characters of the name of the module.
    module_len: usize,
    /// What is printed before each further line of a command.
    continued_leader: &'static str,
    /// The number of characters of the leader of continued lines.
    continued_leader_len: usize,
    /// The command that clears the terminal.
    clear_keyword: String,
    /// The command that asks to leave, if there is one.
    exit_keyword: Option<String>,
    /// The command that is being written.
    lines: Vec<String>,
    /// Where the cursor is.
    c: Cursor,
    /// Whether the leader of this command was printed.
    prompted: bool,
    _lang_interface: PhantomData<L>,
}

impl<L: LangInterface> View for Repl<L> {
    type V = State;

    closed spec fn view(&self) -> State {
        State {
            entries: self.history.entries(),
            index: self.history.index(),
            limit: self.history.limit(),
            lines: self.lines.deep_view(),
            browsing: self.c.browsing,
            line_index: self.c.line_index as nat,
            char_index: self.c.char_index as nat,
            prompted: self.prompted,
            attached: match self.attached {
                Some(id) => Some(id as nat),
                None => None,
            },
            module: match self.module {
                Some(name) => Some(name@),
                None => None,
            },
            leader: self.leader@,
            continued_leader: self.continued_leader@,
            clear_keyword: self.clear_keyword@,
            exit_keyword: match self.exit_keyword {
                Some(word) => Some(word@),
                None => None,
            },
        }
    }
}

impl<L: LangInterface> Repl<L> {
    /// The session is in a state that it can be in: its history is (see
    /// [`History::wf`]), its state is (see [`State::wf`]), and the widths
    /// that it keeps are those of the leaders and of the name of the module.
    pub closed spec fn wf(&self) -> bool {
        &&& self.history.wf()
        &&& self@.wf()
        &&& self.leader_len == self.leader@.len()
        &&& self.continued_leader_len == self.continued_leader@.len()
        &&& match self.module {
            Some(name) => self.module_len == name@.len(),
            None => true,
        }
    }

    /// The file that the history is kept in between sessions.
    pub closed spec fn file(&self) -> Option<PathBuf> {
        self.history.file()
    }

    /// A session that can be used is in a state that a session can be in.
    pub proof fn lemma_wf(&self)
        requires
            self.wf(),
        ensures
            self@.wf(),
    {
    }

    /// A session with a history of at most 64 commands, which starts
    /// empty: [`Repl::load_history`] reads what a file holds.
    pub fn new(
        leader: &'static str,
        continued_leader: &'static str,
        path: Option<PathBuf>,
    ) -> (repl: Self)
        ensures
            repl.wf(),
            repl@ == State::initial(leader@, continued_leader@, 64),
            repl.file() == path,
    {
        Self::with_capacity(leader, continued_leader, 64, path)
    }

    /// A session with a history of at most `capacity` commands, which
    /// starts empty: [`Repl::load_history`] reads what a file holds.
    pub fn with_capacity(
        leader: &'static str,
        continued_leader: &'static str,
        capacity: usize,
        path: Option<PathBuf>,
    ) -> (repl: Self)
        ensures
            repl.wf(),
            repl@ == State::initial(leader@, continued_leader@, capacity as nat),
            repl.file() == path,
    {
        proof {
            reveal_strlit("clear");
        }
        let mut lines: Vec<String> = Vec::new();
        lines.push(String::new());
        let repl = Repl {
            history: History::with_capacity(capacity, path),
            leader,
            attached: None,
            leader_len: leader.unicode_len(),
            module: None,
            module_len: 0,
            continued_leader,
            continued_leader_len: continued_leader.unicode_len(),
            clear_keyword: String::from_str("clear"),
            exit_keyword: None,
            lines,
            c: Cursor { browsing: false, line_index: 0, char_index: 0 },
            prompted: false,
            _lang_interface: PhantomData,
        };
        proof {
            assert(repl.lines.deep_view() == seq![Seq::<char>::empty()]);
            assert(repl@.clear_keyword == seq!['c', 'l', 'e', 'a', 'r']);
        }
        repl
    }
}

impl<L: LangInterface> Repl<L> {
    /// Sets the command that clears the terminal. An empty keyword is never
    /// entered: it switches the command off.
    pub fn set_clear_keyword(&mut self, clear_keyword: &'static str)
        requires
            old(self).wf(),
        ensures
            final(self).wf(),
            final(self)@ == (State { clear_keyword: clear_keyword@, ..old(self)@ }),
            final(self).file() == old(self).file(),
    {
        self.clear_keyword = String::from_str(clear_keyword);
    }

    /// Sets the command that asks to leave. An empty keyword is never
    /// entered: it switches the command off.
    pub fn set_exit_keyword(&mut self, exit_keyword: &'static str)
        requires
            old(self).wf(),
        ensures
            final(self).wf(),
            final(self)@ == (State { exit_keyword: Some(exit_keyword@), ..old(self)@ }),
            final(self).file() == old(self).file(),
    {
        self.exit_keyword = Some(String::from_str(exit_keyword));
    }

    /// Tells the session that a module was selected: its name stands before
    /// the leader from now on.
    pub fn module(&mut self, module: &'static str)
        requires
            old(self).wf(),
        ensures
            final(self).wf(),
            final(self)@ == (State { module: Some(module@), ..old(self)@ }),
            final(self).file() == old(self).file(),
    {
        self.module = Some(module);
        self.module_len = module.unicode_len();
    }

    /// Tells the session that no module is selected any more.
    pub fn exit_module(&mut self)
        requires
            old(self).wf(),
        ensures
            final(self).wf(),
            final(self)@ == (State { module: None, ..old(self)@ }),
            final(self).file() == old(self).file(),
    {
        self.module = None;
        self.module_len = 0;
    }

    /// Tells the session that it is attached: Enter gives control back to
    /// the caller from now on.
    pub fn attach(&mut self, id: usize)
        requires
            old(self).wf(),
        ensures
            final(self).wf(),
            final(self)@ == (State { attached: Some(id as nat), ..old(self)@ }),
            final(self).file() == old(self).file(),
    {
        self.attached = Some(id);
    }

    /// Tells the session that it is attached to nothing any more.
    pub fn detach(&mut self)
        requires
            old(self).wf(),
        ensures
            final(self).wf(),
            final(self)@ == (State { attached: None, ..old(self)@ }),
            final(self).file() == old(self).file(),
    {
        self.attached = None;
    }

    /// The history of the session.
    pub fn history(&self) -> (history: &History)
        requires
            self.wf(),
        ensures
            history.wf(),
            history.entries() == self@.entries,
            history.index() == self@.index,
            history.limit() == self@.limit,
            history.file() == self.file(),
    {
        &self.history
    }

    /// Where the cursor is.
    pub fn cursor(&self) -> (cursor: Cursor)
        ensures
            cursor.browsing == self@.browsing,
            cursor.line_index == self@.line_index,
            cursor.char_index == self@.char_index,
    {
        self.c
    }

    /// The command that is shown.
    pub fn cur(&self) -> (lines: &Vec<String>)
        requires
            self.wf(),
        ensures
            lines.deep_view() == self@.active(),
    {
        if self.c.browsing {
            self.history.cur().unwrap()
        } else {
            &self.lines
        }
    }

    /// The number of characters of the line of the cursor.
    fn cur_len(&self) -> (n: usize)
        requires
            self.wf(),
        ensures
            n == self@.line().len(),
    {
        self.cur()[self.c.line_index].as_str().unicode_len()
    }

    /// What is printed before a line: before the first line of a command
    /// the attachment or the module, and the leader; before the others the
    /// leader of continued lines.
    pub fn leader_text(&self, first: bool) -> (text: String)
        ensures
            text@ == self@.leader_text(first),
    {
        if !first {
            return String::from_str(self.continued_leader);
        }
        let mut text = match self.attached {
            Some(id) => {
                proof {
                    reveal_strlit("(Attached: ");
                    reveal_strlit(") ");
                }
                let mut text = String::from_str("(Attached: ");
                text.append(decimal_text(id).as_str());
                text.append(") ");
                text
            },
            None => match self.module {
                Some(name) => print_module_name(name),
                None => String::new(),
            },
        };
        text.append(self.leader);
        text
    }

    /// The number of columns that [`Repl::leader_text`] takes.
    pub fn leader_width(&self, first: bool) -> (width: usize)
        requires
            self.wf(),
        ensures
            width == fit(self@.leader_text(first).len() as int),
    {
        if first {
            let extra: usize = match self.attached {
                Some(id) => digits(id) + 13,
                None => match self.module {
                    Some(_) => self.module_len.saturating_add(3),
                    None => 0,
                },
            };
            extra.saturating_add(self.leader_len)
        } else {
            self.continued_leader_len
        }
    }

    /// The column of the cursor on the terminal.
    pub fn column(&self) -> (column: usize)
        requires
            self.wf(),
        ensures
            column == self@.column(),
    {
        self.leader_width(self.c.line_index == 0).saturating_add(self.c.char_index)
    }

    /// Draws the whole command again from row `from` of it, where the
    /// cursor of the terminal stands.
    fn print_lines(&self, from: usize, draws: &mut Vec<Draw>)
        requires
            self.wf(),
        ensures
            final(draws)@ == old(draws)@ + self@.repaint(from as nat),
    {
        if from > 0 {
            draws.push(Draw::MoveUp(from));
        }
        draws.push(Draw::ClearLine);
        draws.push(Draw::ClearBelow);
        let ghost head = draws@;
        let n = self.cur().len();
        let mut i: usize = 0;
        while i < n
            invariant
                i <= n,
                draws@ == head + rows(i as nat),
            decreases n - i,
        {
            draws.push(Draw::MoveToColumn(0));
            draws.push(Draw::Colour);
            draws.push(Draw::Leader(i == 0));
            draws.push(Draw::Line(i));
            draws.push(Draw::Newline);
            proof {
                assert(head + rows(i as nat) + row(i as nat) == head + (rows(i as nat) + row(
                    i as nat,
                )));
            }
            i = i + 1;
        }
        draws.push(Draw::MoveUp(n - self.c.line_index));
        draws.push(Draw::MoveToColumn(self.column()));
    }

    /// Draws the line of the cursor again.
    fn print_cursor_line(&self, draws: &mut Vec<Draw>)
        requires
            self.wf(),
        ensures
            final(draws)@ == old(draws)@ + self@.repaint_line(),
    {
        draws.push(Draw::ClearLine);
        draws.push(Draw::MoveToColumn(0));
        draws.push(Draw::Colour);
        draws.push(Draw::Leader(self.c.line_index == 0));
        draws.push(Draw::Line(self.c.line_index));
        draws.push(Draw::MoveToColumn(self.column()));
    }

    /// Forgets the command that is being written: the session is between
    /// two commands.
    pub fn reset_lines(&mut self)
        requires
            old(self).wf(),
        ensures
            final(self).wf(),
            final(self)@ == old(self)@.reset(),
            final(self).file() == old(self).file(),
    {
        let mut lines: Vec<String> = Vec::new();
        lines.push(String::new());
        self.lines = lines;
        self.c = Cursor { browsing: false, line_index: 0, char_index: 0 };
        self.prompted = false;
        self.history.reset_iter();
        proof {
            assert(self.lines.deep_view() == seq![Seq::<char>::empty()]);
        }
    }

    /// Copies the stored command that is browsed, if one is, into the
    /// command that is being written, and ends browsing.
    fn replace_with_history(&mut self)
        requires
            old(self).wf(),
        ensures
            final(self).wf(),
            final(self)@ == old(self)@.materialize(),
            final(self).file() == old(self).file(),
    {
        if self.c.browsing {
            self.lines = clone_lines(self.history.cur().unwrap());
            self.history.reset_iter();
            self.c.browsing = false;
        }
    }

    /// Reads the text of a history file into the history: see
    /// [`History::read_from_text`]. The session is then between two
    /// commands.
    pub fn load_history(&mut self, contents: &str)
        requires
            old(self).wf(),
        ensures
            final(self).wf(),
            final(self)@ == (State {
                entries: loaded(
                    old(self)@.entries,
                    Seq::empty(),
                    split_lines(contents@),
                    old(self)@.limit,
                ),
                ..old(self)@.reset()
            }),
            final(self).file() == old(self).file(),
    {
        self.reset_lines();
        self.history.read_from_text(contents);
    }

    /// Starts or takes up a cycle: the leader is printed unless it was.
    pub fn begin(&mut self) -> (draws: Vec<Draw>)
        requires
            old(self).wf(),
        ensures
            final(self).wf(),
            final(self)@ == old(self)@.begin().state,
            draws@ == old(self)@.begin().draws,
            final(self).file() == old(self).file(),
    {
        let mut draws: Vec<Draw> = Vec::new();
        if self.attached.is_none() {
            draws.push(Draw::RawMode(true));
        }
        if !self.prompted {
            draws.push(Draw::Colour);
            if self.attached.is_none() {
                draws.push(Draw::Leader(true));
            }
            draws.push(Draw::ResetColour);
            self.prompted = true;
        }
        draws
    }
}

impl Repl<DefaultLangInterface> {
    /// A session for a language that needs nothing of its own, with a
    /// history of at most 64 commands.
    pub fn newd(
        leader: &'static str,
        continued_leader: &'static str,
        path: Option<PathBuf>,
    ) -> (repl: Self)
        ensures
            repl.wf(),
            repl@ == State::initial(leader@, continued_leader@, 64),
            repl.file() == path,
    {
        Self::with_capacity(leader, continued_leader, 64, path)
    }

    /// A session for a language that needs nothing of its own, with a
    /// history of at most `capacity` commands.
    pub fn with_capacityd(
        leader: &'static str,
        continued_leader: &'static str,
        capacity: usize,
        path: Option<PathBuf>,
    ) -> (repl: Self)
        ensures
            repl.wf(),
            repl@ == State::initial(leader@, continued_leader@, capacity as nat),
            repl.file() == path,
    {
        Self::with_capacity(leader, continued_leader, capacity, path)
    }
}

} // verus!
