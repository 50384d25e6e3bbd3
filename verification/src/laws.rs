//! What holds of every session, whatever is typed.

use crate::event::{Draw, Event, KeyCode, KeyEvent, OutcomeView};
use crate::history::pushed;
use crate::model::{row, rows, Reaction, State};
use crate::text::{blanks, is_blank, joined};
use vstd::prelude::*;

verus! {

/// A session that was just made can be used.
pub proof fn lemma_initial_wf(leader: Seq<char>, continued_leader: Seq<char>, limit: nat)
    ensures
        State::initial(leader, continued_leader, limit).wf(),
{
}

/// The state between two commands can be used.
pub proof fn lemma_reset_wf(s: State)
    requires
        s.wf(),
    ensures
        s.reset().wf(),
{
}

/// Copying the stored command that is browsed leaves the store as it is,
/// shows the same command as before, and keeps the cursor in range.
pub proof fn lemma_materialize(s: State)
    requires
        s.wf(),
    ensures
        s.materialize().wf(),
        s.materialize().entries == s.entries,
        s.materialize().lines == s.active(),
        s.materialize().active() == s.active(),
        !s.materialize().browsing,
{
}

/// Typing keeps the cursor in range.
pub proof fn lemma_typed_wf(s: State, text: Seq<char>)
    requires
        s.wf(),
    ensures
        s.typed(text).wf(),
{
}

/// Moving within a line keeps the cursor in range.
pub proof fn lemma_moves_wf(s: State)
    requires
        s.wf(),
    ensures
        s.home().wf(),
        s.end().wf(),
        s.left().wf(),
        s.right().wf(),
{
}

/// Moving to another line of the command keeps the cursor in range.
pub proof fn lemma_to_line_wf(s: State, line: nat)
    requires
        s.wf(),
        line < s.active().len(),
    ensures
        s.to_line(line).wf(),
{
}

/// A step into the history keeps the cursor in range.
pub proof fn lemma_browse_wf(s: State, retain: bool)
    requires
        s.wf(),
    ensures
        s.older(retain).wf(),
        s.newer(retain).wf(),
{
}

/// Backspace keeps the cursor in range.
pub proof fn lemma_backspace_wf(s: State)
    requires
        s.wf(),
    ensures
        s.backspace().state.wf(),
{
}

/// Delete keeps the cursor in range.
pub proof fn lemma_delete_wf(s: State)
    requires
        s.wf(),
    ensures
        s.delete().state.wf(),
{
    lemma_materialize(s);
}

/// What is stored after a push can be stored.
pub proof fn lemma_pushed_wf(entries: Seq<Seq<Seq<char>>>, entry: Seq<Seq<char>>, limit: nat)
    requires
        entries.len() <= limit,
        forall|i: int| 0 <= i < entries.len() ==> (#[trigger] entries[i]).len() > 0,
    ensures
        pushed(entries, entry, limit).len() <= limit,
        forall|i: int|
            0 <= i < pushed(entries, entry, limit).len() ==> (#[trigger] pushed(
                entries,
                entry,
                limit,
            )[i]).len() > 0,
{
    let after = pushed(entries, entry, limit);
    assert forall|i: int| 0 <= i < after.len() implies (#[trigger] after[i]).len() > 0 by {}
}

/// Enter keeps the cursor in range, whatever the language answers.
pub proof fn lemma_enter_wf(s: State, indent: nat)
    requires
        s.wf(),
    ensures
        s.enter(indent).state.wf(),
{
}

/// After every key the cursor stands in a line of the command that is
/// shown, and in that line before a character or at its end.
pub proof fn lemma_key_wf(s: State, key: KeyEvent, indent: nat)
    requires
        s.wf(),
    ensures
        s.key(key, indent).state.wf(),
{
    match key.code {
        KeyCode::Char(ch) => {
            lemma_reset_wf(s);
            lemma_typed_wf(s, seq![ch]);
        },
        KeyCode::Esc => lemma_reset_wf(s),
        KeyCode::Tab => lemma_typed_wf(s, blanks(4)),
        KeyCode::Home | KeyCode::End | KeyCode::Left | KeyCode::Right => lemma_moves_wf(s),
        KeyCode::PageUp | KeyCode::PageDown => lemma_browse_wf(s, true),
        KeyCode::Up => {
            lemma_browse_wf(s, false);
            if s.line_index > 0 {
                lemma_to_line_wf(s, (s.line_index - 1) as nat);
            }
        },
        KeyCode::Down => {
            lemma_browse_wf(s, false);
            if s.line_index + 1 < s.active().len() {
                lemma_to_line_wf(s, s.line_index + 1);
            }
        },
        KeyCode::Backspace => lemma_backspace_wf(s),
        KeyCode::Delete => lemma_delete_wf(s),
        KeyCode::Enter => lemma_enter_wf(s, indent),
        KeyCode::Other => {},
    }
}

/// After every step the cursor stands in a line of the command that is
/// shown, and in that line before a character or at its end; the store is
/// within its capacity.
pub proof fn lemma_react_wf(s: State, event: Event, indent: nat)
    requires
        s.wf(),
    ensures
        s.react(event, indent).state.wf(),
        s.react(event, indent).state.in_range(),
        s.react(event, indent).state.entries.len() <= s.limit,
{
    match event {
        Event::Key(key) => {
            lemma_key_wf(s, key, indent);
            lemma_store(s, event, indent);
        },
        Event::Other => {},
    }
}

/// The state after a run of events, each with what the language answers
/// where it is asked.
pub open spec fn run(s: State, inputs: Seq<(Event, nat)>) -> State
    decreases inputs.len(),
{
    if inputs.len() == 0 {
        s
    } else {
        run(s, inputs.drop_last()).react(inputs.last().0, inputs.last().1).state
    }
}

/// Whatever is typed, and whatever the language answers, the cursor stays
/// in range.
pub proof fn lemma_run_in_range(s: State, inputs: Seq<(Event, nat)>)
    requires
        s.wf(),
    ensures
        run(s, inputs).wf(),
        run(s, inputs).in_range(),
    decreases inputs.len(),
{
    if inputs.len() > 0 {
        lemma_run_in_range(s, inputs.drop_last());
        lemma_react_wf(run(s, inputs.drop_last()), inputs.last().0, inputs.last().1);
    }
}

/// A push onto a full store takes out one command, the oldest, puts the new
/// one in front and leaves the others in their order; the store is as full
/// as before.
pub proof fn lemma_push_full(entries: Seq<Seq<Seq<char>>>, entry: Seq<Seq<char>>, limit: nat)
    requires
        entries.len() == limit,
        limit > 0,
        entry.len() > 0,
    ensures
        pushed(entries, entry, limit) == seq![entry] + entries.drop_last(),
        pushed(entries, entry, limit).len() == limit,
{
}

/// A push never takes the store beyond its capacity, and below it keeps
/// every command.
pub proof fn lemma_push_bounded(entries: Seq<Seq<Seq<char>>>, entry: Seq<Seq<char>>, limit: nat)
    requires
        entries.len() <= limit,
    ensures
        pushed(entries, entry, limit).len() <= limit,
        entries.len() < limit && entry.len() > 0 ==> pushed(entries, entry, limit) == seq![entry]
            + entries,
{
}

/// A step towards older commands moves the position by one while there is
/// an older command, and nothing else; a step towards newer commands moves
/// it back by one while a command is browsed, and nothing else. The
/// position stays between `-1` and that of the oldest command. The command
/// that is being written stays as it is all the while.
pub proof fn lemma_navigation(s: State, retain: bool)
    requires
        s.wf(),
    ensures
        s.index + 1 < s.entries.len() ==> s.older(retain).index == s.index + 1,
        s.index + 1 >= s.entries.len() ==> s.older(retain) == s,
        s.index > -1 ==> s.newer(retain).index == s.index - 1,
        s.index <= -1 ==> s.newer(retain) == s,
        -1 <= s.older(retain).index < s.entries.len(),
        -1 <= s.newer(retain).index < s.entries.len(),
        s.older(retain).entries == s.entries,
        s.newer(retain).entries == s.entries,
        s.older(retain).lines == s.lines,
        s.newer(retain).lines == s.lines,
{
}

/// Whether `event` changes the text of the command in state `s`: a
/// character or a tab is typed, or Backspace or Delete has something to
/// take out.
pub open spec fn is_edit(s: State, event: Event) -> bool {
    match event {
        Event::Key(key) => match key.code {
            KeyCode::Char(ch) => !(key.control && (ch == 'c' || ch == 'd' || ch == 'l')),
            KeyCode::Tab => true,
            KeyCode::Backspace => s.char_index > 0 || s.line_index > 0,
            KeyCode::Delete => s.char_index < s.line().len() || s.line_index + 1
                < s.active().len(),
            _ => false,
        },
        Event::Other => false,
    }
}

/// An edit while a stored command is browsed works on a copy of that
/// command, line for line, which becomes the command that is being written;
/// browsing ends, and the store keeps every command as it was.
pub proof fn lemma_edit_while_browsing(s: State, event: Event, indent: nat)
    requires
        s.wf(),
        s.browsing,
        is_edit(s, event),
    ensures
        s.materialize().lines == s.entries[s.index],
        s.react(event, indent) == s.materialize().react(event, indent),
        !s.react(event, indent).state.browsing,
        s.react(event, indent).state.entries == s.entries,
{
}

/// Enter in a line of a stored command that is not its last copies the
/// command, line for line, and puts the new line into the copy; the store
/// keeps every command as it was.
pub proof fn lemma_enter_while_browsing(s: State, indent: nat)
    requires
        s.wf(),
        s.browsing,
        s.asks_indent(),
        !s.completes(indent),
    ensures
        s.enter(indent).state.lines == s.entries[s.index].insert(
            s.line_index as int + 1,
            blanks(indent),
        ),
        !s.enter(indent).state.browsing,
        s.enter(indent).state.entries == s.entries,
        s.enter(indent).state.line_index == s.line_index + 1,
        s.enter(indent).state.char_index == indent,
        s.enter(indent).outcome == OutcomeView::Continue,
{
}

/// Whether two states were set up alike: they have the same leaders,
/// keywords, attachment and module, and a history of the same capacity.
pub open spec fn same_setup(a: State, b: State) -> bool {
    &&& a.leader == b.leader
    &&& a.continued_leader == b.continued_leader
    &&& a.clear_keyword == b.clear_keyword
    &&& a.exit_keyword == b.exit_keyword
    &&& a.attached == b.attached
    &&& a.module == b.module
    &&& a.limit == b.limit
}

/// A change of the text changes neither the store nor what the session
/// was set up with.
pub proof fn lemma_edits_keep(s: State, text: Seq<char>)
    requires
        s.wf(),
    ensures
        same_setup(s, s.typed(text)),
        same_setup(s, s.backspace().state),
        same_setup(s, s.delete().state),
        s.typed(text).entries == s.entries,
        s.backspace().state.entries == s.entries,
        s.delete().state.entries == s.entries,
        s.backspace().outcome == OutcomeView::Continue,
        s.delete().outcome == OutcomeView::Continue,
{
}

/// A move of the cursor changes neither the store nor what the session
/// was set up with.
pub proof fn lemma_moves_keep(s: State, retain: bool)
    requires
        s.wf(),
    ensures
        same_setup(s, s.older(retain)),
        same_setup(s, s.newer(retain)),
        same_setup(s, s.up().state),
        same_setup(s, s.down().state),
        s.older(retain).entries == s.entries,
        s.newer(retain).entries == s.entries,
        s.up().state.entries == s.entries,
        s.down().state.entries == s.entries,
        s.up().outcome == OutcomeView::Continue,
        s.down().outcome == OutcomeView::Continue,
{
}

/// Enter does not change what the session was set up with. Where it ends
/// the command, the command is pushed as it was shown; where it does not,
/// the store stays as it is.
pub proof fn lemma_enter_keeps(s: State, indent: nat)
    requires
        s.wf(),
    ensures
        same_setup(s, s.enter(indent).state),
        s.enter(indent).outcome is Command ==> s.enter(indent).state.entries == pushed(
            s.entries,
            s.active(),
            s.limit,
        ) && s.enter(indent).outcome == OutcomeView::Command(joined(s.active())),
        !(s.enter(indent).outcome is Command) ==> s.enter(indent).state.entries == s.entries,
{
}

/// The store changes only when a command is entered: then the command is
/// pushed, as it was shown. No other step changes the store, and no step
/// changes what the session was set up with: the leaders, the keywords, the
/// attachment, the module and the capacity of the history.
pub proof fn lemma_store(s: State, event: Event, indent: nat)
    requires
        s.wf(),
    ensures
        s.react(event, indent).outcome is Command ==> s.react(event, indent).state.entries
            == pushed(s.entries, s.active(), s.limit) && s.react(event, indent).outcome
            == OutcomeView::Command(joined(s.active())),
        !(s.react(event, indent).outcome is Command) ==> s.react(event, indent).state.entries
            == s.entries,
        same_setup(s, s.react(event, indent).state),
{
    match event {
        Event::Key(key) => match key.code {
            KeyCode::Char(ch) => lemma_edits_keep(s, seq![ch]),
            KeyCode::Tab => lemma_edits_keep(s, blanks(4)),
            KeyCode::Backspace => lemma_edits_keep(s, Seq::empty()),
            KeyCode::Delete => lemma_edits_keep(s, Seq::empty()),
            KeyCode::PageUp => lemma_moves_keep(s, true),
            KeyCode::PageDown => lemma_moves_keep(s, true),
            KeyCode::Up => lemma_moves_keep(s, false),
            KeyCode::Down => lemma_moves_keep(s, false),
            KeyCode::Enter => lemma_enter_keeps(s, indent),
            KeyCode::Home => {},
            KeyCode::End => {},
            KeyCode::Left => {},
            KeyCode::Right => {},
            KeyCode::Esc => {},
            KeyCode::Other => {},
        },
        Event::Other => {},
    }
}

/// The text of a command starts with its first line.
pub proof fn lemma_joined_starts(lines: Seq<Seq<char>>)
    requires
        lines.len() > 0,
    ensures
        lines[0].len() <= joined(lines).len(),
        joined(lines).take(lines[0].len() as int) == lines[0],
    decreases lines.len(),
{
    if lines.len() > 1 {
        lemma_joined_starts(lines.drop_last());
    }
}

/// A command that is entered is never empty and never whitespace alone.
pub proof fn lemma_command_not_blank(s: State, event: Event, indent: nat)
    requires
        s.wf(),
    ensures
        s.react(event, indent).outcome matches OutcomeView::Command(text) ==> text.len() > 0
            && !is_blank(text),
{
    if s.react(event, indent).outcome is Command {
        lemma_joined_starts(s.active());
    }
}

/// The attachment takes as many columns before the leader as its number
/// has digits, and 13; the name of a module takes its length and 3.
pub proof fn lemma_decoration_width(s: State)
    ensures
        s.attached matches Some(id) ==> s.decoration().len() == crate::text::decimal(id).len()
            + 13,
        s.attached is None ==> (s.module matches Some(name) ==> s.decoration().len()
            == name.len() + 3),
        s.attached is None && s.module is None ==> s.decoration().len() == 0,
        s.leader_text(true).len() == s.decoration().len() + s.leader.len(),
        s.leader_text(false).len() == s.continued_leader.len(),
{
}

/// Whether every line that `draws` asks to print is one of `n` lines.
pub open spec fn prints_within(draws: Seq<Draw>, n: nat) -> bool {
    forall|j: int|
        0 <= j < draws.len() ==> (#[trigger] draws[j] matches Draw::Line(i) ==> i < n)
}

/// What is drawn for the first `k` lines prints none but those lines.
pub proof fn lemma_rows_within(k: nat, n: nat)
    requires
        k <= n,
    ensures
        prints_within(rows(k), n),
        rows(k).len() == 5 * k,
    decreases k,
{
    if k > 0 {
        lemma_rows_within((k - 1) as nat, n);
        let head = rows((k - 1) as nat);
        let tail = row((k - 1) as nat);
        assert forall|j: int| 0 <= j < rows(k).len() implies (#[trigger] rows(k)[j] matches Draw::Line(
            i,
        ) ==> i < n) by {
            if j < head.len() {
                assert(rows(k)[j] == head[j]);
            } else {
                assert(rows(k)[j] == tail[j - head.len()]);
            }
        }
    }
}

/// Drawing a command again prints none but its lines.
pub proof fn lemma_repaint_within(s: State, from: nat)
    requires
        s.in_range(),
    ensures
        prints_within(s.repaint(from), s.active().len()),
        prints_within(s.repaint_line(), s.active().len()),
{
    let n = s.active().len();
    lemma_rows_within(n, n);
    let front = if from > 0 {
        seq![Draw::MoveUp(crate::model::fit(from as int))]
    } else {
        Seq::<Draw>::empty()
    };
    let head = front + seq![Draw::ClearLine, Draw::ClearBelow];
    let draws = s.repaint(from);
    assert forall|j: int| 0 <= j < draws.len() implies (#[trigger] draws[j] matches Draw::Line(i)
        ==> i < n) by {
        if j < head.len() {
            assert(draws[j] == head[j]);
        } else if j < head.len() + rows(n).len() {
            assert(draws[j] == rows(n)[j - head.len()]);
        }
    }
}

/// Draws that print no line, followed by draws that print lines of a
/// command, print none but its lines.
pub proof fn lemma_within_after(head: Seq<Draw>, draws: Seq<Draw>, n: nat)
    requires
        prints_within(draws, n),
        forall|j: int| 0 <= j < head.len() ==> !(#[trigger] head[j] is Line),
    ensures
        prints_within(head + draws, n),
{
    let all = head + draws;
    assert forall|j: int| 0 <= j < all.len() implies (#[trigger] all[j] matches Draw::Line(i) ==> i
        < n) by {
        if j < head.len() {
            assert(all[j] == head[j]);
        } else {
            assert(all[j] == draws[j - head.len()]);
        }
    }
}

/// Whether what `r` draws prints none but lines of the command that is
/// shown after it.
pub open spec fn draws_within(r: Reaction) -> bool {
    prints_within(r.draws, r.state.active().len())
}

/// Moving between the lines of a command draws none but its lines.
pub proof fn lemma_up_down_within(s: State)
    requires
        s.wf(),
    ensures
        draws_within(s.up()),
        draws_within(s.down()),
{
    lemma_browse_wf(s, false);
    lemma_repaint_within(s.older(false), s.line_index);
    lemma_repaint_within(s.newer(false), s.line_index);
    if s.line_index > 0 {
        let to = s.to_line((s.line_index - 1) as nat);
        lemma_to_line_wf(s, (s.line_index - 1) as nat);
        lemma_repaint_within(to, 0);
        lemma_within_after(seq![Draw::MoveUp(1)], to.repaint_line(), to.active().len());
    }
    if s.line_index + 1 < s.active().len() {
        let to = s.to_line(s.line_index + 1);
        lemma_to_line_wf(s, s.line_index + 1);
        lemma_repaint_within(to, 0);
        lemma_within_after(seq![Draw::MoveDown(1)], to.repaint_line(), to.active().len());
    }
}

/// A step into the history draws none but lines of the command that comes
/// into view.
pub proof fn lemma_browsed_within(s: State, retain: bool)
    requires
        s.wf(),
    ensures
        draws_within(s.browsed(s.older(retain))),
        draws_within(s.browsed(s.newer(retain))),
{
    lemma_browse_wf(s, retain);
    lemma_repaint_within(s.older(retain), s.line_index);
    lemma_repaint_within(s.newer(retain), s.line_index);
}

/// Backspace and Delete draw none but lines of the command as it is after
/// them.
pub proof fn lemma_removal_within(s: State)
    requires
        s.wf(),
    ensures
        draws_within(s.backspace()),
        draws_within(s.delete()),
{
    lemma_backspace_wf(s);
    lemma_delete_wf(s);
    lemma_repaint_within(s.backspace().state, s.line_index);
    lemma_repaint_within(s.delete().state, s.line_index);
}

/// Enter draws none but lines of the command as it is after it.
pub proof fn lemma_enter_within(s: State, indent: nat)
    requires
        s.wf(),
    ensures
        draws_within(s.enter(indent)),
{
    lemma_enter_wf(s, indent);
    let to = s.enter(indent).state;
    lemma_repaint_within(to, to.line_index);
    lemma_within_after(seq![Draw::Newline], to.repaint(to.line_index), to.active().len());
}

/// A step that changes the cursor or the text within a line draws none but
/// the line of the cursor.
pub proof fn lemma_shown_within(s: State)
    requires
        s.in_range(),
    ensures
        draws_within(s.shown()),
{
    lemma_repaint_within(s, 0);
}

/// Whatever a step draws, each line that it asks to print is a line of the
/// command that is shown after the step.
pub proof fn lemma_draws_within(s: State, event: Event, indent: nat)
    requires
        s.wf(),
    ensures
        draws_within(s.react(event, indent)),
{
    lemma_react_wf(s, event, indent);
    match event {
        Event::Key(key) => match key.code {
            KeyCode::Char(ch) => {
                if key.control && ch == 'l' {
                    lemma_repaint_within(s, 0);
                    lemma_within_after(
                        seq![Draw::ClearAll, Draw::MoveHome],
                        s.repaint(0),
                        s.active().len(),
                    );
                } else if !(key.control && (ch == 'c' || ch == 'd')) {
                    lemma_typed_wf(s, seq![ch]);
                    lemma_shown_within(s.typed(seq![ch]));
                }
            },
            KeyCode::Tab => {
                lemma_typed_wf(s, blanks(4));
                lemma_shown_within(s.typed(blanks(4)));
            },
            KeyCode::Home => {
                lemma_moves_wf(s);
                lemma_shown_within(s.home());
            },
            KeyCode::End => {
                lemma_moves_wf(s);
                lemma_shown_within(s.end());
            },
            KeyCode::Left => {
                lemma_moves_wf(s);
                lemma_shown_within(s.left());
            },
            KeyCode::Right => {
                lemma_moves_wf(s);
                lemma_shown_within(s.right());
            },
            KeyCode::PageUp => {
                lemma_browsed_within(s, true);
            },
            KeyCode::PageDown => {
                lemma_browsed_within(s, true);
            },
            KeyCode::Up => {
                lemma_up_down_within(s);
            },
            KeyCode::Down => {
                lemma_up_down_within(s);
            },
            KeyCode::Backspace => {
                lemma_removal_within(s);
            },
            KeyCode::Delete => {
                lemma_removal_within(s);
            },
            KeyCode::Enter => {
                lemma_enter_within(s, indent);
            },
            KeyCode::Esc => {},
            KeyCode::Other => {
                lemma_shown_within(s);
            },
        },
        Event::Other => {
            lemma_shown_within(s);
        },
    }
}

} // verus!
