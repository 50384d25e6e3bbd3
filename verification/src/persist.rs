//! The text form in which the history is kept between sessions.
//!
//! Commands stand oldest first. Each command is its lines, one per line of
//! text, followed by a line that holds `---`. A line of a command that
//! itself starts with `---` cannot be told from the end of a command: such a
//! command does not come back as it was written.

use crate::history::pushed;
use vstd::prelude::*;
use vstd::string::*;

verus! {

/// Position of the first line feed in `text`, or the length of `text` where
/// it holds none.
pub open spec fn first_newline(text: Seq<char>) -> nat
    decreases text.len(),
{
    if text.len() == 0 || text[0] == '\n' {
        0
    } else {
        1 + first_newline(text.drop_first())
    }
}

/// `line` without the carriage return at its end, if it has one.
pub open spec fn strip_cr(line: Seq<char>) -> Seq<char> {
    if line.len() > 0 && line.last() == '\r' {
        line.drop_last()
    } else {
        line
    }
}

/// The lines of `text`. A line ends with a line feed, or with a carriage
/// return and a line feed; neither belongs to the line. What follows the
/// last line feed is a line too, unless it is empty.
pub open spec fn split_lines(text: Seq<char>) -> Seq<Seq<char>>
    decreases text.len(),
{
    if text.len() == 0 {
        Seq::empty()
    } else {
        let n = first_newline(text) as int;
        if n >= text.len() {
            seq![text]
        } else {
            seq![strip_cr(text.take(n))] + split_lines(text.skip(n + 1))
        }
    }
}

/// Whether `line` ends a command: it starts with three hyphens.
pub open spec fn is_rule(line: Seq<char>) -> bool {
    line.len() >= 3 && line[0] == '-' && line[1] == '-' && line[2] == '-'
}

/// The line that ends a command.
pub open spec fn rule() -> Seq<char> {
    seq!['-', '-', '-']
}

/// The text that holds `lines`, each followed by a line feed.
pub open spec fn text_of_lines(lines: Seq<Seq<char>>) -> Seq<char>
    decreases lines.len(),
{
    if lines.len() == 0 {
        Seq::empty()
    } else {
        lines[0] + seq!['\n'] + text_of_lines(lines.drop_first())
    }
}

/// The lines of the text form of `entries`, which stand newest first: the
/// oldest command comes first, and each command is followed by a rule.
pub open spec fn file_lines(entries: Seq<Seq<Seq<char>>>) -> Seq<Seq<char>>
    decreases entries.len(),
{
    if entries.len() == 0 {
        Seq::empty()
    } else {
        entries.last() + seq![rule()] + file_lines(entries.drop_last())
    }
}

/// The text form of `entries`, which stand newest first.
pub open spec fn file_text(entries: Seq<Seq<Seq<char>>>) -> Seq<char> {
    text_of_lines(file_lines(entries))
}

/// The first line feed is where a line feed stands with none before it.
pub proof fn lemma_first_newline(text: Seq<char>, n: int)
    requires
        0 <= n <= text.len(),
        forall|j: int| 0 <= j < n ==> text[j] != '\n',
        n < text.len() ==> text[n] == '\n',
    ensures
        first_newline(text) == n,
    decreases n,
{
    if n > 0 {
        let rest = text.drop_first();
        lemma_first_newline(rest, n - 1);
    }
}

/// Whether `line` starts with three hyphens.
pub fn starts_with_rule(line: &str) -> (b: bool)
    ensures
        b == is_rule(line@),
{
    let n = line.unicode_len();
    n >= 3 && line.get_char(0) == '-' && line.get_char(1) == '-' && line.get_char(2) == '-'
}

/// The lines of `contents`.
pub fn lines_of(contents: &str) -> (lines: Vec<String>)
    ensures
        lines.deep_view() == split_lines(contents@),
{
    let n = contents.unicode_len();
    let mut lines: Vec<String> = Vec::new();
    let mut start: usize = 0;
    let mut i: usize = 0;
    let mut after_cr = false;
    proof {
        assert(contents@.skip(0) == contents@);
    }
    for c in it: contents.chars()
        invariant
            it.seq() == contents@,
            n == contents@.len(),
            i == it.index(),
            start <= i <= n,
            forall|j: int| start <= j < i ==> contents@[j] != '\n',
            after_cr == (start < i && contents@[i - 1] == '\r'),
            split_lines(contents@) == lines.deep_view() + split_lines(contents@.skip(start as int)),
    {
        if c == '\n' {
            let end: usize = if after_cr {
                i - 1
            } else {
                i
            };
            let line = contents.substring_char(start, end).to_owned();
            proof {
                let rest = contents@.skip(start as int);
                lemma_first_newline(rest, i - start);
                assert(rest.skip(i - start + 1) == contents@.skip(i + 1));
                assert(line@ == strip_cr(rest.take(i - start)));
            }
            lines.push(line);
            start = i + 1;
            after_cr = false;
        } else {
            after_cr = c == '\r';
        }
        i = i + 1;
    }
    if start < n {
        let line = contents.substring_char(start, n).to_owned();
        proof {
            let rest = contents@.skip(start as int);
            lemma_first_newline(rest, n - start);
        }
        lines.push(line);
    }
    lines
}

/// What a store of at most `limit` commands holds after `lines` were read
/// into it. `entries` is what it held before, newest first, and `pending`
/// the lines read since the last rule. Each rule ends a command, which is
/// pushed; lines after the last rule are dropped.
pub open spec fn loaded(
    entries: Seq<Seq<Seq<char>>>,
    pending: Seq<Seq<char>>,
    lines: Seq<Seq<char>>,
    limit: nat,
) -> Seq<Seq<Seq<char>>>
    decreases lines.len(),
{
    if lines.len() == 0 {
        entries
    } else if is_rule(lines[0]) {
        loaded(pushed(entries, pending, limit), Seq::empty(), lines.drop_first(), limit)
    } else {
        loaded(entries, pending.push(lines[0]), lines.drop_first(), limit)
    }
}

/// Whether line `k` of `lines` is a rule.
pub open spec fn is_rule_at(lines: Seq<Seq<char>>, k: int) -> bool {
    0 <= k < lines.len() && is_rule(lines[k])
}

/// Whether one of `lines` is a rule.
pub open spec fn has_rule(lines: Seq<Seq<char>>) -> bool {
    exists|k: int| is_rule_at(lines, k)
}

/// Whether `line` comes back from the text form as it went in: it holds no
/// line feed, does not end with a carriage return and is no rule.
pub open spec fn plain_line(line: Seq<char>) -> bool {
    &&& forall|j: int| 0 <= j < line.len() ==> line[j] != '\n'
    &&& !(line.len() > 0 && line.last() == '\r')
    &&& !is_rule(line)
}

/// Whether every line of every command of `entries` is plain.
pub open spec fn plain_entries(entries: Seq<Seq<Seq<char>>>) -> bool {
    forall|i: int, j: int|
        0 <= i < entries.len() && 0 <= j < entries[i].len() ==> plain_line(
            #[trigger] entries[i][j],
        )
}

/// The text of two lists of lines, one after the other, is the text of the
/// first followed by the text of the second.
pub proof fn lemma_text_concat(a: Seq<Seq<char>>, b: Seq<Seq<char>>)
    ensures
        text_of_lines(a + b) == text_of_lines(a) + text_of_lines(b),
    decreases a.len(),
{
    if a.len() > 0 {
        lemma_text_concat(a.drop_first(), b);
        assert((a + b).drop_first() == a.drop_first() + b);
    }
}

/// The text of some lines and one more is the text of the lines, then the
/// new line, then a line feed.
pub proof fn lemma_text_push(lines: Seq<Seq<char>>, line: Seq<char>)
    ensures
        text_of_lines(lines.push(line)) == text_of_lines(lines) + line + seq!['\n'],
{
    let one = seq![line];
    assert(lines.push(line) == lines + one);
    lemma_text_concat(lines, one);
    assert(text_of_lines(one) == line + seq!['\n']) by {
        reveal_with_fuel(text_of_lines, 2);
    }
}

/// A newer command goes to the end of the file.
pub proof fn lemma_file_lines_front(entry: Seq<Seq<char>>, entries: Seq<Seq<Seq<char>>>)
    ensures
        file_lines(seq![entry] + entries) == file_lines(entries) + entry + seq![rule()],
    decreases entries.len(),
{
    let all = seq![entry] + entries;
    if entries.len() == 0 {
        assert(file_lines(all.drop_last()) == Seq::<Seq<char>>::empty());
    } else {
        assert(all.drop_last() == seq![entry] + entries.drop_last());
        lemma_file_lines_front(entry, entries.drop_last());
    }
}

/// Lines that hold no line feed and end with no carriage return come back
/// from their text as they went in.
pub proof fn lemma_split_text(lines: Seq<Seq<char>>)
    requires
        forall|i: int|
            0 <= i < lines.len() ==> {
                &&& forall|j: int| 0 <= j < lines[i].len() ==> (#[trigger] lines[i])[j] != '\n'
                &&& !(lines[i].len() > 0 && lines[i].last() == '\r')
            },
    ensures
        split_lines(text_of_lines(lines)) == lines,
    decreases lines.len(),
{
    if lines.len() > 0 {
        let first = lines[0];
        let rest = lines.drop_first();
        let text = text_of_lines(lines);
        let n = first.len() as int;
        lemma_first_newline(text, n);
        assert(text.take(n) == first);
        assert(text.skip(n + 1) == text_of_lines(rest));
        lemma_split_text(rest);
    }
}

/// Lines that are no rules, followed by a rule, make one command.
pub proof fn lemma_loaded_command(
    entries: Seq<Seq<Seq<char>>>,
    pending: Seq<Seq<char>>,
    command: Seq<Seq<char>>,
    rest: Seq<Seq<char>>,
    limit: nat,
)
    requires
        forall|j: int| 0 <= j < command.len() ==> !is_rule(#[trigger] command[j]),
    ensures
        loaded(entries, pending, command + seq![rule()] + rest, limit) == loaded(
            pushed(entries, pending + command, limit),
            Seq::empty(),
            rest,
            limit,
        ),
    decreases command.len(),
{
    let lines = command + seq![rule()] + rest;
    if command.len() == 0 {
        assert(lines.drop_first() == rest);
    } else {
        let tail = command.drop_first();
        assert(lines.drop_first() == tail + seq![rule()] + rest);
        lemma_loaded_command(entries, pending.push(command[0]), tail, rest, limit);
        assert(pending.push(command[0]) + tail == pending + command);
    }
}

/// Reading the lines of a file into a store with room for them puts its
/// commands in front of what the store held, the last of the file first.
pub proof fn lemma_loaded_file(
    held: Seq<Seq<Seq<char>>>,
    entries: Seq<Seq<Seq<char>>>,
    limit: nat,
)
    requires
        held.len() + entries.len() <= limit,
        forall|i: int| 0 <= i < entries.len() ==> (#[trigger] entries[i]).len() > 0,
        plain_entries(entries),
    ensures
        loaded(held, Seq::empty(), file_lines(entries), limit) == entries + held,
    decreases entries.len(),
{
    if entries.len() > 0 {
        let oldest = entries.last();
        let newer = entries.drop_last();
        lemma_loaded_command(held, Seq::empty(), oldest, file_lines(newer), limit);
        let next = pushed(held, oldest, limit);
        lemma_loaded_file(next, newer, limit);
    }
}

/// Every line of the text form of plain commands holds no line feed and ends
/// with no carriage return.
pub proof fn lemma_file_lines_clean(entries: Seq<Seq<Seq<char>>>)
    requires
        plain_entries(entries),
    ensures
        forall|i: int|
            0 <= i < file_lines(entries).len() ==> {
                &&& forall|j: int|
                    0 <= j < file_lines(entries)[i].len() ==> (#[trigger] file_lines(
                        entries,
                    )[i])[j] != '\n'
                &&& !(file_lines(entries)[i].len() > 0 && file_lines(entries)[i].last() == '\r')
            },
    decreases entries.len(),
{
    if entries.len() > 0 {
        let oldest = entries.last();
        let newer = entries.drop_last();
        assert forall|i: int, j: int| 0 <= i < newer.len() && 0 <= j < newer[i].len() implies plain_line(
            #[trigger] newer[i][j],
        ) by {
            assert(newer[i] == entries[i]);
            assert(plain_line(entries[i][j]));
        }
        lemma_file_lines_clean(newer);
        let all = file_lines(entries);
        let tail = file_lines(newer);
        assert(all == oldest + seq![rule()] + tail);
        assert forall|i: int| 0 <= i < all.len() implies {
            &&& forall|j: int| 0 <= j < all[i].len() ==> (#[trigger] all[i])[j] != '\n'
            &&& !(all[i].len() > 0 && all[i].last() == '\r')
        } by {
            if i < oldest.len() {
                assert(all[i] == oldest[i]);
                assert(plain_line(entries[entries.len() - 1][i]));
            } else if i == oldest.len() {
                assert(all[i] == rule());
            } else {
                assert(all[i] == tail[i - oldest.len() - 1]);
            }
        }
    }
}

/// Writing a store and reading the text into an empty store with room for
/// as many commands gives the same commands in the same order, provided
/// that every line is plain.
pub proof fn lemma_round_trip(entries: Seq<Seq<Seq<char>>>, limit: nat)
    requires
        entries.len() <= limit,
        forall|i: int| 0 <= i < entries.len() ==> (#[trigger] entries[i]).len() > 0,
        plain_entries(entries),
    ensures
        loaded(Seq::empty(), Seq::empty(), split_lines(file_text(entries)), limit) == entries,
{
    lemma_file_lines_clean(entries);
    lemma_split_text(file_lines(entries));
    lemma_loaded_file(Seq::empty(), entries, limit);
}

} // verus!
