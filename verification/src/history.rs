//! The bounded store of past commands.

use crate::persist::{
    file_lines, file_text, has_rule, is_rule_at, lemma_file_lines_front, lemma_text_push,
    lines_of, loaded, rule, split_lines, starts_with_rule, text_of_lines,
};
use std::collections::VecDeque;
use std::path::PathBuf;
use vstd::prelude::*;
use vstd::string::*;

verus! {

/// A path of the file system, carried through unread.
#[verifier::external_type_specification]
#[verifier::external_body]
pub struct ExPathBuf(PathBuf);

/// What a store of at most `limit` entries holds after `entry` was pushed
/// onto `entries`, newest first: the new entry in front, and the oldest gone
/// where the store was full. An entry without lines is no command and is not
/// stored, and a store without room stores nothing.
pub open spec fn pushed(
    entries: Seq<Seq<Seq<char>>>,
    entry: Seq<Seq<char>>,
    limit: nat,
) -> Seq<Seq<Seq<char>>> {
    if entry.len() == 0 {
        entries
    } else if entries.len() < limit {
        seq![entry] + entries
    } else {
        (seq![entry] + entries).take(limit as int)
    }
}

/// The commands that were run, newest first, with a position for browsing.
///
/// The commands need not have run successfully.
pub struct History {
    /// Each command is a list of lines. The newest command is at the front.
    buffer: VecDeque<Vec<String>>,
    /// The entry that is being browsed, if any.
    iter_i: Option<usize>,
    /// The most entries that the store holds.
    capacity: usize,
    /// The file that the history is kept in between sessions.
    path: Option<PathBuf>,
}

impl History {
    /// The stored commands, newest first, each as its lines.
    pub closed spec fn entries(&self) -> Seq<Seq<Seq<char>>> {
        self.buffer.deep_view()
    }

    /// The position of the entry that is browsed, or `-1` where none is.
    pub closed spec fn index(&self) -> int {
        match self.iter_i {
            Some(i) => i as int,
            None => -1,
        }
    }

    /// The most entries that the store holds.
    pub closed spec fn limit(&self) -> nat {
        self.capacity as nat
    }

    /// The file that the history is kept in between sessions.
    pub closed spec fn file(&self) -> Option<PathBuf> {
        self.path
    }

    /// The store never holds more than its capacity, every entry has a line,
    /// and the position is `-1` or that of an entry.
    pub open spec fn wf(&self) -> bool {
        &&& self.entries().len() <= self.limit()
        &&& -1 <= self.index() < self.entries().len()
        &&& forall|i: int|
            0 <= i < self.entries().len() ==> (#[trigger] self.entries()[i]).len() > 0
    }

    /// An empty store for at most `capacity` commands.
    pub fn with_capacity(capacity: usize, path: Option<PathBuf>) -> (h: History)
        ensures
            h.wf(),
            h.entries() == Seq::<Seq<Seq<char>>>::empty(),
            h.index() == -1,
            h.limit() == capacity,
            h.file() == path,
    {
        History { buffer: VecDeque::new(), iter_i: None, capacity, path }
    }

    /// Whether the store holds as many commands as it may.
    fn at_capacity(&self) -> (full: bool)
        requires
            self.wf(),
        ensures
            full == (self.entries().len() == self.limit()),
    {
        self.buffer.len() == self.capacity
    }

    /// Stores `lines` as the newest command and leaves browsing. Where the
    /// store is full the oldest command goes first.
    pub fn push(&mut self, lines: Vec<String>)
        requires
            old(self).wf(),
        ensures
            final(self).wf(),
            final(self).entries() == pushed(
                old(self).entries(),
                lines.deep_view(),
                old(self).limit(),
            ),
            final(self).index() == -1,
            final(self).limit() == old(self).limit(),
            final(self).file() == old(self).file(),
    {
        self.reset_iter();
        if lines.len() == 0 || self.capacity == 0 {
            return;
        }
        if self.at_capacity() {
            self.buffer.pop_back();
        }
        self.buffer.push_front(lines);
        proof {
            assert(self.entries() =~~= pushed(
                old(self).entries(),
                lines.deep_view(),
                old(self).limit(),
            ));
        }
    }

    /// The number of stored commands.
    pub fn len(&self) -> (n: usize)
        ensures
            n == self.entries().len(),
    {
        self.buffer.len()
    }

    /// The command at `index`, counted from the newest.
    pub fn get(&self, index: usize) -> (entry: Option<&Vec<String>>)
        ensures
            index < self.entries().len() ==> entry.is_some() && entry.unwrap().deep_view()
                == self.entries()[index as int],
            index >= self.entries().len() ==> entry.is_none(),
    {
        if index < self.buffer.len() {
            Some(&self.buffer[index])
        } else {
            None
        }
    }

    /// The command that is browsed, if any.
    pub fn cur(&self) -> (entry: Option<&Vec<String>>)
        requires
            self.wf(),
        ensures
            self.index() >= 0 ==> entry.is_some() && entry.unwrap().deep_view()
                == self.entries()[self.index()],
            self.index() < 0 ==> entry.is_none(),
    {
        match self.iter_i {
            Some(i) => self.get(i),
            None => None,
        }
    }

    /// Steps to the next older command and returns it. At the oldest command
    /// nothing changes and nothing is returned.
    pub fn prev(&mut self) -> (entry: Option<&Vec<String>>)
        requires
            old(self).wf(),
        ensures
            final(self).wf(),
            final(self).entries() == old(self).entries(),
            final(self).limit() == old(self).limit(),
            final(self).file() == old(self).file(),
            old(self).index() + 1 < old(self).entries().len() ==> final(self).index() == old(
                self,
            ).index() + 1 && entry.is_some() && entry.unwrap().deep_view() == old(
                self,
            ).entries()[old(self).index() + 1],
            old(self).index() + 1 >= old(self).entries().len() ==> final(self).index() == old(
                self,
            ).index() && entry.is_none(),
    {
        let next: usize = match self.iter_i {
            Some(i) => i + 1,
            None => 0,
        };
        if next < self.buffer.len() {
            self.iter_i = Some(next);
            self.get(next)
        } else {
            None
        }
    }

    /// Steps to the next newer command and returns it. From the newest
    /// command this leaves browsing and returns nothing, as it does where
    /// nothing was browsed.
    pub fn next(&mut self) -> (entry: Option<&Vec<String>>)
        requires
            old(self).wf(),
        ensures
            final(self).wf(),
            final(self).entries() == old(self).entries(),
            final(self).limit() == old(self).limit(),
            final(self).file() == old(self).file(),
            old(self).index() > 0 ==> final(self).index() == old(self).index() - 1
                && entry.is_some() && entry.unwrap().deep_view() == old(self).entries()[old(
                self,
            ).index() - 1],
            old(self).index() <= 0 ==> final(self).index() == -1 && entry.is_none(),
    {
        match self.iter_i {
            Some(i) => {
                if i > 0 {
                    self.iter_i = Some(i - 1);
                    self.get(i - 1)
                } else {
                    self.iter_i = None;
                    None
                }
            },
            None => None,
        }
    }

    /// Leaves browsing.
    pub fn reset_iter(&mut self)
        ensures
            final(self).index() == -1,
            final(self).entries() == old(self).entries(),
            final(self).limit() == old(self).limit(),
            final(self).file() == old(self).file(),
            old(self).wf() ==> final(self).wf(),
    {
        self.iter_i = None;
    }

    /// The file that the history is kept in between sessions, if any.
    pub fn path(&self) -> (path: Option<&PathBuf>)
        ensures
            path.is_some() == self.file().is_some(),
            path.is_some() ==> *path.unwrap() == self.file().unwrap(),
    {
        self.path.as_ref()
    }

    /// The most commands that the store holds.
    pub fn capacity(&self) -> (capacity: usize)
        ensures
            capacity == self.limit(),
    {
        self.capacity
    }

    /// Reads the text of a history file into the store. Each command of the
    /// text is pushed, in the order of the text, so that its last command
    /// becomes the newest of the store. Lines after the last rule are
    /// dropped. Browsing ends where the text holds a rule.
    pub fn read_from_text(&mut self, contents: &str)
        requires
            old(self).wf(),
        ensures
            final(self).wf(),
            final(self).entries() == loaded(
                old(self).entries(),
                Seq::empty(),
                split_lines(contents@),
                old(self).limit(),
            ),
            final(self).index() == (if has_rule(split_lines(contents@)) {
                -1
            } else {
                old(self).index()
            }),
            final(self).limit() == old(self).limit(),
            final(self).file() == old(self).file(),
    {
        let all = lines_of(contents);
        let mut pending: Vec<String> = Vec::new();
        let mut i: usize = 0;
        let ghost lines = all.deep_view();
        proof {
            assert(lines.skip(0) == lines);
            assert(pending.deep_view() == Seq::<Seq<char>>::empty());
        }
        while i < all.len()
            invariant
                i <= all.len(),
                lines == all.deep_view(),
                self.wf(),
                self.limit() == old(self).limit(),
                self.file() == old(self).file(),
                loaded(old(self).entries(), Seq::empty(), lines, old(self).limit()) == loaded(
                    self.entries(),
                    pending.deep_view(),
                    lines.skip(i as int),
                    old(self).limit(),
                ),
                self.index() == (if has_rule(lines.take(i as int)) {
                    -1
                } else {
                    old(self).index()
                }),
            decreases all.len() - i,
        {
            let ghost rest = lines.skip(i as int);
            proof {
                assert(rest.drop_first() == lines.skip(i + 1));
            }
            if starts_with_rule(all[i].as_str()) {
                self.push(pending);
                pending = Vec::new();
                proof {
                    assert(pending.deep_view() == Seq::<Seq<char>>::empty());
                    assert(is_rule_at(lines.take(i + 1), i as int));
                }
            } else {
                let ghost before = pending.deep_view();
                let line = all[i].clone();
                pending.push(line);
                proof {
                    assert(pending.deep_view() == before.push(rest[0]));
                    let shorter = lines.take(i as int);
                    let longer = lines.take(i + 1);
                    if has_rule(longer) {
                        let k = choose|k: int| is_rule_at(longer, k);
                        assert(is_rule_at(shorter, k));
                    }
                    if has_rule(shorter) {
                        let k = choose|k: int| is_rule_at(shorter, k);
                        assert(is_rule_at(longer, k));
                    }
                }
            }
            i = i + 1;
        }
    }

    /// The text of the history file for this store: its commands, oldest
    /// first, each followed by a rule.
    pub fn write_to_text(&self) -> (text: String)
        ensures
            text@ == file_text(self.entries()),
    {
        let mut text = String::new();
        let mut i: usize = self.buffer.len();
        let ghost entries = self.entries();
        proof {
            reveal_strlit("\n");
            reveal_strlit("---");
        }
        while i > 0
            invariant
                i <= self.buffer.len(),
                entries == self.entries(),
                text@ == file_text(entries.skip(i as int)),
                "\n"@ == seq!['\n'],
                "---"@ == rule(),
            decreases i,
        {
            i = i - 1;
            let entry = &self.buffer[i];
            let ghost done = file_lines(entries.skip(i + 1));
            let mut j: usize = 0;
            while j < entry.len()
                invariant
                    j <= entry.len(),
                    text@ == text_of_lines(done + entry.deep_view().take(j as int)),
                    "\n"@ == seq!['\n'],
                decreases entry.len() - j,
            {
                proof {
                    let lines = done + entry.deep_view().take(j as int);
                    lemma_text_push(lines, entry[j as int]@);
                    assert(lines.push(entry[j as int]@) == done + entry.deep_view().take(j + 1));
                }
                text.append(entry[j].as_str());
                text.append("\n");
                j = j + 1;
            }
            proof {
                assert(entry.deep_view().take(j as int) == entry.deep_view());
                let lines = done + entry.deep_view();
                lemma_text_push(lines, rule());
                assert(entries.skip(i as int) == seq![entries[i as int]] + entries.skip(i + 1));
                lemma_file_lines_front(entries[i as int], entries.skip(i + 1));
                assert(lines.push(rule()) == done + entry.deep_view() + seq![rule()]);
            }
            text.append("---");
            text.append("\n");
        }
        proof {
            assert(entries.skip(0) == entries);
        }
        text
    }

    /// Forgets every command and leaves browsing.
    pub fn clear(&mut self)
        ensures
            final(self).wf(),
            final(self).entries() == Seq::<Seq<Seq<char>>>::empty(),
            final(self).index() == -1,
            final(self).limit() == old(self).limit(),
            final(self).file() == old(self).file(),
    {
        self.buffer.clear();
        self.reset_iter();
    }
}

} // verus!
