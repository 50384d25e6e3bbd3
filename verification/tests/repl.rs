use shelp::event::{Draw, Event, KeyCode, KeyEvent, Outcome, Sentinel, Step};
use shelp::lang::{DefaultLangInterface, LangInterface};
use shelp::repl::{Cursor, Repl};

type Session = Repl<DefaultLangInterface>;

/// A language in which a line that ends with `{` opens a block.
struct Braces;

impl LangInterface for Braces {
    fn print_line(lines: &[String], index: usize) -> String {
        format!("<{}>", lines[index])
    }

    fn get_indent(lines: &[String]) -> usize {
        match lines.last() {
            Some(line) if line.ends_with('{') => 4,
            _ => 0,
        }
    }
}

fn key(code: KeyCode) -> Event {
    Event::Key(KeyEvent { code, control: false })
}

fn ctrl(ch: char) -> Event {
    Event::Key(KeyEvent { code: KeyCode::Char(ch), control: true })
}

fn session() -> Session {
    let mut repl = Repl::newd("> ", ". ", None);
    repl.begin();
    repl
}

fn type_str<L: LangInterface>(repl: &mut Repl<L>, text: &str) {
    for ch in text.chars() {
        let step = repl.handle_with(key(KeyCode::Char(ch)), 0);
        assert_eq!(step.outcome, Outcome::Continue);
    }
}

fn press<L: LangInterface>(repl: &mut Repl<L>, code: KeyCode) -> Step {
    repl.handle_with(key(code), 0)
}

/// Enters `lines` as one command, whatever the language would say.
fn submit<L: LangInterface>(repl: &mut Repl<L>, lines: &[&str]) {
    repl.begin();
    for (i, line) in lines.iter().enumerate() {
        type_str(repl, line);
        if i + 1 < lines.len() {
            assert_eq!(repl.enter(1).outcome, Outcome::Continue);
            assert_eq!(press(repl, KeyCode::Backspace).outcome, Outcome::Continue);
        }
    }
    let expected = lines.join("\n");
    assert_eq!(repl.enter(0).outcome, Outcome::Command(expected));
    repl.begin();
}

fn lines<L: LangInterface>(repl: &Repl<L>) -> Vec<String> {
    repl.cur().clone()
}

fn at(browsing: bool, line_index: usize, char_index: usize) -> Cursor {
    Cursor { browsing, line_index, char_index }
}

fn stored<L: LangInterface>(repl: &Repl<L>) -> Vec<Vec<String>> {
    let h = repl.history();
    (0..h.len()).map(|i| h.get(i).unwrap().clone()).collect()
}

fn in_range<L: LangInterface>(repl: &Repl<L>) -> bool {
    let c = repl.cursor();
    let shown = repl.cur();
    c.line_index < shown.len() && c.char_index <= shown[c.line_index].chars().count()
}

#[test]
fn a_new_session_has_one_empty_line() {
    let repl: Session = Repl::newd("> ", ". ", None);
    assert_eq!(lines(&repl), vec![""]);
    assert_eq!(repl.cursor(), at(false, 0, 0));
    assert_eq!(repl.history().len(), 0);
    assert_eq!(repl.history().capacity(), 64);
}

#[test]
fn the_constructors_agree() {
    let a: Session = Repl::new("> ", ". ", None);
    let b: Session = Repl::with_capacity("> ", ". ", 64, None);
    let c: Session = Repl::with_capacityd("> ", ". ", 64, None);
    for repl in [&a, &b, &c] {
        assert_eq!(repl.history().capacity(), 64);
        assert_eq!(lines(repl), vec![""]);
        assert_eq!(repl.leader_text(true), "> ");
        assert_eq!(repl.leader_text(false), ". ");
    }
    let small: Session = Repl::with_capacity("> ", ". ", 3, None);
    assert_eq!(small.history().capacity(), 3);
    let path = std::path::PathBuf::from("h.txt");
    let kept: Session = Repl::with_capacityd("> ", ". ", 3, Some(path.clone()));
    assert_eq!(kept.history().path(), Some(&path));
}

#[test]
fn begin_prints_the_leader_once() {
    let mut repl: Session = Repl::newd("> ", ". ", None);
    assert_eq!(
        repl.begin(),
        vec![Draw::RawMode(true), Draw::Colour, Draw::Leader(true), Draw::ResetColour]
    );
    assert_eq!(repl.begin(), vec![Draw::RawMode(true)]);
}

#[test]
fn begin_prints_no_leader_while_attached() {
    let mut repl: Session = Repl::newd("> ", ". ", None);
    repl.attach(3);
    assert_eq!(repl.begin(), vec![Draw::Colour, Draw::ResetColour]);
    assert_eq!(repl.begin(), Vec::<Draw>::new());
}

#[test]
fn typing_puts_characters_in_at_the_cursor() {
    let mut repl = session();
    type_str(&mut repl, "héllo");
    assert_eq!(lines(&repl), vec!["héllo"]);
    assert_eq!(repl.cursor(), at(false, 0, 5));
    press(&mut repl, KeyCode::Left);
    press(&mut repl, KeyCode::Left);
    press(&mut repl, KeyCode::Left);
    type_str(&mut repl, "✓");
    assert_eq!(lines(&repl), vec!["hé✓llo"]);
    assert_eq!(repl.cursor(), at(false, 0, 3));
}

#[test]
fn typing_draws_the_line_again() {
    let mut repl = session();
    let step = press(&mut repl, KeyCode::Char('a'));
    assert_eq!(step.outcome, Outcome::Continue);
    assert_eq!(
        step.draws,
        vec![
            Draw::ClearLine,
            Draw::MoveToColumn(0),
            Draw::Colour,
            Draw::Leader(true),
            Draw::Line(0),
            Draw::MoveToColumn(3),
        ]
    );
}

#[test]
fn a_character_with_the_control_key_is_typed_unless_it_is_a_command() {
    let mut repl = session();
    assert_eq!(repl.handle(ctrl('a')).outcome, Outcome::Continue);
    assert_eq!(lines(&repl), vec!["a"]);
}

#[test]
fn tab_types_four_spaces() {
    let mut repl = session();
    type_str(&mut repl, "é✓");
    press(&mut repl, KeyCode::Left);
    press(&mut repl, KeyCode::Tab);
    assert_eq!(lines(&repl), vec!["é    ✓"]);
    assert_eq!(repl.cursor(), at(false, 0, 5));
}

#[test]
fn left_and_right_stop_at_the_ends_of_the_line() {
    let mut repl = session();
    type_str(&mut repl, "ab");
    press(&mut repl, KeyCode::Right);
    assert_eq!(repl.cursor(), at(false, 0, 2));
    press(&mut repl, KeyCode::Left);
    press(&mut repl, KeyCode::Left);
    assert_eq!(repl.cursor(), at(false, 0, 0));
    press(&mut repl, KeyCode::Left);
    assert_eq!(repl.cursor(), at(false, 0, 0));
    press(&mut repl, KeyCode::Right);
    assert_eq!(repl.cursor(), at(false, 0, 1));
}

#[test]
fn home_and_end_go_to_the_ends_of_the_line() {
    let mut repl = session();
    type_str(&mut repl, "héllo");
    press(&mut repl, KeyCode::Home);
    assert_eq!(repl.cursor(), at(false, 0, 0));
    press(&mut repl, KeyCode::End);
    assert_eq!(repl.cursor(), at(false, 0, 5));
}

#[test]
fn backspace_takes_out_the_character_before_the_cursor() {
    let mut repl = session();
    type_str(&mut repl, "a✓b");
    press(&mut repl, KeyCode::Left);
    press(&mut repl, KeyCode::Backspace);
    assert_eq!(lines(&repl), vec!["ab"]);
    assert_eq!(repl.cursor(), at(false, 0, 1));
}

#[test]
fn backspace_at_the_very_start_changes_nothing() {
    let mut repl = session();
    type_str(&mut repl, "a");
    press(&mut repl, KeyCode::Home);
    press(&mut repl, KeyCode::Backspace);
    assert_eq!(lines(&repl), vec!["a"]);
    assert_eq!(repl.cursor(), at(false, 0, 0));
}

#[test]
fn delete_takes_out_the_character_at_the_cursor() {
    let mut repl = session();
    type_str(&mut repl, "a✓b");
    press(&mut repl, KeyCode::Left);
    press(&mut repl, KeyCode::Left);
    press(&mut repl, KeyCode::Delete);
    assert_eq!(lines(&repl), vec!["ab"]);
    assert_eq!(repl.cursor(), at(false, 0, 1));
}

#[test]
fn delete_at_the_very_end_changes_nothing() {
    let mut repl = session();
    type_str(&mut repl, "a");
    press(&mut repl, KeyCode::Delete);
    assert_eq!(lines(&repl), vec!["a"]);
    assert_eq!(repl.cursor(), at(false, 0, 1));
}

#[test]
fn enter_with_an_open_block_adds_an_indented_line() {
    // buffer = ["if true {", ""], the language answers 4 for line 0
    let mut repl = session();
    type_str(&mut repl, "if true {");
    assert_eq!(repl.enter(1).outcome, Outcome::Continue);
    press(&mut repl, KeyCode::Backspace);
    assert_eq!(lines(&repl), vec!["if true {", ""]);
    press(&mut repl, KeyCode::Up);
    assert_eq!(repl.cursor().line_index, 0);
    let step = repl.enter(4);
    assert_eq!(step.outcome, Outcome::Continue);
    assert_eq!(lines(&repl), vec!["if true {", "    ", ""]);
    assert_eq!(repl.cursor(), at(false, 1, 4));
    assert_eq!(repl.history().len(), 0);
}

#[test]
fn enter_on_a_complete_line_returns_the_command() {
    let mut repl = session();
    type_str(&mut repl, "let a = 1");
    let step = repl.enter(0);
    assert_eq!(step.outcome, Outcome::Command("let a = 1".to_string()));
    assert_eq!(step.draws, vec![Draw::RawMode(false), Draw::Newline]);
    assert_eq!(stored(&repl), vec![vec!["let a = 1".to_string()]]);
    assert_eq!(lines(&repl), vec![""]);
    assert_eq!(repl.cursor(), at(false, 0, 0));
}

#[test]
fn the_clear_keyword_clears_the_terminal() {
    let mut repl = session();
    type_str(&mut repl, "clear");
    let step = repl.handle(key(KeyCode::Enter));
    assert_eq!(step.outcome, Outcome::Continue);
    assert_eq!(
        step.draws,
        vec![Draw::ClearAll, Draw::MoveHome, Draw::Colour, Draw::Leader(true), Draw::ResetColour]
    );
    assert_eq!(lines(&repl), vec![""]);
    assert_eq!(repl.cursor(), at(false, 0, 0));
    assert_eq!(repl.history().len(), 0);
}

#[test]
fn the_clear_keyword_can_be_changed() {
    let mut repl = session();
    repl.set_clear_keyword("claer");
    type_str(&mut repl, "clear");
    assert_eq!(repl.handle(key(KeyCode::Enter)).outcome, Outcome::Command("clear".to_string()));
    repl.begin();
    type_str(&mut repl, "claer");
    assert_eq!(repl.handle(key(KeyCode::Enter)).outcome, Outcome::Continue);
    assert_eq!(lines(&repl), vec![""]);
    assert_eq!(repl.history().len(), 1);
}

#[test]
fn the_clear_keyword_counts_only_as_the_whole_command() {
    let mut repl = session();
    type_str(&mut repl, "x {");
    repl.enter(4);
    press(&mut repl, KeyCode::Home);
    for _ in 0..4 {
        press(&mut repl, KeyCode::Delete);
    }
    type_str(&mut repl, "clear");
    assert_eq!(lines(&repl), vec!["x {", "clear"]);
    assert_eq!(repl.enter(0).outcome, Outcome::Command("x {\nclear".to_string()));
}

#[test]
fn there_is_no_exit_keyword_unless_one_is_set() {
    let mut repl = session();
    type_str(&mut repl, "exit");
    assert_eq!(repl.handle(key(KeyCode::Enter)).outcome, Outcome::Command("exit".to_string()));
    assert_eq!(repl.history().len(), 1);
}

#[test]
fn the_exit_keyword_asks_to_leave() {
    let mut repl = session();
    repl.set_exit_keyword("quit");
    type_str(&mut repl, "quit");
    let step = repl.handle(key(KeyCode::Enter));
    assert_eq!(step.outcome, Outcome::Signal(Sentinel::Exit));
    assert_eq!(step.draws, vec![Draw::RawMode(false), Draw::Newline]);
    assert_eq!(repl.history().len(), 0);
    assert_eq!(lines(&repl), vec![""]);
}

#[test]
fn enter_on_a_blank_first_line_prints_the_leader_again() {
    let mut repl = session();
    type_str(&mut repl, "  \t");
    let step = repl.handle(key(KeyCode::Enter));
    assert_eq!(step.outcome, Outcome::Continue);
    assert_eq!(step.draws, vec![Draw::MoveToNextLine(1), Draw::Colour, Draw::Leader(true)]);
    assert_eq!(repl.history().len(), 0);
    let mut empty = session();
    assert_eq!(empty.handle(key(KeyCode::Enter)).outcome, Outcome::Continue);
    assert_eq!(empty.history().len(), 0);
}

#[test]
fn enter_while_attached_detaches() {
    let mut repl = session();
    type_str(&mut repl, "let a = 1");
    repl.attach(7);
    let step = repl.handle(key(KeyCode::Enter));
    assert_eq!(step.outcome, Outcome::Signal(Sentinel::Detach));
    assert_eq!(step.draws, vec![Draw::RawMode(false), Draw::Newline, Draw::Colour]);
    assert_eq!(repl.history().len(), 0);
    assert_eq!(lines(&repl), vec![""]);
    repl.detach();
    repl.begin();
    type_str(&mut repl, "x");
    assert_eq!(repl.handle(key(KeyCode::Enter)).outcome, Outcome::Command("x".to_string()));
}

#[test]
fn control_c_asks_to_leave() {
    let mut repl = session();
    type_str(&mut repl, "abc");
    let step = repl.handle(ctrl('c'));
    assert_eq!(step.outcome, Outcome::Signal(Sentinel::Exit));
    assert_eq!(step.draws, vec![Draw::RawMode(false)]);
    assert_eq!(lines(&repl), vec![""]);
    assert_eq!(repl.history().len(), 0);
}

#[test]
fn control_d_asks_to_detach() {
    let mut repl = session();
    type_str(&mut repl, "abc");
    let step = repl.handle(ctrl('d'));
    assert_eq!(step.outcome, Outcome::Signal(Sentinel::Detach));
    assert_eq!(step.draws, vec![Draw::RawMode(false), Draw::Newline, Draw::Colour]);
    assert_eq!(lines(&repl), vec![""]);
}

#[test]
fn escape_asks_to_go_back() {
    let mut repl = session();
    type_str(&mut repl, "abc");
    let step = repl.handle(key(KeyCode::Esc));
    assert_eq!(step.outcome, Outcome::Signal(Sentinel::Back));
    assert_eq!(step.draws, vec![Draw::RawMode(false), Draw::Newline, Draw::Colour]);
    assert_eq!(lines(&repl), vec![""]);
}

#[test]
fn the_sentinels_have_their_words() {
    assert_eq!(Sentinel::Exit.as_str(), "exit");
    assert_eq!(Sentinel::Detach.as_str(), "detach");
    assert_eq!(Sentinel::Back.as_str(), "back");
}

#[test]
fn control_l_draws_everything_again_and_keeps_the_cursor() {
    let mut repl = session();
    type_str(&mut repl, "a {");
    repl.enter(4);
    type_str(&mut repl, "bcd");
    let before = repl.cursor();
    let step = repl.handle(ctrl('l'));
    assert_eq!(step.outcome, Outcome::Continue);
    assert_eq!(repl.cursor(), before);
    assert_eq!(lines(&repl), vec!["a {", "    bcd"]);
    assert_eq!(
        step.draws,
        vec![
            Draw::ClearAll,
            Draw::MoveHome,
            Draw::ClearLine,
            Draw::ClearBelow,
            Draw::MoveToColumn(0),
            Draw::Colour,
            Draw::Leader(true),
            Draw::Line(0),
            Draw::Newline,
            Draw::MoveToColumn(0),
            Draw::Colour,
            Draw::Leader(false),
            Draw::Line(1),
            Draw::Newline,
            Draw::MoveUp(1),
            Draw::MoveToColumn(9),
        ]
    );
}

#[test]
fn up_and_down_move_within_the_command() {
    let mut repl = session();
    type_str(&mut repl, "long line {");
    repl.enter(2);
    type_str(&mut repl, "x");
    assert_eq!(repl.cursor(), at(false, 1, 3));
    press(&mut repl, KeyCode::Up);
    assert_eq!(repl.cursor(), at(false, 0, 3));
    press(&mut repl, KeyCode::End);
    let step = press(&mut repl, KeyCode::Down);
    // the cursor keeps its character as far as the line reaches
    assert_eq!(repl.cursor(), at(false, 1, 3));
    assert_eq!(step.draws[0], Draw::MoveDown(1));
    // in the last line of the command that is written Down does nothing
    press(&mut repl, KeyCode::Down);
    assert_eq!(repl.cursor(), at(false, 1, 3));
    assert_eq!(lines(&repl), vec!["long line {", "  x"]);
}

#[test]
fn backspace_at_the_start_of_a_line_joins_it_to_the_line_before() {
    let mut repl = session();
    type_str(&mut repl, "ab {");
    repl.enter(2);
    press(&mut repl, KeyCode::Backspace);
    press(&mut repl, KeyCode::Backspace);
    type_str(&mut repl, "cd");
    press(&mut repl, KeyCode::Home);
    let step = press(&mut repl, KeyCode::Backspace);
    assert_eq!(lines(&repl), vec!["ab {cd"]);
    assert_eq!(repl.cursor(), at(false, 0, 4));
    assert_eq!(
        step.draws,
        vec![
            Draw::MoveUp(1),
            Draw::ClearLine,
            Draw::ClearBelow,
            Draw::MoveToColumn(0),
            Draw::Colour,
            Draw::Leader(true),
            Draw::Line(0),
            Draw::Newline,
            Draw::MoveUp(1),
            Draw::MoveToColumn(6),
        ]
    );
}

#[test]
fn delete_at_the_end_of_a_line_joins_the_next_line_to_it() {
    let mut repl = session();
    type_str(&mut repl, "ab {");
    repl.enter(1);
    type_str(&mut repl, "cd");
    press(&mut repl, KeyCode::Up);
    press(&mut repl, KeyCode::End);
    press(&mut repl, KeyCode::Delete);
    assert_eq!(lines(&repl), vec!["ab { cd"]);
    assert_eq!(repl.cursor(), at(false, 0, 4));
}

#[test]
fn up_from_the_first_line_shows_the_newest_command() {
    let mut repl = session();
    submit(&mut repl, &["first"]);
    submit(&mut repl, &["second {", "}"]);
    type_str(&mut repl, "draft");
    let step = press(&mut repl, KeyCode::Up);
    assert_eq!(lines(&repl), vec!["second {", "}"]);
    // the cursor goes to the last line and keeps its character as far as it can
    assert_eq!(repl.cursor(), at(true, 1, 1));
    assert_eq!(step.draws[0], Draw::ClearLine);
    assert_eq!(step.draws.len(), 2 + 2 * 5 + 2);
    // Up in the second line goes to the first line of the same command
    press(&mut repl, KeyCode::Up);
    assert_eq!(repl.cursor(), at(true, 0, 1));
    press(&mut repl, KeyCode::Up);
    assert_eq!(lines(&repl), vec!["first"]);
    assert_eq!(repl.cursor(), at(true, 0, 1));
    // at the oldest command nothing changes
    press(&mut repl, KeyCode::Up);
    assert_eq!(lines(&repl), vec!["first"]);
    assert_eq!(repl.cursor(), at(true, 0, 1));
}

#[test]
fn a_cursor_at_the_start_goes_to_the_end_of_the_line_that_comes_into_view() {
    let mut repl = session();
    submit(&mut repl, &["first"]);
    press(&mut repl, KeyCode::Up);
    assert_eq!(repl.cursor(), at(true, 0, 5));
}

#[test]
fn down_from_the_newest_command_shows_the_draft_as_it_was() {
    let mut repl = session();
    submit(&mut repl, &["first"]);
    submit(&mut repl, &["second"]);
    type_str(&mut repl, "dr {");
    repl.enter(2);
    type_str(&mut repl, "aft");
    press(&mut repl, KeyCode::PageUp);
    press(&mut repl, KeyCode::PageUp);
    assert_eq!(lines(&repl), vec!["first"]);
    press(&mut repl, KeyCode::Down);
    assert_eq!(lines(&repl), vec!["second"]);
    assert!(repl.cursor().browsing);
    press(&mut repl, KeyCode::Down);
    assert_eq!(lines(&repl), vec!["dr {", "  aft"]);
    assert_eq!(repl.cursor(), at(false, 0, 4));
    // nothing is browsed: a further step changes nothing
    press(&mut repl, KeyCode::PageDown);
    assert_eq!(repl.cursor(), at(false, 0, 4));
    assert_eq!(lines(&repl), vec!["dr {", "  aft"]);
}

#[test]
fn page_up_and_page_down_keep_the_row() {
    let mut repl = session();
    submit(&mut repl, &["a", "bb", "ccc"]);
    submit(&mut repl, &["dddd", "e"]);
    type_str(&mut repl, "x {");
    repl.enter(1);
    repl.enter(1);
    assert_eq!(repl.cursor(), at(false, 2, 1));
    press(&mut repl, KeyCode::PageUp);
    // the newest command has no third row: the cursor goes to its last
    assert_eq!(lines(&repl), vec!["dddd", "e"]);
    assert_eq!(repl.cursor(), at(true, 1, 1));
    press(&mut repl, KeyCode::Up);
    press(&mut repl, KeyCode::End);
    assert_eq!(repl.cursor(), at(true, 0, 4));
    let step = press(&mut repl, KeyCode::PageUp);
    assert_eq!(lines(&repl), vec!["a", "bb", "ccc"]);
    // the row is kept; the character fits the line
    assert_eq!(repl.cursor(), at(true, 0, 1));
    assert_eq!(step.draws[0], Draw::ClearLine);
    press(&mut repl, KeyCode::Down);
    press(&mut repl, KeyCode::Down);
    press(&mut repl, KeyCode::End);
    assert_eq!(repl.cursor(), at(true, 2, 3));
    let step = press(&mut repl, KeyCode::PageDown);
    assert_eq!(lines(&repl), vec!["dddd", "e"]);
    assert_eq!(repl.cursor(), at(true, 1, 1));
    assert_eq!(step.draws[0], Draw::MoveUp(2));
    press(&mut repl, KeyCode::PageDown);
    assert_eq!(lines(&repl), vec!["x {", " ", " "]);
    assert_eq!(repl.cursor(), at(false, 1, 1));
}

#[test]
fn an_edit_while_browsing_works_on_a_copy() {
    let mut repl = session();
    submit(&mut repl, &["let a = 1"]);
    type_str(&mut repl, "draft");
    press(&mut repl, KeyCode::Up);
    assert!(repl.cursor().browsing);
    type_str(&mut repl, "0");
    assert_eq!(lines(&repl), vec!["let a0 = 1"]);
    assert_eq!(repl.cursor(), at(false, 0, 6));
    // the stored command is as it was
    assert_eq!(stored(&repl), vec![vec!["let a = 1".to_string()]]);
    assert_eq!(repl.history().cur(), None);
    assert_eq!(repl.enter(0).outcome, Outcome::Command("let a0 = 1".to_string()));
    assert_eq!(
        stored(&repl),
        vec![vec!["let a0 = 1".to_string()], vec!["let a = 1".to_string()]]
    );
}

#[test]
fn backspace_and_delete_while_browsing_work_on_a_copy() {
    let mut repl = session();
    submit(&mut repl, &["ab", "cd"]);
    press(&mut repl, KeyCode::Up);
    press(&mut repl, KeyCode::Home);
    press(&mut repl, KeyCode::Backspace);
    assert_eq!(lines(&repl), vec!["abcd"]);
    assert_eq!(repl.cursor(), at(false, 0, 2));
    assert_eq!(stored(&repl), vec![vec!["ab".to_string(), "cd".to_string()]]);
    press(&mut repl, KeyCode::Esc);
    repl.begin();
    press(&mut repl, KeyCode::Up);
    press(&mut repl, KeyCode::Up);
    press(&mut repl, KeyCode::End);
    press(&mut repl, KeyCode::Delete);
    assert_eq!(lines(&repl), vec!["abcd"]);
    assert_eq!(repl.cursor(), at(false, 0, 2));
    assert_eq!(stored(&repl), vec![vec!["ab".to_string(), "cd".to_string()]]);
}

#[test]
fn enter_in_the_last_line_of_a_stored_command_returns_it() {
    let mut repl = session();
    submit(&mut repl, &["x {", "}"]);
    press(&mut repl, KeyCode::Up);
    // a stored command is complete whatever the language says
    assert_eq!(repl.enter(4).outcome, Outcome::Command("x {\n}".to_string()));
    assert_eq!(stored(&repl).len(), 2);
    assert_eq!(stored(&repl)[0], stored(&repl)[1]);
    assert_eq!(repl.cursor(), at(false, 0, 0));
}

#[test]
fn enter_inside_a_stored_command_copies_it_and_adds_a_line() {
    let mut repl = session();
    submit(&mut repl, &["x {", "}"]);
    press(&mut repl, KeyCode::Up);
    press(&mut repl, KeyCode::Up);
    assert_eq!(repl.cursor().line_index, 0);
    assert_eq!(repl.enter(4).outcome, Outcome::Continue);
    assert_eq!(lines(&repl), vec!["x {", "    ", "}"]);
    assert_eq!(repl.cursor(), at(false, 1, 4));
    assert_eq!(stored(&repl), vec![vec!["x {".to_string(), "}".to_string()]]);
}

#[test]
fn leaving_while_browsing_ends_browsing() {
    let mut repl = session();
    submit(&mut repl, &["one"]);
    submit(&mut repl, &["two"]);
    press(&mut repl, KeyCode::Up);
    press(&mut repl, KeyCode::Up);
    assert_eq!(lines(&repl), vec!["one"]);
    press(&mut repl, KeyCode::Esc);
    repl.begin();
    assert_eq!(repl.history().cur(), None);
    press(&mut repl, KeyCode::Up);
    assert_eq!(lines(&repl), vec!["two"]);
}

#[test]
fn the_language_decides_whether_a_command_goes_on() {
    let mut repl: Repl<Braces> = Repl::new("> ", ". ", None);
    repl.begin();
    type_str(&mut repl, "if true {");
    assert_eq!(repl.handle(key(KeyCode::Enter)).outcome, Outcome::Continue);
    assert_eq!(lines(&repl), vec!["if true {", "    "]);
    assert_eq!(repl.cursor(), at(false, 1, 4));
    type_str(&mut repl, "x");
    assert_eq!(
        repl.handle(key(KeyCode::Enter)).outcome,
        Outcome::Command("if true {\n    x".to_string())
    );
}

#[test]
fn the_language_sees_the_lines_up_to_the_cursor() {
    let mut repl: Repl<Braces> = Repl::new("> ", ". ", None);
    repl.begin();
    type_str(&mut repl, "a {");
    repl.handle(key(KeyCode::Enter));
    type_str(&mut repl, "b");
    assert_eq!(repl.indent_context().to_vec(), vec!["a {", "    b"]);
    press(&mut repl, KeyCode::Up);
    assert_eq!(repl.indent_context().to_vec(), vec!["a {"]);
    assert!(repl.asks_indent());
    // Enter in the first line: the language answers 4 for "a {"
    assert_eq!(repl.handle(key(KeyCode::Enter)).outcome, Outcome::Continue);
    assert_eq!(lines(&repl), vec!["a {", "    ", "    b"]);
}

#[test]
fn the_language_is_not_asked_about_keywords_and_blank_lines() {
    let mut repl = session();
    assert!(!repl.asks_indent());
    type_str(&mut repl, "clear");
    assert!(!repl.asks_indent());
    press(&mut repl, KeyCode::Backspace);
    assert!(repl.asks_indent());
    repl.attach(1);
    assert!(!repl.asks_indent());
}

#[test]
fn the_default_language_keeps_the_indentation() {
    let mut repl = session();
    type_str(&mut repl, "  two");
    assert_eq!(repl.handle(key(KeyCode::Enter)).outcome, Outcome::Continue);
    assert_eq!(lines(&repl), vec!["  two", "  "]);
    assert_eq!(repl.cursor(), at(false, 1, 2));
    for _ in 0..2 {
        press(&mut repl, KeyCode::Backspace);
    }
    type_str(&mut repl, "x");
    assert_eq!(
        repl.handle(key(KeyCode::Enter)).outcome,
        Outcome::Command("  two\nx".to_string())
    );
}

#[test]
fn the_default_language_shows_lines_as_they_are() {
    let lines = vec!["a".to_string(), "  b✓".to_string()];
    assert_eq!(DefaultLangInterface::print_line(&lines, 1), "  b✓");
    assert_eq!(DefaultLangInterface::print_line(&lines, 0), "a");
    assert_eq!(DefaultLangInterface::get_indent(&lines), 2);
    assert_eq!(DefaultLangInterface::get_indent(&lines[..1]), 0);
    assert_eq!(DefaultLangInterface::get_indent(&[]), 0);
    assert_eq!(DefaultLangInterface::get_indent(&["\u{3000}x".to_string()]), 3);
}

#[test]
fn render_line_asks_the_language() {
    let mut repl: Repl<Braces> = Repl::new("> ", ". ", None);
    repl.begin();
    type_str(&mut repl, "a {");
    repl.handle(key(KeyCode::Enter));
    assert_eq!(repl.render_line(0), Some("<a {>".to_string()));
    assert_eq!(repl.render_line(1), Some("<    >".to_string()));
    assert_eq!(repl.render_line(2), None);
}

#[test]
fn the_leader_shows_the_attachment_or_the_module() {
    let mut repl = session();
    assert_eq!(repl.leader_text(true), "> ");
    assert_eq!(repl.leader_width(true), 2);
    assert_eq!(repl.leader_text(false), ". ");
    assert_eq!(repl.leader_width(false), 2);
    repl.module("math");
    assert_eq!(repl.leader_text(true), "(math) > ");
    assert_eq!(repl.leader_width(true), 4 + 3 + 2);
    repl.attach(42);
    assert_eq!(repl.leader_text(true), "(Attached: 42) > ");
    assert_eq!(repl.leader_width(true), 2 + 13 + 2);
    assert_eq!(repl.leader_text(false), ". ");
    repl.detach();
    assert_eq!(repl.leader_text(true), "(math) > ");
    repl.exit_module();
    assert_eq!(repl.leader_text(true), "> ");
    assert_eq!(repl.leader_width(true), 2);
}

#[test]
fn the_width_of_the_leader_counts_characters() {
    let mut repl: Session = Repl::newd("λ→ ", "…", None);
    assert_eq!(repl.leader_width(true), 3);
    assert_eq!(repl.leader_width(false), 1);
    repl.module("módulo");
    assert_eq!(repl.leader_width(true), 6 + 3 + 3);
    assert_eq!(repl.leader_width(true), repl.leader_text(true).chars().count());
    repl.attach(1000);
    assert_eq!(repl.leader_width(true), 4 + 13 + 3);
    assert_eq!(repl.leader_width(true), repl.leader_text(true).chars().count());
}

#[test]
fn the_column_is_the_width_of_the_leader_and_the_character() {
    let mut repl = session();
    type_str(&mut repl, "abc {");
    assert_eq!(repl.column(), 2 + 5);
    repl.module("m");
    assert_eq!(repl.column(), 4 + 2 + 5);
    repl.enter(3);
    assert_eq!(repl.column(), 2 + 3);
}

#[test]
fn attaching_and_selecting_a_module_leave_the_command_alone() {
    let mut repl = session();
    type_str(&mut repl, "abc");
    repl.attach(1);
    repl.module("m");
    repl.detach();
    repl.exit_module();
    assert_eq!(lines(&repl), vec!["abc"]);
    assert_eq!(repl.cursor(), at(false, 0, 3));
}

#[test]
fn an_event_that_is_no_key_changes_nothing() {
    let mut repl = session();
    type_str(&mut repl, "abc");
    let step = repl.handle(Event::Other);
    assert_eq!(step.outcome, Outcome::Continue);
    assert_eq!(lines(&repl), vec!["abc"]);
    assert_eq!(repl.cursor(), at(false, 0, 3));
    assert_eq!(step.draws.len(), 6);
    let step = repl.handle(key(KeyCode::Other));
    assert_eq!(step.outcome, Outcome::Continue);
    assert_eq!(lines(&repl), vec!["abc"]);
}

#[test]
fn reset_lines_forgets_the_draft() {
    let mut repl = session();
    type_str(&mut repl, "abc {");
    repl.enter(2);
    repl.reset_lines();
    assert_eq!(lines(&repl), vec![""]);
    assert_eq!(repl.cursor(), at(false, 0, 0));
    assert_eq!(repl.begin().len(), 4);
}

#[test]
fn load_history_fills_the_history() {
    let mut repl: Session = Repl::with_capacityd("> ", ". ", 2, None);
    repl.load_history("a\n---\nb\nc\n---\nd\n---\n");
    assert_eq!(stored(&repl), vec![vec!["d".to_string()], vec!["b".to_string(), "c".to_string()]]);
    repl.begin();
    press(&mut repl, KeyCode::Up);
    assert_eq!(lines(&repl), vec!["d"]);
    assert_eq!(repl.history().write_to_text(), "b\nc\n---\nd\n---\n");
}

#[test]
fn only_entered_commands_reach_the_history() {
    let mut repl = session();
    type_str(&mut repl, "abandoned");
    press(&mut repl, KeyCode::Esc);
    repl.begin();
    type_str(&mut repl, "kept");
    repl.enter(0);
    assert_eq!(stored(&repl), vec![vec!["kept".to_string()]]);
}

#[test]
fn the_history_of_a_session_is_bounded() {
    let mut repl: Session = Repl::with_capacityd("> ", ". ", 2, None);
    for name in ["a", "b", "c"] {
        submit(&mut repl, &[name]);
    }
    assert_eq!(stored(&repl), vec![vec!["c".to_string()], vec!["b".to_string()]]);
}

#[test]
fn the_cursor_stays_in_range_whatever_is_pressed() {
    let codes = [
        KeyCode::Char('a'),
        KeyCode::Enter,
        KeyCode::Char('é'),
        KeyCode::Up,
        KeyCode::Tab,
        KeyCode::PageUp,
        KeyCode::Left,
        KeyCode::Delete,
        KeyCode::Down,
        KeyCode::Backspace,
        KeyCode::Home,
        KeyCode::PageDown,
        KeyCode::End,
        KeyCode::Right,
        KeyCode::Char('{'),
        KeyCode::Other,
        KeyCode::Esc,
    ];
    let mut repl: Repl<Braces> = Repl::with_capacity("> ", ". ", 3, None);
    repl.load_history("one\n---\ntwo {\n    2\n}\n---\n");
    repl.begin();
    // a fixed walk over the keys that visits them in many orders
    let mut seed: usize = 12345;
    for _ in 0..4000 {
        seed = seed.wrapping_mul(1103515245).wrapping_add(12345) % 2147483648;
        let code = codes[(seed / 65536) % codes.len()];
        let step = repl.handle(key(code));
        assert!(in_range(&repl));
        assert!(repl.history().len() <= 3);
        if step.outcome != Outcome::Continue {
            repl.begin();
        }
        for draw in &step.draws {
            if let Draw::Line(i) = draw {
                assert!(*i < repl.cur().len());
            }
        }
    }
}
