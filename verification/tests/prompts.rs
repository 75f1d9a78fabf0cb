use bricks::UiError;
use bricks::command::TermCommand;
use bricks::input::{confirmation_prompt, input_string, input_u32, select_from_list};
use bricks::screen::Screen;
use bricks::source::{InputSource, RawEvent};

fn line(s: &str) -> RawEvent {
    RawEvent::Line(s.to_string())
}

fn key(c: char) -> RawEvent {
    RawEvent::Key(c)
}

#[test]
fn input_u32_retries_until_a_line_parses() {
    let mut w = Screen::new();
    let mut src = InputSource::feed(vec![line("abc\n"), line("-5\n"), line("42\n")]);
    let r = input_u32(&mut w, &mut src, "How many?");
    assert_eq!(r, Ok(42));
    let mut expected = vec![
        TermCommand::Print("How many?".to_string()),
        TermCommand::NextLine(1),
        TermCommand::Print("(Input should be a number)".to_string()),
        TermCommand::NextLine(1),
        TermCommand::ShowCursor,
    ];
    for _ in 0..2 {
        expected.push(TermCommand::PrevLine(1));
        expected.push(TermCommand::ClearLine);
    }
    assert_eq!(w.flushed_cmds(), &expected);
    assert_eq!(w.queued_cmds(), &vec![TermCommand::HideCursor]);
}

#[test]
fn input_u32_performs_exactly_two_erase_cycles_here() {
    let mut w = Screen::new();
    let mut src = InputSource::feed(vec![line("abc\n"), line("-5\n"), line("42\n")]);
    let r = input_u32(&mut w, &mut src, "n?");
    assert_eq!(r, Ok(42));
    let erases = w
        .flushed_cmds()
        .iter()
        .filter(|c| matches!(c, TermCommand::PrevLine(_)))
        .count();
    assert_eq!(erases, 2);
}

#[test]
fn input_u32_accepts_a_plus_sign_and_surrounding_whitespace() {
    let mut w = Screen::new();
    let mut src = InputSource::feed(vec![line("  +7  \n")]);
    assert_eq!(input_u32(&mut w, &mut src, "n?"), Ok(7));
}

#[test]
fn input_u32_fails_on_a_key_event() {
    let mut w = Screen::new();
    let mut src = InputSource::feed(vec![key('x')]);
    assert_eq!(input_u32(&mut w, &mut src, "n?"), Err(UiError::Io));
}

#[test]
fn input_u32_fails_when_input_runs_dry() {
    let mut w = Screen::new();
    let mut src = InputSource::feed(vec![line("nope\n")]);
    assert_eq!(input_u32(&mut w, &mut src, "n?"), Err(UiError::Io));
    let erases = w
        .flushed_cmds()
        .iter()
        .filter(|c| matches!(c, TermCommand::PrevLine(_)))
        .count();
    assert_eq!(erases, 1);
}

#[test]
fn input_u32_largest_value() {
    let mut w = Screen::new();
    let mut src = InputSource::feed(vec![line("4294967296\n"), line("4294967295\n")]);
    assert_eq!(input_u32(&mut w, &mut src, "n?"), Ok(u32::MAX));
}

#[test]
fn input_string_trims_surrounding_whitespace_only() {
    let mut w = Screen::new();
    let mut src = InputSource::feed(vec![line("  hi there  \n")]);
    let r = input_string(&mut w, &mut src, "Say something");
    assert_eq!(r, Ok("hi there".to_string()));
}

#[test]
fn input_string_accepts_the_empty_line() {
    let mut w = Screen::new();
    let mut src = InputSource::feed(vec![line("\n")]);
    assert_eq!(input_string(&mut w, &mut src, "Say"), Ok(String::new()));
}

#[test]
fn input_string_flushes_prompt_and_shows_cursor() {
    let mut w = Screen::new();
    let mut src = InputSource::feed(vec![line("x\n")]);
    let _ = input_string(&mut w, &mut src, "Say");
    assert_eq!(
        w.flushed_cmds(),
        &vec![
            TermCommand::Print("Say".to_string()),
            TermCommand::NextLine(1),
            TermCommand::ShowCursor,
        ]
    );
    assert_eq!(w.queued_cmds(), &vec![TermCommand::HideCursor]);
}

#[test]
fn confirmation_is_case_sensitive_and_skips_unknown_keys() {
    let mut w = Screen::new();
    let mut src = InputSource::feed(vec![key('x'), key('Y'), key('n')]);
    let r = confirmation_prompt(&mut w, &mut src, "Sure?");
    assert_eq!(r, Ok(false));
}

#[test]
fn confirmation_accepts_lowercase_y() {
    let mut w = Screen::new();
    let mut src = InputSource::feed(vec![key('y')]);
    assert_eq!(confirmation_prompt(&mut w, &mut src, "Sure?"), Ok(true));
    assert_eq!(
        w.flushed_cmds(),
        &vec![
            TermCommand::Print("Sure?".to_string()),
            TermCommand::NextLine(1),
            TermCommand::Print("(y)es or (n)o?".to_string()),
            TermCommand::NextLine(1),
        ]
    );
}

#[test]
fn confirmation_fails_on_a_line_event() {
    let mut w = Screen::new();
    let mut src = InputSource::feed(vec![line("y\n")]);
    assert_eq!(confirmation_prompt(&mut w, &mut src, "Sure?"), Err(UiError::Io));
}

#[test]
fn select_skips_unbound_keys_then_matches() {
    let mut w = Screen::new();
    let mut src = InputSource::feed(vec![key('x'), key('a')]);
    let options = vec![('a', "Apples".to_string()), ('b', "Bananas".to_string())];
    let r = select_from_list(&mut w, &mut src, "Pick one", &options);
    assert_eq!(r, Ok("Apples".to_string()));
}

#[test]
fn select_matches_first_key_directly() {
    let mut w = Screen::new();
    let mut src = InputSource::feed(vec![key('b')]);
    let options = vec![('a', "Apples".to_string()), ('b', "Bananas".to_string())];
    let r = select_from_list(&mut w, &mut src, "Pick one", &options);
    assert_eq!(r, Ok("Bananas".to_string()));
}

#[test]
fn select_prints_one_line_per_option_in_order() {
    let mut w = Screen::new();
    let mut src = InputSource::feed(vec![key('b')]);
    let options = vec![('a', "Apples".to_string()), ('b', "Bananas".to_string())];
    let _ = select_from_list(&mut w, &mut src, "Pick one", &options);
    assert_eq!(
        w.flushed_cmds(),
        &vec![
            TermCommand::Print("Pick one".to_string()),
            TermCommand::NextLine(1),
            TermCommand::Print("Select from the list by typing the letter".to_string()),
            TermCommand::NextLine(1),
            TermCommand::NextLine(1),
            TermCommand::Print("a: Apples".to_string()),
            TermCommand::NextLine(1),
            TermCommand::Print("b: Bananas".to_string()),
            TermCommand::NextLine(1),
        ]
    );
}

#[test]
fn select_with_duplicate_keys_takes_the_first_binding() {
    let mut w = Screen::new();
    let mut src = InputSource::feed(vec![key('a')]);
    let options = vec![('a', "First".to_string()), ('a', "Second".to_string())];
    let r = select_from_list(&mut w, &mut src, "Pick", &options);
    assert_eq!(r, Ok("First".to_string()));
}

#[test]
fn select_fails_when_no_valid_key_ever_arrives() {
    let mut w = Screen::new();
    let mut src = InputSource::feed(vec![key('z'), key('q')]);
    let options = vec![('a', "Apples".to_string())];
    let r = select_from_list(&mut w, &mut src, "Pick", &options);
    assert_eq!(r, Err(UiError::Io));
}
