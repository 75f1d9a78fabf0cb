use bricks::ansi::render_ansi;
use bricks::command::TermCommand;
use bricks::mode::{EmitMode, Item, Mode};
use bricks::screen::{clear, default_header, emit_dash, emit_iter, emit_line, flush, header, Screen};
use bricks::text::{parse_u32, split_lines, trim_str, u32_to_string};

const DASH: &str = "---------------------------------------------";

fn dash() -> TermCommand {
    TermCommand::Print(DASH.to_string())
}

fn print(s: &str) -> TermCommand {
    TermCommand::Print(s.to_string())
}

fn nl() -> TermCommand {
    TermCommand::NextLine(1)
}

#[test]
fn emit_line_queues_text_and_one_advance() {
    let mut w = Screen::new();
    emit_line(&mut w, "hello").unwrap();
    assert_eq!(w.queued_cmds(), &vec![print("hello"), nl()]);
}

#[test]
fn emit_dash_is_forty_five_dashes() {
    let mut w = Screen::new();
    emit_dash(&mut w).unwrap();
    assert_eq!(DASH.len(), 45);
    assert_eq!(w.queued_cmds(), &vec![dash(), nl()]);
}

#[test]
fn emit_iter_advances_once_per_segment_in_order() {
    let mut w = Screen::new();
    let lines = split_lines("one\ntwo\nthree");
    emit_iter(&mut w, &lines).unwrap();
    assert_eq!(
        w.queued_cmds(),
        &vec![print("one"), nl(), print("two"), nl(), print("three"), nl()]
    );
    let advances = w
        .queued_cmds()
        .iter()
        .filter(|c| matches!(c, TermCommand::NextLine(_)))
        .count();
    assert_eq!(advances, 3);
}

#[test]
fn header_wraps_title_lines_in_separators() {
    let mut w = Screen::new();
    header(&mut w, "Two\nLines").unwrap();
    assert_eq!(
        w.queued_cmds(),
        &vec![dash(), nl(), print("Two"), nl(), print("Lines"), nl(), dash(), nl(), nl()]
    );
}

#[test]
fn header_of_empty_title_has_adjacent_separators() {
    let mut w = Screen::new();
    header(&mut w, "").unwrap();
    assert_eq!(w.queued_cmds(), &vec![dash(), nl(), dash(), nl(), nl()]);
}

#[test]
fn default_header_shows_the_welcome_title() {
    let mut w = Screen::new();
    default_header(&mut w).unwrap();
    assert_eq!(
        w.queued_cmds(),
        &vec![dash(), nl(), print("Welcome to TUI Bricks"), nl(), dash(), nl(), nl()]
    );
}

#[test]
fn clear_queues_the_four_reset_commands() {
    let mut w = Screen::new();
    clear(&mut w).unwrap();
    assert_eq!(
        w.queued_cmds(),
        &vec![
            TermCommand::ResetColor,
            TermCommand::ClearAll,
            TermCommand::HideCursor,
            TermCommand::MoveToOrigin,
        ]
    );
}

#[test]
fn clear_twice_encodes_the_same_reset_twice_over() {
    let mut w1 = Screen::new();
    clear(&mut w1).unwrap();
    let once = render_ansi(w1.queued_cmds());
    let mut w2 = Screen::new();
    clear(&mut w2).unwrap();
    clear(&mut w2).unwrap();
    let twice = render_ansi(w2.queued_cmds());
    assert_eq!(twice, format!("{}{}", once, once));
}

#[test]
fn flush_moves_queued_commands_to_the_transcript() {
    let mut w = Screen::new();
    emit_line(&mut w, "a").unwrap();
    flush(&mut w);
    emit_line(&mut w, "b").unwrap();
    assert_eq!(w.flushed_cmds(), &vec![print("a"), nl()]);
    assert_eq!(w.queued_cmds(), &vec![print("b"), nl()]);
    flush(&mut w);
    assert_eq!(w.flushed_cmds(), &vec![print("a"), nl(), print("b"), nl()]);
    let out = w.take_output();
    assert_eq!(out, vec![print("a"), nl(), print("b"), nl()]);
    assert!(w.flushed_cmds().is_empty());
}

#[test]
fn render_ansi_encodes_each_command_exactly() {
    assert_eq!(render_ansi(&vec![print("hi")]), "hi");
    assert_eq!(render_ansi(&vec![TermCommand::NextLine(1)]), "\x1b[1E");
    assert_eq!(render_ansi(&vec![TermCommand::NextLine(12)]), "\x1b[12E");
    assert_eq!(render_ansi(&vec![TermCommand::PrevLine(1)]), "\x1b[1F");
    assert_eq!(render_ansi(&vec![TermCommand::ClearLine]), "\x1b[2K");
    assert_eq!(render_ansi(&vec![TermCommand::ClearAll]), "\x1b[2J");
    assert_eq!(render_ansi(&vec![TermCommand::ShowCursor]), "\x1b[?25h");
    assert_eq!(render_ansi(&vec![TermCommand::HideCursor]), "\x1b[?25l");
    assert_eq!(render_ansi(&vec![TermCommand::MoveToOrigin]), "\x1b[1;1H");
    assert_eq!(render_ansi(&vec![TermCommand::ResetColor]), "\x1b[0m");
    assert_eq!(
        render_ansi(&vec![print("ab"), TermCommand::NextLine(2), TermCommand::ResetColor]),
        "ab\x1b[2E\x1b[0m"
    );
}

#[test]
fn mode_default_paints_clear_welcome_and_info() {
    let mut w = Screen::new();
    let m = Mode::Default { info: "3 items loaded".to_string() };
    m.emit_mode(&mut w).unwrap();
    let mut expected = vec![
        TermCommand::ResetColor,
        TermCommand::ClearAll,
        TermCommand::HideCursor,
        TermCommand::MoveToOrigin,
        dash(),
        nl(),
        print("Welcome to TUI Bricks"),
        nl(),
        dash(),
        nl(),
        nl(),
    ];
    expected.push(print("3 items loaded"));
    expected.push(TermCommand::NextLine(2));
    assert_eq!(w.queued_cmds(), &expected);
}

#[test]
fn mode_display_item_titles_with_the_part_id() {
    let mut w = Screen::new();
    let item = Item { part_id: 17, text: "name: brick\ncolor: red".to_string() };
    let m = Mode::DisplayItem { item };
    m.emit_mode(&mut w).unwrap();
    let expected = vec![
        TermCommand::ResetColor,
        TermCommand::ClearAll,
        TermCommand::HideCursor,
        TermCommand::MoveToOrigin,
        dash(),
        nl(),
        print("Viewing item with part ID 17"),
        nl(),
        dash(),
        nl(),
        nl(),
        print("name: brick"),
        nl(),
        print("color: red"),
        nl(),
    ];
    assert_eq!(w.queued_cmds(), &expected);
}

#[test]
fn mode_edit_item_adds_the_edit_instruction() {
    let mut w = Screen::new();
    let item = Item { part_id: 204996700, text: "one line".to_string() };
    let m = Mode::EditItem { item };
    m.emit_mode(&mut w).unwrap();
    let expected = vec![
        TermCommand::ResetColor,
        TermCommand::ClearAll,
        TermCommand::HideCursor,
        TermCommand::MoveToOrigin,
        dash(),
        nl(),
        print("Now editing item with part ID 204996700"),
        nl(),
        dash(),
        nl(),
        nl(),
        print("one line"),
        nl(),
        print("use any of the following commands to edit the item"),
        nl(),
    ];
    assert_eq!(w.queued_cmds(), &expected);
}

#[test]
fn split_lines_matches_line_splitting() {
    assert_eq!(split_lines(""), Vec::<String>::new());
    assert_eq!(split_lines("a"), vec!["a".to_string()]);
    assert_eq!(split_lines("a\nb"), vec!["a".to_string(), "b".to_string()]);
    assert_eq!(split_lines("\n"), vec![String::new(), String::new()]);
    assert_eq!(split_lines("a\n"), vec!["a".to_string(), String::new()]);
}

#[test]
fn trim_strips_surrounding_whitespace_only() {
    assert_eq!(trim_str("  hi there  "), "hi there");
    assert_eq!(trim_str("\t x \r\n"), "x");
    assert_eq!(trim_str("   "), "");
    assert_eq!(trim_str(""), "");
}

#[test]
fn trim_strips_non_ascii_whitespace_like_std() {
    let samples = [
        "\u{a0}hi\u{a0}",
        "\u{2000}hi\u{200a}",
        "\u{2028}hi\u{2029}",
        "\u{85}\u{1680}hi\u{202f}\u{205f}\u{3000}",
    ];
    for s in samples {
        assert_eq!(trim_str(s), s.trim());
        assert_eq!(trim_str(s), "hi");
    }
    assert_eq!(trim_str("a\u{a0}b"), "a\u{a0}b");
}

#[test]
fn parse_u32_exact_values() {
    assert_eq!(parse_u32("0"), Some(0));
    assert_eq!(parse_u32("42"), Some(42));
    assert_eq!(parse_u32("+42"), Some(42));
    assert_eq!(parse_u32("0042"), Some(42));
    assert_eq!(parse_u32("4294967295"), Some(u32::MAX));
    assert_eq!(parse_u32("4294967296"), None);
    assert_eq!(parse_u32("-5"), None);
    assert_eq!(parse_u32("abc"), None);
    assert_eq!(parse_u32(""), None);
    assert_eq!(parse_u32("+"), None);
    assert_eq!(parse_u32("4 2"), None);
}

#[test]
fn u32_to_string_renders_decimal() {
    assert_eq!(u32_to_string(0), "0");
    assert_eq!(u32_to_string(7), "7");
    assert_eq!(u32_to_string(10), "10");
    assert_eq!(u32_to_string(4294967295), "4294967295");
}
