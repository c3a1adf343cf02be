use custom_error::{Context, ErrorLevel, Highlight};

fn paint(code: &str, text: &str) -> String {
    format!("\u{1b}[{}m{}\u{1b}[0m", code, text)
}

fn blue(text: &str) -> String {
    paint("34", text)
}

#[test]
fn single_line_with_number_and_highlight() {
    let c = Context::line("let x = 1")
        .linenumber(5)
        .highlight(Highlight::new(0, 8, 1));
    let rows = c.render_lines();
    assert_eq!(
        rows,
        vec![
            format!("  {}", blue("╷")),
            format!("5 {} let x = 1", blue("│")),
            format!("  {} {}{}{}", blue("·"), " ".repeat(8), paint("31", "─"), paint("31", "")),
            format!("  {}", blue("╵")),
        ]
    );
    assert_eq!(c.render(), rows.iter().map(|r| format!("{}\n", r)).collect::<String>());
}

#[test]
fn unanchored_block_counts_rows() {
    let c = Context::lines(vec!["a".to_string(), "b".to_string(), "c".to_string()])
        .highlight(Highlight::new(1, 0, 1))
        .highlight(Highlight::new(1, 0, 1).warning())
        .highlight(Highlight::new(7, 0, 1));
    let rows = c.render_lines();
    // two connectors, three lines, two highlights on existing lines
    assert_eq!(rows.len(), 2 + 3 + 2);
    assert_eq!(rows[0], format!("  {}", blue("╷")));
    assert_eq!(rows[6], format!("  {}", blue("╵")));
    assert_eq!(rows[1], format!("0 {} a", blue("│")));
    assert_eq!(rows[2], format!("1 {} b", blue("│")));
    assert_eq!(rows[3], format!("  {} {}{}", blue("·"), paint("31", "─"), paint("31", "")));
    assert_eq!(rows[4], format!("  {} {}{}", blue("·"), paint("33", "─"), paint("33", "")));
    assert_eq!(rows[5], format!("2 {} c", blue("│")));
}

#[test]
fn numbers_count_up_from_the_first_line() {
    let c = Context::lines(vec!["x".to_string(), "y".to_string(), "z".to_string()]).linenumber(98);
    let rows = c.render_lines();
    assert_eq!(rows[1], format!(" 98 {} x", blue("│")));
    assert_eq!(rows[2], format!(" 99 {} y", blue("│")));
    assert_eq!(rows[3], format!("100 {} z", blue("│")));
    assert_eq!(rows[0], format!("    {}", blue("╷")));
}

#[test]
fn gutter_width_follows_largest_number() {
    // numbers 0 to 10 without a known first line: two digits wide
    let lines: Vec<String> = (0..11).map(|i| format!("l{}", i)).collect();
    let rows = Context::lines(lines).render_lines();
    assert_eq!(rows[1], format!(" 0 {} l0", blue("│")));
    assert_eq!(rows[11], format!("10 {} l10", blue("│")));
    for row in &rows {
        assert_eq!(row.chars().nth(2), Some(' '));
    }
    // numbers 0 to 9: one digit
    let lines: Vec<String> = (0..10).map(|i| format!("l{}", i)).collect();
    let rows = Context::lines(lines).render_lines();
    assert_eq!(rows[10], format!("9 {} l9", blue("│")));
}

#[test]
fn line_number_zero_keeps_one_column() {
    let rows = Context::line("only").linenumber(0).render_lines();
    assert_eq!(rows[1], format!("0 {} only", blue("│")));
}

#[test]
fn empty_context_has_only_connectors() {
    let rows = Context::lines(Vec::new()).render_lines();
    assert_eq!(rows, vec![format!("  {}", blue("╷")), format!("  {}", blue("╵"))]);
}

#[test]
fn file_header_with_one_highlight_shows_position() {
    let c = Context::line("fn main() {")
        .linenumber(10)
        .highlight(Highlight::new(0, 3, 4))
        .file("src/main.rs");
    let rows = c.render_lines();
    assert_eq!(rows[0], format!("   {}[src/main.rs:10:3]", blue("╭──")));
    assert_eq!(rows[1], format!("   {}", blue("│")));
    assert_eq!(rows[2], format!("10 {} fn main() {{", blue("│")));
    assert_eq!(rows.len(), 5);
}

#[test]
fn file_header_with_two_highlights_shows_file_only() {
    let c = Context::line("abc")
        .linenumber(3)
        .highlights(vec![Highlight::new(0, 0, 1), Highlight::new(0, 2, 1)])
        .file("in.txt");
    let rows = c.render_lines();
    assert_eq!(rows[0], format!("  {}[in.txt]", blue("╭──")));
    assert_eq!(rows.len(), 6);
}

#[test]
fn file_header_without_line_number_shows_file_only() {
    let c = Context::line("abc").highlight(Highlight::new(0, 1, 1)).file("in.txt");
    assert_eq!(c.render_lines()[0], format!("  {}[in.txt]", blue("╭──")));
}

#[test]
fn highlight_note_and_levels() {
    let c = Context::line("value")
        .highlight(Highlight::new(0, 2, 3).note("here").info());
    let rows = c.render_lines();
    assert_eq!(
        rows[2],
        format!("  {}   {}{}", blue("·"), paint("34", "───"), paint("34", " here"))
    );
}

#[test]
fn highlight_from_tuples() {
    assert_eq!(Highlight::from((1, 2, 3)), Highlight::new(1, 2, 3));
    assert_eq!(Highlight::from((2, 3)), Highlight::new(0, 2, 3));
}

#[test]
fn level_words_and_colours() {
    assert_eq!(ErrorLevel::Error.label(), "error");
    assert_eq!(ErrorLevel::Warning.label(), "warning");
    assert_eq!(ErrorLevel::Info.label(), "info");
    assert_eq!(ErrorLevel::Error.render(), "\u{1b}[31merror\u{1b}[0m");
    assert_eq!(ErrorLevel::Warning.in_colour("w"), "\u{1b}[33mw\u{1b}[0m");
    assert_eq!(ErrorLevel::Info.in_colour("i"), "\u{1b}[34mi\u{1b}[0m");
}

fn strings(items: &[&str]) -> Vec<String> {
    items.iter().map(|s| s.to_string()).collect()
}

#[test]
fn lines_before_and_after_number_around_anchor() {
    let c = Context::line("c")
        .linenumber(10)
        .before(strings(&["a", "b"]))
        .after(strings(&["d"]))
        .highlight(Highlight::new(0, 0, 1));
    let rows = c.render_lines();
    assert_eq!(
        rows,
        vec![
            format!("   {}", blue("╷")),
            format!(" 8 {} a", blue("│")),
            format!(" 9 {} b", blue("│")),
            format!("10 {} c", blue("│")),
            format!("   {} {}{}", blue("·"), paint("31", "─"), paint("31", "")),
            format!("11 {} d", blue("│")),
            format!("   {}", blue("╵")),
        ]
    );
}

#[test]
fn lines_before_and_after_without_anchor_use_offsets() {
    let c = Context::lines(strings(&["c", "d"]))
        .before(strings(&["a", "b"]))
        .after(strings(&["e"]));
    let rows = c.render_lines();
    assert_eq!(rows[1], format!("-2 {} a", blue("│")));
    assert_eq!(rows[2], format!("-1 {} b", blue("│")));
    assert_eq!(rows[3], format!(" 0 {} c", blue("│")));
    assert_eq!(rows[4], format!(" 1 {} d", blue("│")));
    assert_eq!(rows[5], format!("+2 {} e", blue("│")));
    assert_eq!(rows.len(), 7);
}

#[test]
fn lines_before_a_low_anchor_go_below_zero() {
    let c = Context::line("x").linenumber(1).before(strings(&["p", "q", "r"]));
    let rows = c.render_lines();
    assert_eq!(rows[1], format!("-2 {} p", blue("│")));
    assert_eq!(rows[2], format!("-1 {} q", blue("│")));
    assert_eq!(rows[3], format!(" 0 {} r", blue("│")));
    assert_eq!(rows[4], format!(" 1 {} x", blue("│")));
}
