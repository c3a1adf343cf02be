use custom_error::{
    Context, CustomError, CustomErrorFnUnwrap, CustomErrorUnwrap, CustomErrors, Highlight,
};
use std::fmt::Debug;

#[derive(Debug, PartialEq, Eq, Clone, Copy)]
enum ParseError {
    NotANumber,
    Empty,
}

#[derive(Debug, PartialEq, Eq, Clone, Copy)]
enum AppError {
    Parse(ParseError),
}

fn unwrap_parse(e: AppError) -> ParseError {
    match e {
        AppError::Parse(p) => p,
    }
}

const KIND_PATH: &str = "diagnostics::ParseError";

fn label<T: Debug>(kind: &T) -> String {
    format!("{}::{:?}", KIND_PATH, kind)
}

fn labels<T: Debug>(errors: &CustomErrors<T>) -> Vec<String> {
    errors.iter().iter().map(|e| label(e.kind())).collect()
}

fn paint(code: &str, text: &str) -> String {
    format!("\u{1b}[{}m{}\u{1b}[0m", code, text)
}

#[test]
fn one_error_with_message_renders_header_message_and_count() {
    let mut errors = CustomErrors::new();
    errors.push(CustomError::new(ParseError::NotANumber).message("bad token"));
    let text = errors.render(&labels(&errors));
    let lines: Vec<&str> = text.split('\n').collect();
    assert!(lines[0].contains("error"));
    assert!(lines[0].contains(KIND_PATH));
    assert!(lines[0].contains("NotANumber"));
    assert_eq!(lines[1], "bad token");
    assert!(text.contains(&format!("1 {}", paint("31", "errors"))));
    assert_eq!(
        text,
        format!(
            "{}: {}::NotANumber\nbad token\n\n\nencountered: 1 {}\n",
            paint("31", "error"),
            KIND_PATH,
            paint("31", "errors")
        )
    );
}

#[test]
fn empty_set_renders_only_no_messages() {
    let errors: CustomErrors<ParseError> = CustomErrors::new();
    assert_eq!(errors.render(&Vec::new()), format!("\n{}\n", paint("32", "no messages!")));
}

#[test]
fn summary_lists_each_level_present() {
    let mut errors = CustomErrors::new();
    errors.push(CustomError::new(ParseError::Empty).warning());
    errors.push(CustomError::new(ParseError::Empty));
    errors.push(CustomError::new(ParseError::Empty).info());
    errors.push(CustomError::new(ParseError::Empty));
    let text = errors.render(&labels(&errors));
    assert!(text.ends_with(&format!(
        "\nencountered: 2 {}, 1 {}, 1 {}\n",
        paint("31", "errors"),
        paint("33", "warnings"),
        paint("34", "infos")
    )));
    let mut infos = CustomErrors::new();
    infos.push(CustomError::new(ParseError::Empty).info());
    assert!(infos
        .render(&labels(&infos))
        .ends_with(&format!("\nencountered: 1 {}\n", paint("34", "infos"))));
}

#[test]
fn full_diagnostic_renders_parts_in_order() {
    let e = CustomError::new(ParseError::NotANumber)
        .title("Invalid number")
        .url("https://example.org/e")
        .location("src/parse.rs:3:9".to_string())
        .context(Context::line("x").linenumber(1))
        .message("not a number")
        .help("use digits");
    let expected = format!(
        "{}: Invalid number (K)\n{}: {}\n  {} generated at: src/parse.rs:3:9\n{}not a number\n  {}: use digits\n",
        paint("31", "error"),
        paint("34", "url"),
        paint("34", "https://example.org/e"),
        paint("34", "-->"),
        Context::line("x").linenumber(1).render(),
        paint("34", "help")
    );
    assert_eq!(e.render("K"), expected);
}

#[test]
fn bare_diagnostic_renders_header_only() {
    let e = CustomError::new(ParseError::Empty).warning();
    assert_eq!(e.render("P::Empty"), format!("{}: P::Empty\n", paint("33", "warning")));
}

#[test]
fn contexts_are_appended_in_order() {
    let a = Context::line("a");
    let b = Context::line("b");
    let c = Context::line("c");
    let e = CustomError::new(ParseError::Empty)
        .context(a.clone())
        .multiple_context(vec![b.clone(), c.clone()]);
    assert_eq!(
        e.render("K"),
        format!("{}: K\n{}{}{}", paint("31", "error"), a.render(), b.render(), c.render())
    );
}

#[test]
fn level_queries() {
    let e = CustomError::new(ParseError::Empty);
    assert!(e.is_error() && !e.is_warning() && !e.is_info());
    let w = CustomError::new(ParseError::Empty).warning();
    assert!(!w.is_error() && w.is_warning() && !w.is_info());
    let i = CustomError::new(ParseError::Empty).info();
    assert!(!i.is_error() && !i.is_warning() && i.is_info());
    assert_eq!(*i.kind(), ParseError::Empty);
}

#[test]
fn convert_round_trip_keeps_fields() {
    let e = CustomError::new(ParseError::NotANumber)
        .title("t")
        .message("m")
        .help("h")
        .url("u")
        .location("l".to_string())
        .context(Context::line("x").highlight(Highlight::new(0, 0, 1)))
        .warning();
    let there = e.clone().convert(AppError::Parse);
    assert_eq!(*there.kind(), AppError::Parse(ParseError::NotANumber));
    assert!(there.is_warning());
    let back = there.convert(unwrap_parse);
    assert_eq!(back, e);
}

#[test]
fn collection_queries() {
    let mut errors = CustomErrors::default();
    assert!(errors.is_empty());
    assert!(!errors.any_errors());
    assert!(!errors.any_errors_or_warnings());
    errors.push(CustomError::new(ParseError::Empty).info());
    assert!(!errors.is_empty());
    assert!(!errors.any_errors());
    assert!(!errors.any_errors_or_warnings());
    errors.push(CustomError::new(ParseError::Empty).warning());
    assert!(!errors.any_errors());
    assert!(errors.any_errors_or_warnings());
    errors.extend(vec![CustomError::new(ParseError::NotANumber)]);
    errors += CustomError::new(ParseError::Empty).info();
    assert_eq!(errors.len(), 4);
    let mut kinds = Vec::new();
    for e in errors.clone() {
        kinds.push(*e.kind());
    }
    assert_eq!(kinds, vec![ParseError::Empty, ParseError::Empty, ParseError::NotANumber, ParseError::Empty]);
    assert!(errors.any_errors());
    assert_eq!(*errors.iter()[2].kind(), ParseError::NotANumber);
}

#[test]
fn collection_convert_and_mutate() {
    let mut errors = CustomErrors::new();
    errors.push(CustomError::new(ParseError::Empty));
    errors.push(CustomError::new(ParseError::NotANumber).info());
    for e in errors.iter_mut() {
        *e = e.clone().message("seen");
    }
    let converted = errors.clone().convert(AppError::Parse);
    let items: Vec<CustomError<AppError>> = converted.into_iter().collect();
    assert_eq!(items.len(), 2);
    assert_eq!(*items[0].kind(), AppError::Parse(ParseError::Empty));
    assert_eq!(*items[1].kind(), AppError::Parse(ParseError::NotANumber));
    assert!(items[1].is_info());
    assert_eq!(items[0].render("K"), format!("{}: K\nseen\n", paint("31", "error")));
}

#[test]
fn docs_link_builds_docs_rs_url() {
    let e = CustomError::new(ParseError::NotANumber).docs_link(
        "my_crate::parser::errors",
        "1.2.0",
        "my_crate::parser::errors::ParseError",
        "NotANumber",
    );
    assert_eq!(
        e.render("K"),
        format!(
            "{}: K\n{}: {}\n",
            paint("31", "error"),
            paint("34", "url"),
            paint(
                "34",
                "https://docs.rs/my_crate/1.2.0/my_crate/parser/errors/enum.ParseError.html#variant.NotANumber"
            )
        )
    );
    let top = CustomError::new(ParseError::Empty).docs_link("my_crate", "0.1.0", "ParseError", "Empty");
    assert!(top
        .render("K")
        .contains("https://docs.rs/my_crate/0.1.0/my_crate/enum.ParseError.html#variant.Empty"));
}

#[test]
fn unwrap_helpers() {
    let ok: Result<u32, String> = Ok(4);
    assert_eq!(ok.unwrap_or_error(CustomError::new(ParseError::Empty)), Ok(4));
    let bad: Result<u32, String> = Err("x".to_string());
    assert_eq!(
        bad.unwrap_or_error(CustomError::new(ParseError::Empty)),
        Err(CustomError::new(ParseError::Empty))
    );
    let none: Option<u32> = None;
    assert_eq!(
        none.unwrap_or_error(CustomError::new(ParseError::Empty)),
        Err(CustomError::new(ParseError::Empty))
    );
    assert_eq!(Some(3).unwrap_or_error(CustomError::new(ParseError::Empty)), Ok(3));
    let parsed: Result<u32, std::num::ParseIntError> = "12e".parse();
    let r = parsed.unwrap_or_error_fn(|e| {
        CustomError::new(ParseError::NotANumber).message(&e.to_string())
    });
    assert_eq!(
        r,
        Err(CustomError::new(ParseError::NotANumber).message("invalid digit found in string"))
    );
}
