use logformat::{Formatter, Level, Output};

const TS1: &str = "[2024-01-02T03:04:05]";
const TS2: &str = "[2024-01-02T03:04:06]";

#[test]
fn file_info_plain_line() {
    let mut f = Formatter::new(Level::Info, Output::File);
    let r = f.format(TS1, Level::Info, "app", "hello");
    assert_eq!(r.line, "[2024-01-02T03:04:05] Info  hello");
    assert!(r.erase.is_none());
}

#[test]
fn same_second_blanks_timestamp() {
    let mut f = Formatter::new(Level::Info, Output::File);
    let first = f.format(TS1, Level::Info, "app", "hello");
    assert_eq!(first.line, "[2024-01-02T03:04:05] Info  hello");
    let second = f.format(TS1, Level::Info, "app", "world");
    assert_eq!(second.line, format!("{} Info  world", " ".repeat(21)));
}

#[test]
fn new_second_prints_timestamp_literally() {
    let mut f = Formatter::new(Level::Info, Output::File);
    let _ = f.format(TS1, Level::Info, "app", "hello");
    let second = f.format(TS2, Level::Info, "app", "world");
    assert_eq!(second.line, "[2024-01-02T03:04:06] Info  world");
}

#[test]
fn console_overwrite_produces_erase_sequence() {
    let mut f = Formatter::new(Level::Info, Output::Console);
    let first = f.format(TS1, Level::Info, "app", "one");
    let previous_len = first.line.chars().count();
    let second = f.format(TS1, Level::Info, "app", "\rtwo");
    assert_eq!(
        second.erase,
        Some(format!("\u{1b}[A{}\r", " ".repeat(previous_len)))
    );
}

#[test]
fn file_marker_appends_ordinary_line() {
    let mut f = Formatter::new(Level::Info, Output::File);
    let r = f.format(TS1, Level::Info, "app", "\rtwo");
    assert!(r.erase.is_none());
    assert_eq!(r.line, "[2024-01-02T03:04:05] Info  two");
}

#[test]
fn two_line_breaks_make_two_indented_continuations() {
    let mut f = Formatter::new(Level::Info, Output::File);
    let r = f.format(TS1, Level::Info, "app", "a\nb\nc");
    let pad = " ".repeat(21 + 7);
    assert_eq!(
        r.line,
        format!("[2024-01-02T03:04:05] Info  a\n{pad}b\n{pad}c")
    );
}

#[test]
fn module_tag_present_at_debug_minimum() {
    let mut f = Formatter::new(Level::Debug, Output::File);
    let r = f.format(TS1, Level::Debug, "mymod", "m");
    assert_eq!(r.line, "[2024-01-02T03:04:05] [mymod] Debug m");
}

#[test]
fn module_tag_present_at_trace_minimum() {
    let mut f = Formatter::new(Level::Trace, Output::File);
    let r = f.format(TS1, Level::Info, "mymod", "m");
    assert_eq!(r.line, "[2024-01-02T03:04:05] [mymod] Info  m");
}

#[test]
fn module_tag_absent_at_info_minimum() {
    let mut f = Formatter::new(Level::Info, Output::File);
    let r = f.format(TS1, Level::Info, "mymod", "m");
    assert_eq!(r.line, "[2024-01-02T03:04:05] Info  m");
}

#[test]
fn module_tag_widens_indentation() {
    let mut f = Formatter::new(Level::Debug, Output::File);
    let r = f.format(TS1, Level::Debug, "mymod", "a\nb");
    let pad = " ".repeat(21 + " [mymod]".len() + 7);
    assert_eq!(
        r.line,
        format!("[2024-01-02T03:04:05] [mymod] Debug a\n{pad}b")
    );
}

#[test]
fn file_lines_never_contain_escapes() {
    for level in [
        Level::Error,
        Level::Warn,
        Level::Info,
        Level::Debug,
        Level::Trace,
    ] {
        let mut f = Formatter::new(Level::Trace, Output::File);
        let r = f.format(TS1, level, "app", "payload");
        assert!(r.erase.is_none());
        assert!(!r.line.contains('\u{1b}'));
    }
}

#[test]
fn console_colorizes_each_severity() {
    let cases = [
        (Level::Error, "\u{1b}[91mError\u{1b}[0m"),
        (Level::Warn, "\u{1b}[93mWarn \u{1b}[0m"),
        (Level::Info, "\u{1b}[32mInfo \u{1b}[0m"),
        (Level::Debug, "\u{1b}[37mDebug\u{1b}[0m"),
        (Level::Trace, "\u{1b}[37mTrace\u{1b}[0m"),
    ];
    for (level, colored) in cases {
        let mut f = Formatter::new(Level::Info, Output::Console);
        let r = f.format(TS1, level, "app", "x");
        assert_eq!(r.line, format!("[2024-01-02T03:04:05] {colored} x"));
    }
}

#[test]
fn empty_message_renders_empty_body() {
    let mut f = Formatter::new(Level::Info, Output::File);
    let r = f.format(TS1, Level::Info, "app", "");
    assert_eq!(r.line, "[2024-01-02T03:04:05] Info  ");
    assert!(r.erase.is_none());
}

#[test]
fn marker_only_message_overwrites_with_empty_body() {
    let mut f = Formatter::new(Level::Info, Output::Console);
    let r = f.format(TS1, Level::Info, "app", "\r");
    assert_eq!(r.erase, Some("\u{1b}[A\r".to_string()));
    assert!(r.line.ends_with(' '));
}

#[test]
fn crlf_grapheme_is_not_the_marker() {
    let mut f = Formatter::new(Level::Info, Output::Console);
    let r = f.format(TS1, Level::Info, "app", "\r\nx");
    assert!(r.erase.is_none());
}

#[test]
fn marker_before_non_ascii_text_is_stripped_cleanly() {
    let mut f = Formatter::new(Level::Info, Output::File);
    let r = f.format(TS1, Level::Info, "app", "\rgrüße");
    assert_eq!(r.line, "[2024-01-02T03:04:05] Info  grüße");
}

#[test]
fn overwrite_keeps_comparing_against_original_bucket() {
    let mut f = Formatter::new(Level::Info, Output::Console);
    let first = f.format(TS1, Level::Info, "app", "one");
    assert!(first.line.starts_with(TS1));
    // An overwrite in the same second still prints the timestamp: the bucket
    // reference is the one of the line it replaces.
    let second = f.format(TS1, Level::Info, "app", "\rtwo");
    assert!(second.line.starts_with(TS1));
    let third = f.format(TS1, Level::Info, "app", "\rthree");
    assert!(third.line.starts_with(TS1));
    // The next new line in the same second is blanked.
    let fourth = f.format(TS1, Level::Info, "app", "four");
    assert!(fourth.line.starts_with(&" ".repeat(21)));
}

#[test]
fn warn_is_padded_to_five_characters() {
    let mut f = Formatter::new(Level::Info, Output::File);
    let r = f.format(TS1, Level::Warn, "app", "w");
    assert_eq!(r.line, "[2024-01-02T03:04:05] Warn  w");
}

#[test]
fn format_now_renders_a_bracketed_second_timestamp() {
    let mut f = Formatter::new(Level::Info, Output::File);
    let r = f.format_now(Level::Info, "app", "hello").unwrap();
    assert!(r.erase.is_none());
    assert!(r.line.ends_with(" Info  hello"));
    let ts: Vec<char> = r.line.chars().take(21).collect();
    assert_eq!(ts[0], '[');
    assert_eq!(ts[5], '-');
    assert_eq!(ts[8], '-');
    assert_eq!(ts[11], 'T');
    assert_eq!(ts[14], ':');
    assert_eq!(ts[17], ':');
    assert_eq!(ts[20], ']');
    for i in [1, 2, 3, 4, 6, 7, 9, 10, 12, 13, 15, 16, 18, 19] {
        assert!(ts[i].is_ascii_digit());
    }
}

#[test]
fn format_now_blanks_within_the_same_second() {
    let mut f = Formatter::new(Level::Info, Output::File);
    let first = f.format_now(Level::Info, "app", "one").unwrap();
    let second = f.format_now(Level::Info, "app", "two").unwrap();
    // The two calls may straddle a second boundary; then the timestamp is
    // printed literally instead of blanked.
    if second.line.starts_with(' ') {
        assert!(second.line.starts_with(&" ".repeat(21)));
    } else {
        assert!(second.line.starts_with('['));
        assert_ne!(
            first.line.chars().take(21).collect::<String>(),
            second.line.chars().take(21).collect::<String>()
        );
    }
}
