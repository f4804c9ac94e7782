use emerald_kernel::cmdline::parser::ParseErrorKind;
use emerald_kernel::cmdline::tokenizer::Tokenizer;
use emerald_kernel::cmdline::{default_cmdline, parse_cmdline, LogAml, LogLevel};

#[test]
fn empty_line_gives_defaults() {
    let cmd = parse_cmdline("").expect("parse");
    assert!(cmd.uart);
    assert_eq!(cmd.uart_baud, 115200);
    assert!(matches!(cmd.max_log_level, LogLevel::Info));
    assert_eq!(cmd.log_file, "/kernel.log");
    assert!(cmd.allow_hpet);
    assert!(matches!(cmd.log_aml, LogAml::Off));
}

#[test]
fn default_cmdline_values() {
    let cmd = default_cmdline();
    assert!(cmd.uart);
    assert_eq!(cmd.uart_baud, 115200);
    assert!(matches!(cmd.max_log_level, LogLevel::Info));
    assert_eq!(cmd.log_file, "/kernel.log");
    assert!(cmd.allow_hpet);
    assert!(matches!(cmd.log_aml, LogAml::Off));
}

#[test]
fn all_options_set() {
    let cmd = parse_cmdline(
        "uart=false uart_baud=9600 max_log_level=debug log_file=/x.log allow_hpet=false log_aml=structured",
    )
    .expect("parse");
    assert!(!cmd.uart);
    assert_eq!(cmd.uart_baud, 9600);
    assert!(matches!(cmd.max_log_level, LogLevel::Debug));
    assert_eq!(cmd.log_file, "/x.log");
    assert!(!cmd.allow_hpet);
    assert!(matches!(cmd.log_aml, LogAml::Structured));
}

#[test]
fn commas_separate_pairs() {
    let cmd = parse_cmdline("uart=false,allow_hpet=false,,log_aml=normal").expect("parse");
    assert!(!cmd.uart);
    assert!(!cmd.allow_hpet);
    assert!(matches!(cmd.log_aml, LogAml::Normal));
    assert_eq!(cmd.uart_baud, 115200);
}

#[test]
fn later_value_wins() {
    let cmd = parse_cmdline("max_log_level=trace max_log_level=error").expect("parse");
    assert!(matches!(cmd.max_log_level, LogLevel::Error));
}

#[test]
fn plus_sign_number() {
    let cmd = parse_cmdline("uart_baud=+42").expect("parse");
    assert_eq!(cmd.uart_baud, 42);
}

#[test]
fn trailing_text_without_equals_is_ignored() {
    let cmd = parse_cmdline("uart=false junk").expect("parse");
    assert!(!cmd.uart);
}

#[test]
fn unknown_name_is_refused() {
    let e = parse_cmdline("uart=true unknown=1").err().expect("error");
    assert_eq!(e.loc(), 10);
    match e.kind() {
        ParseErrorKind::UnexpectedId(id) => assert_eq!(*id, "unknown"),
        _ => panic!("wrong kind"),
    }
}

#[test]
fn bad_bool_value() {
    let e = parse_cmdline("uart=maybe").err().expect("error");
    assert_eq!(e.loc(), 5);
    match e.kind() {
        ParseErrorKind::Unexpected { need, got } => {
            assert_eq!(*need, "true/false");
            assert_eq!(*got, Some("maybe"));
        }
        _ => panic!("wrong kind"),
    }
}

#[test]
fn bad_level_value() {
    let e = parse_cmdline("max_log_level=loud").err().expect("error");
    assert_eq!(e.loc(), 14);
    match e.kind() {
        ParseErrorKind::Unexpected { need, got } => {
            assert_eq!(*need, "trace/debug/info/warn/error");
            assert_eq!(*got, Some("loud"));
        }
        _ => panic!("wrong kind"),
    }
}

#[test]
fn bad_aml_value() {
    let e = parse_cmdline("log_aml=all").err().expect("error");
    assert_eq!(e.loc(), 8);
    match e.kind() {
        ParseErrorKind::Unexpected { need, got } => {
            assert_eq!(*need, "off/normal/structured");
            assert_eq!(*got, Some("all"));
        }
        _ => panic!("wrong kind"),
    }
}

#[test]
fn bad_number() {
    for (line, loc) in [("uart_baud=abc", 10), ("uart_baud=99999999999", 10), ("uart_baud=-1", 10)] {
        let e = parse_cmdline(line).err().expect("error");
        assert_eq!(e.loc(), loc);
        assert!(matches!(e.kind(), ParseErrorKind::ParseIntError(_)));
    }
}

#[test]
fn empty_value_is_not_a_bool() {
    let e = parse_cmdline("uart=").err().expect("error");
    assert_eq!(e.loc(), 5);
    match e.kind() {
        ParseErrorKind::Unexpected { got, .. } => assert_eq!(*got, Some("")),
        _ => panic!("wrong kind"),
    }
}

#[test]
fn positions_count_bytes() {
    // "é" takes two bytes, so the unknown name starts at byte 12
    let e = parse_cmdline("log_file=é x=1").err().expect("error");
    assert_eq!(e.loc(), 12);
    match e.kind() {
        ParseErrorKind::UnexpectedId(id) => assert_eq!(*id, "x"),
        _ => panic!("wrong kind"),
    }
}

#[test]
fn tokenizer_steps() {
    let mut t = Tokenizer::new("a=1 b=22");
    assert_eq!(t.current_index(), 0);
    assert_eq!(t.next_ident(), Some((0, "a")));
    assert_eq!(t.current_index(), 2);
    assert_eq!(t.next_value(), Some((2, "1")));
    assert_eq!(t.current_index(), 4);
    assert_eq!(t.next_ident(), Some((4, "b")));
    assert_eq!(t.next_value(), Some((6, "22")));
    assert_eq!(t.current_index(), 8);
    assert_eq!(t.next_ident(), None);
    assert_eq!(t.next_value(), Some((8, "")));
}

#[test]
fn tokenizer_name_needs_equals() {
    let mut t = Tokenizer::new("abc def=1");
    assert_eq!(t.next_ident(), None);
    assert_eq!(t.current_index(), 0);
    // nothing was consumed, so the value is the first word
    assert_eq!(t.next_value(), Some((0, "abc")));
    assert_eq!(t.next_ident(), Some((4, "def")));
}

#[test]
fn tokenizer_value_without_separator_takes_the_rest() {
    let mut t = Tokenizer::new("a=b=c");
    assert_eq!(t.next_ident(), Some((0, "a")));
    assert_eq!(t.next_value(), Some((2, "b=c")));
    assert_eq!(t.current_index(), 5);
}
