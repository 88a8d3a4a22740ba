use sharc_args::arg::Arg;
use sharc_args::args::{Args, Outcome};
use sharc_args::errors::ParseError;
use sharc_args::level::{parse_level, Level};

fn toks(xs: &[&str]) -> Vec<String> {
    xs.iter().map(|x| x.to_string()).collect()
}

fn duplicate(r: Outcome, spelling: &str) {
    assert_eq!(
        r,
        Outcome::Failed(ParseError::DuplicateFlag(spelling.to_string()))
    );
}

#[test]
fn duplicate_debug_in_every_combination() {
    duplicate(Args::parse(toks(&["-d", "-d"])), "-d");
    duplicate(Args::parse(toks(&["-d", "--debug"])), "--debug");
    duplicate(Args::parse(toks(&["--debug", "-d"])), "-d");
    duplicate(Args::parse(toks(&["--debug", "--debug"])), "--debug");
}

#[test]
fn duplicate_file_in_every_combination() {
    duplicate(Args::parse(toks(&["-f", "a", "-f", "b"])), "-f");
    duplicate(Args::parse(toks(&["-f", "a", "--file", "b"])), "--file");
    duplicate(Args::parse(toks(&["--file", "a", "-f", "b"])), "-f");
    duplicate(Args::parse(toks(&["--file", "a", "--file", "b"])), "--file");
}

#[test]
fn duplicate_output_in_every_combination() {
    duplicate(Args::parse(toks(&["-o", "a", "-o", "b"])), "-o");
    duplicate(Args::parse(toks(&["-o", "a", "--output", "b"])), "--output");
    duplicate(Args::parse(toks(&["--output", "a", "-o", "b"])), "-o");
}

#[test]
fn duplicate_level_in_every_combination() {
    duplicate(Args::parse(toks(&["-l", "f", "-l", "e"])), "-l");
    duplicate(
        Args::parse(toks(&["-l", "f", "--error-level", "e"])),
        "--error-level",
    );
    duplicate(Args::parse(toks(&["--error-level", "f", "-l", "e"])), "-l");
}

#[test]
fn duplicate_no_context() {
    duplicate(
        Args::parse(toks(&["--no-context", "--no-context"])),
        "--no-context",
    );
}

#[test]
fn duplicate_inside_one_group() {
    duplicate(Args::parse(toks(&["-dd"])), "-d");
}

#[test]
fn no_context_disables_code_context() {
    let r = Args::parse(toks(&["--no-context"]));
    match r {
        Outcome::Parsed(cfg) => {
            assert_eq!(cfg.code_context.value, false);
            assert!(cfg.code_context.is_set());
        },
        other => panic!("expected a configuration, got {:?}", other),
    }
}

#[test]
fn output_flag_sets_output_file() {
    let r = Args::parse(toks(&["--output", "out.asm"]));
    match r {
        Outcome::Parsed(cfg) => {
            assert_eq!(cfg.output.value, "out.asm");
            assert!(cfg.output.is_set());
        },
        other => panic!("expected a configuration, got {:?}", other),
    }
}

#[test]
fn every_level_spelling_parses() {
    assert_eq!(parse_level("f"), Some(Level::Fatal));
    assert_eq!(parse_level("fatal"), Some(Level::Fatal));
    assert_eq!(parse_level("e"), Some(Level::Error));
    assert_eq!(parse_level("error"), Some(Level::Error));
    assert_eq!(parse_level("w"), Some(Level::Warn));
    assert_eq!(parse_level("warn"), Some(Level::Warn));
    assert_eq!(parse_level("n"), Some(Level::Note));
    assert_eq!(parse_level("note"), Some(Level::Note));
    assert_eq!(parse_level("s"), Some(Level::Silent));
    assert_eq!(parse_level("silent"), Some(Level::Silent));
}

#[test]
fn unknown_level_spellings_fail() {
    assert_eq!(parse_level("bogus"), None);
    assert_eq!(parse_level(""), None);
    assert_eq!(parse_level("F"), None);
    assert_eq!(parse_level("fata"), None);
    assert_eq!(parse_level("fatall"), None);
}

#[test]
fn settable_value_sets_once() {
    let mut a: Arg<u32> = Arg::new(7);
    assert_eq!(a.value, 7);
    assert!(!a.is_set());
    assert_eq!(a.try_mut("-x".to_string(), 9), Ok(()));
    assert_eq!(a.value, 9);
    assert!(a.is_set());
    assert_eq!(
        a.try_mut("--long".to_string(), 11),
        Err(ParseError::DuplicateFlag("--long".to_string()))
    );
    assert_eq!(a.value, 9);
    assert!(a.is_set());
}
