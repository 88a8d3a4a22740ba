use sharc_args::args::{Args, Outcome};
use sharc_args::errors::ParseError;
use sharc_args::level::Level;

fn toks(xs: &[&str]) -> Vec<String> {
    xs.iter().map(|x| x.to_string()).collect()
}

fn parsed(r: Outcome) -> Args {
    match r {
        Outcome::Parsed(cfg) => cfg,
        other => panic!("expected a configuration, got {:?}", other),
    }
}

#[test]
fn empty_tokens_yield_defaults() {
    assert_eq!(Args::parse(vec![]), Outcome::Parsed(Args::default()));
}

#[test]
fn defaults_hold_documented_values() {
    let cfg = Args::default();
    assert_eq!(cfg.file.value, "main.shd");
    assert!(!cfg.file.is_set());
    assert_eq!(cfg.output.value, "main.asm");
    assert!(!cfg.output.is_set());
    assert_eq!(cfg.debug.value, false);
    assert!(!cfg.debug.is_set());
    assert_eq!(cfg.code_context.value, true);
    assert!(!cfg.code_context.is_set());
    assert_eq!(cfg.level.value, Level::Warn);
    assert!(!cfg.level.is_set());
    assert!(cfg.verbs.is_empty());
}

#[test]
fn file_and_verbs() {
    let cfg = parsed(Args::parse(toks(&["-f", "a.shd", "build", "run"])));
    assert_eq!(cfg.file.value, "a.shd");
    assert!(cfg.file.is_set());
    assert_eq!(cfg.verbs, vec!["build".to_string(), "run".to_string()]);
    assert_eq!(cfg.output.value, "main.asm");
    assert!(!cfg.output.is_set());
    assert!(!cfg.debug.is_set());
    assert!(!cfg.code_context.is_set());
    assert!(!cfg.level.is_set());
}

#[test]
fn verbs_keep_encounter_order() {
    let cfg = parsed(Args::parse(toks(&["alpha", "-d", "beta", "gamma"])));
    assert_eq!(
        cfg.verbs,
        vec!["alpha".to_string(), "beta".to_string(), "gamma".to_string()]
    );
    assert_eq!(cfg.debug.value, true);
    assert!(cfg.debug.is_set());
}

#[test]
fn bundled_group_equals_separate_tokens() {
    assert_eq!(Args::parse(toks(&["-dh"])), Args::parse(toks(&["-d", "-h"])));
    assert_eq!(Args::parse(toks(&["-dh"])), Outcome::ShowUsage);
    assert_eq!(
        Args::parse(toks(&["-dl", "w"])),
        Args::parse(toks(&["-d", "-l", "w"]))
    );
}

#[test]
fn bundled_group_equals_separate_tokens_with_suffix() {
    assert_eq!(
        Args::parse(toks(&["-df", "x.shd", "build"])),
        Args::parse(toks(&["-d", "-f", "x.shd", "build"]))
    );
    assert_eq!(Args::parse(toks(&["-dd"])), Args::parse(toks(&["-d", "-d"])));
}

#[test]
fn value_flag_not_last_in_group_is_position_error() {
    assert_eq!(
        Args::parse(toks(&["-fo", "x"])),
        Outcome::Failed(ParseError::GroupPosition("-f".to_string()))
    );
}

#[test]
fn value_flag_last_in_group_consumes_value() {
    let cfg = parsed(Args::parse(toks(&["-df", "x.shd"])));
    assert_eq!(cfg.debug.value, true);
    assert!(cfg.debug.is_set());
    assert_eq!(cfg.file.value, "x.shd");
    assert!(cfg.file.is_set());
}

#[test]
fn bogus_level_is_invalid_value() {
    assert_eq!(
        Args::parse(toks(&["--error-level", "bogus"])),
        Outcome::Failed(ParseError::InvalidValue("bogus".to_string()))
    );
}

#[test]
fn fatal_level_under_both_spellings() {
    let a = parsed(Args::parse(toks(&["--error-level", "fatal"])));
    assert_eq!(a.level.value, Level::Fatal);
    assert!(a.level.is_set());
    let b = parsed(Args::parse(toks(&["-l", "f"])));
    assert_eq!(b.level.value, Level::Fatal);
    assert!(b.level.is_set());
}

#[test]
fn trailing_value_flag_is_missing_value() {
    assert_eq!(
        Args::parse(toks(&["-o"])),
        Outcome::Failed(ParseError::MissingValue("-o".to_string()))
    );
    assert_eq!(
        Args::parse(toks(&["--file"])),
        Outcome::Failed(ParseError::MissingValue("--file".to_string()))
    );
}

#[test]
fn immediate_actions_stop_the_parse() {
    assert_eq!(Args::parse(toks(&["-h"])), Outcome::ShowUsage);
    assert_eq!(Args::parse(toks(&["--help"])), Outcome::ShowHelp);
    assert_eq!(Args::parse(toks(&["-V"])), Outcome::ShowVersion);
    assert_eq!(Args::parse(toks(&["--version"])), Outcome::ShowVersion);
    assert_eq!(
        Args::parse(toks(&["-h", "-f", "a.shd"])),
        Outcome::ShowUsage
    );
}

#[test]
fn unrecognized_flag_fails() {
    assert_eq!(
        Args::parse(toks(&["--bogus"])),
        Outcome::Failed(ParseError::UnrecognizedArgument("--bogus".to_string()))
    );
}

#[test]
fn unknown_letter_in_group_carries_its_synthetic_spelling() {
    assert_eq!(
        Args::parse(toks(&["-dx"])),
        Outcome::Failed(ParseError::UnrecognizedArgument("-x".to_string()))
    );
}

#[test]
fn immediate_action_inside_group_wins() {
    assert_eq!(Args::parse(toks(&["-hd"])), Outcome::ShowUsage);
    assert_eq!(Args::parse(toks(&["-dV"])), Outcome::ShowVersion);
}

#[test]
fn reserved_word_shows_the_banner() {
    assert_eq!(Args::parse(toks(&["shark"])), Outcome::ShowBanner);
    assert_eq!(Args::parse(toks(&["build", "shark"])), Outcome::ShowBanner);
    assert_eq!(Args::parse(toks(&["-d", "shark"])), Outcome::ShowBanner);
}

#[test]
fn reserved_word_as_consumed_value_is_plain() {
    let cfg = parsed(Args::parse(toks(&["-f", "shark"])));
    assert_eq!(cfg.file.value, "shark");
    assert!(cfg.file.is_set());
}

#[test]
fn lone_dash_has_no_effect() {
    assert_eq!(Args::parse(toks(&["-"])), Outcome::Parsed(Args::default()));
}

#[test]
fn double_dash_alone_is_unrecognized() {
    assert_eq!(
        Args::parse(toks(&["--"])),
        Outcome::Failed(ParseError::UnrecognizedArgument("--".to_string()))
    );
}

#[test]
fn empty_token_becomes_a_verb() {
    let cfg = parsed(Args::parse(toks(&[""])));
    assert_eq!(cfg.verbs, vec!["".to_string()]);
}

#[test]
fn position_error_precedes_duplicate() {
    assert_eq!(
        Args::parse(toks(&["-f", "a", "-fo"])),
        Outcome::Failed(ParseError::GroupPosition("-f".to_string()))
    );
}

#[test]
fn missing_value_precedes_duplicate() {
    assert_eq!(
        Args::parse(toks(&["-f", "a", "-f"])),
        Outcome::Failed(ParseError::MissingValue("-f".to_string()))
    );
}

#[test]
fn invalid_value_precedes_duplicate() {
    assert_eq!(
        Args::parse(toks(&["-l", "f", "--error-level", "bogus"])),
        Outcome::Failed(ParseError::InvalidValue("bogus".to_string()))
    );
}
