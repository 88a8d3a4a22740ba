use vstd::prelude::*;

use crate::arg::ArgView;
use crate::errors::ErrorView;
use crate::level::{spec_parse_level, Level};

verus! {

/// The mathematical content of a parsed configuration: each option with
/// its value and its explicitly-set mark, and the verbs in encounter order.
#[verifier::ext_equal]
pub ghost struct ArgsView {
    pub file: ArgView<Seq<char>>,
    pub output: ArgView<Seq<char>>,
    pub debug: ArgView<bool>,
    pub code_context: ArgView<bool>,
    pub level: ArgView<Level>,
    pub verbs: Seq<Seq<char>>,
}

/// What a whole parse yields: a configuration, one of the immediate
/// actions, or a terminal error.
#[verifier::ext_equal]
pub ghost enum OutcomeView {
    Parsed(ArgsView),
    ShowUsage,
    ShowHelp,
    ShowVersion,
    ShowBanner,
    Failed(ErrorView),
}

/// One dispatch step: either the scan continues with a new cursor and
/// configuration, or a terminal outcome stops it.
#[verifier::ext_equal]
pub ghost enum Step {
    Cont { cur: int, cfg: ArgsView },
    Stop { out: OutcomeView },
}

/// The view of a token sequence: each string as its character sequence.
pub open spec fn tok_views(ts: Seq<String>) -> Seq<Seq<char>> {
    ts.map_values(|t: String| t@)
}

/// A token the driver routes to the flag machinery: one beginning with a dash.
pub open spec fn is_flag_token(t: Seq<char>) -> bool {
    t.len() >= 1 && t[0] == '-'
}

/// A long-form token: two leading dashes.  Never split into a group.
pub open spec fn is_long_token(t: Seq<char>) -> bool {
    t.len() >= 2 && t[0] == '-' && t[1] == '-'
}

/// Group expansion: a long-form token stands alone; any other dash token
/// turns each character after the dash into the synthetic token `-<char>`,
/// left to right.
pub open spec fn expand_group(t: Seq<char>) -> Seq<Seq<char>>
    recommends
        is_flag_token(t),
{
    if is_long_token(t) {
        seq![t]
    } else {
        Seq::new((t.len() - 1) as nat, |i: int| seq!['-', t[i + 1]])
    }
}

/// The defaults every parse starts from.
pub open spec fn spec_default() -> ArgsView {
    ArgsView {
        file: ArgView { value: "main.shd"@, set: false },
        output: ArgView { value: "main.asm"@, set: false },
        debug: ArgView { value: false, set: false },
        code_context: ArgView { value: true, set: false },
        level: ArgView { value: Level::Warn, set: false },
        verbs: Seq::empty(),
    }
}

/// What one expanded token does: an immediate action, a boolean toggle, a
/// value-consuming flag reading `toks[cur]`, or an error.  `is_end` says
/// whether the token stood last in its expansion group; a value-consuming
/// flag anywhere else is a position error.  A value-consuming flag first
/// needs its value present, then (for `--error-level`) readable, and only
/// then may it fail as a duplicate.
pub open spec fn spec_dispatch(
    a: Seq<char>,
    is_end: bool,
    toks: Seq<Seq<char>>,
    cur: int,
    cfg: ArgsView,
) -> Step {
    if a == "-h"@ {
        Step::Stop { out: OutcomeView::ShowUsage }
    } else if a == "--help"@ {
        Step::Stop { out: OutcomeView::ShowHelp }
    } else if a == "-V"@ || a == "--version"@ {
        Step::Stop { out: OutcomeView::ShowVersion }
    } else if a == "-d"@ || a == "--debug"@ {
        if cfg.debug.set {
            Step::Stop { out: OutcomeView::Failed(ErrorView::DuplicateFlag(a)) }
        } else {
            Step::Cont {
                cur,
                cfg: ArgsView { debug: ArgView { value: true, set: true }, ..cfg },
            }
        }
    } else if a == "-f"@ || a == "--file"@ {
        if !is_end {
            Step::Stop { out: OutcomeView::Failed(ErrorView::GroupPosition(a)) }
        } else if cur >= toks.len() {
            Step::Stop { out: OutcomeView::Failed(ErrorView::MissingValue(a)) }
        } else if cfg.file.set {
            Step::Stop { out: OutcomeView::Failed(ErrorView::DuplicateFlag(a)) }
        } else {
            Step::Cont {
                cur: cur + 1,
                cfg: ArgsView { file: ArgView { value: toks[cur], set: true }, ..cfg },
            }
        }
    } else if a == "-o"@ || a == "--output"@ {
        if !is_end {
            Step::Stop { out: OutcomeView::Failed(ErrorView::GroupPosition(a)) }
        } else if cur >= toks.len() {
            Step::Stop { out: OutcomeView::Failed(ErrorView::MissingValue(a)) }
        } else if cfg.output.set {
            Step::Stop { out: OutcomeView::Failed(ErrorView::DuplicateFlag(a)) }
        } else {
            Step::Cont {
                cur: cur + 1,
                cfg: ArgsView { output: ArgView { value: toks[cur], set: true }, ..cfg },
            }
        }
    } else if a == "-l"@ || a == "--error-level"@ {
        if !is_end {
            Step::Stop { out: OutcomeView::Failed(ErrorView::GroupPosition(a)) }
        } else if cur >= toks.len() {
            Step::Stop { out: OutcomeView::Failed(ErrorView::MissingValue(a)) }
        } else {
            match spec_parse_level(toks[cur]) {
                Option::None => Step::Stop {
                    out: OutcomeView::Failed(ErrorView::InvalidValue(toks[cur])),
                },
                Option::Some(lv) => {
                    if cfg.level.set {
                        Step::Stop { out: OutcomeView::Failed(ErrorView::DuplicateFlag(a)) }
                    } else {
                        Step::Cont {
                            cur: cur + 1,
                            cfg: ArgsView { level: ArgView { value: lv, set: true }, ..cfg },
                        }
                    }
                },
            }
        }
    } else if a == "--no-context"@ {
        if cfg.code_context.set {
            Step::Stop { out: OutcomeView::Failed(ErrorView::DuplicateFlag(a)) }
        } else {
            Step::Cont {
                cur,
                cfg: ArgsView { code_context: ArgView { value: false, set: true }, ..cfg },
            }
        }
    } else {
        Step::Stop { out: OutcomeView::Failed(ErrorView::UnrecognizedArgument(a)) }
    }
}

/// A group's scan from element `k` on, threading cursor and configuration.
pub open spec fn spec_group(
    group: Seq<Seq<char>>,
    k: int,
    toks: Seq<Seq<char>>,
    cur: int,
    cfg: ArgsView,
) -> Step
    decreases group.len() - k,
{
    if k < 0 || k >= group.len() {
        Step::Cont { cur, cfg }
    } else {
        match spec_dispatch(group[k], k == group.len() - 1, toks, cur, cfg) {
            Step::Cont { cur: c2, cfg: g2 } => spec_group(group, k + 1, toks, c2, g2),
            Step::Stop { out } => Step::Stop { out },
        }
    }
}

/// Handling one raw flag token: expand it, then scan the group.
pub open spec fn spec_handle(t: Seq<char>, toks: Seq<Seq<char>>, cur: int, cfg: ArgsView) -> Step {
    spec_group(expand_group(t), 0, toks, cur, cfg)
}

/// A dispatch step moves the cursor forward by at most one token and never
/// past the end.
pub proof fn lemma_dispatch_cursor(
    a: Seq<char>,
    is_end: bool,
    toks: Seq<Seq<char>>,
    cur: int,
    cfg: ArgsView,
)
    requires
        cur <= toks.len(),
    ensures
        match spec_dispatch(a, is_end, toks, cur, cfg) {
            Step::Cont { cur: c2, .. } => cur <= c2 <= toks.len(),
            Step::Stop { .. } => true,
        },
{
}

/// A group scan only ever moves the cursor forward, at most to the end.
pub proof fn lemma_group_cursor(
    group: Seq<Seq<char>>,
    k: int,
    toks: Seq<Seq<char>>,
    cur: int,
    cfg: ArgsView,
)
    requires
        cur <= toks.len(),
    ensures
        match spec_group(group, k, toks, cur, cfg) {
            Step::Cont { cur: c2, .. } => cur <= c2 <= toks.len(),
            Step::Stop { .. } => true,
        },
    decreases group.len() - k,
{
    if 0 <= k < group.len() {
        match spec_dispatch(group[k], k == group.len() - 1, toks, cur, cfg) {
            Step::Cont { cur: c2, cfg: g2 } => {
                lemma_dispatch_cursor(group[k], k == group.len() - 1, toks, cur, cfg);
                lemma_group_cursor(group, k + 1, toks, c2, g2);
            },
            Step::Stop { .. } => {},
        }
    }
}

/// The driver's scan from token `cur` on, with configuration `cfg` built so
/// far: a dash token goes through the group machinery, the reserved bare
/// word stops with the banner, and every other token becomes a verb.
pub open spec fn spec_parse_from(toks: Seq<Seq<char>>, cur: int, cfg: ArgsView) -> OutcomeView
    decreases toks.len() - cur,
    via spec_parse_from_decreases
{
    if cur < 0 || cur >= toks.len() {
        OutcomeView::Parsed(cfg)
    } else if is_flag_token(toks[cur]) {
        match spec_handle(toks[cur], toks, cur + 1, cfg) {
            Step::Cont { cur: c2, cfg: g2 } => spec_parse_from(toks, c2, g2),
            Step::Stop { out } => out,
        }
    } else if toks[cur] == "shark"@ {
        OutcomeView::ShowBanner
    } else {
        spec_parse_from(toks, cur + 1, ArgsView { verbs: cfg.verbs.push(toks[cur]), ..cfg })
    }
}

#[via_fn]
proof fn spec_parse_from_decreases(toks: Seq<Seq<char>>, cur: int, cfg: ArgsView) {
    if 0 <= cur < toks.len() && is_flag_token(toks[cur]) {
        lemma_group_cursor(expand_group(toks[cur]), 0, toks, cur + 1, cfg);
    }
}

/// The whole parse: scan every token, starting from the defaults.
pub open spec fn spec_parse(toks: Seq<Seq<char>>) -> OutcomeView {
    spec_parse_from(toks, 0, spec_default())
}

} // verus!
