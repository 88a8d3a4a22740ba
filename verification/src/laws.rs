use vstd::prelude::*;

use crate::errors::ErrorView;
use crate::level::spec_parse_level;
use crate::model::{
    expand_group, is_flag_token, is_long_token, lemma_dispatch_cursor, lemma_group_cursor,
    spec_default, spec_dispatch, spec_group, spec_handle, spec_parse, spec_parse_from, ArgsView,
    OutcomeView, Step,
};

verus! {

/// The accumulating options: those a token assigns rather than an
/// immediate action.
pub ghost enum OptionKind {
    SourceFile,
    OutputFile,
    Debug,
    CodeContext,
    ErrorLevel,
}

/// The option a recognized accumulating spelling names, short or long form.
pub open spec fn option_of(a: Seq<char>) -> Option<OptionKind> {
    if a == "-d"@ || a == "--debug"@ {
        Some(OptionKind::Debug)
    } else if a == "-f"@ || a == "--file"@ {
        Some(OptionKind::SourceFile)
    } else if a == "-o"@ || a == "--output"@ {
        Some(OptionKind::OutputFile)
    } else if a == "-l"@ || a == "--error-level"@ {
        Some(OptionKind::ErrorLevel)
    } else if a == "--no-context"@ {
        Some(OptionKind::CodeContext)
    } else {
        None
    }
}

/// Whether the option has been explicitly assigned in `cfg`.
pub open spec fn option_is_set(cfg: ArgsView, o: OptionKind) -> bool {
    match o {
        OptionKind::SourceFile => cfg.file.set,
        OptionKind::OutputFile => cfg.output.set,
        OptionKind::Debug => cfg.debug.set,
        OptionKind::CodeContext => cfg.code_context.set,
        OptionKind::ErrorLevel => cfg.level.set,
    }
}

/// Whether the option consumes the following token as its value.
pub open spec fn takes_value(o: OptionKind) -> bool {
    match o {
        OptionKind::SourceFile => true,
        OptionKind::OutputFile => true,
        OptionKind::ErrorLevel => true,
        OptionKind::Debug => false,
        OptionKind::CodeContext => false,
    }
}

/// Every option already explicitly set in `a` keeps both its value and its
/// set mark in `b`.
pub open spec fn keeps_set_options(a: ArgsView, b: ArgsView) -> bool {
    &&& (a.file.set ==> b.file == a.file)
    &&& (a.output.set ==> b.output == a.output)
    &&& (a.debug.set ==> b.debug == a.debug)
    &&& (a.code_context.set ==> b.code_context == a.code_context)
    &&& (a.level.set ==> b.level == a.level)
}

/// No single dispatch step silently overwrites: an option that was already
/// explicitly set comes out of the step exactly as it went in.
pub proof fn lemma_dispatch_keeps_set(
    a: Seq<char>,
    is_end: bool,
    toks: Seq<Seq<char>>,
    cur: int,
    cfg: ArgsView,
)
    ensures
        match spec_dispatch(a, is_end, toks, cur, cfg) {
            Step::Cont { cfg: g2, .. } => keeps_set_options(cfg, g2),
            Step::Stop { .. } => true,
        },
{
}

/// No group scan silently overwrites.
pub proof fn lemma_group_keeps_set(
    group: Seq<Seq<char>>,
    k: int,
    toks: Seq<Seq<char>>,
    cur: int,
    cfg: ArgsView,
)
    ensures
        match spec_group(group, k, toks, cur, cfg) {
            Step::Cont { cfg: g2, .. } => keeps_set_options(cfg, g2),
            Step::Stop { .. } => true,
        },
    decreases group.len() - k,
{
    if 0 <= k < group.len() {
        match spec_dispatch(group[k], k == group.len() - 1, toks, cur, cfg) {
            Step::Cont { cur: c2, cfg: g2 } => {
                lemma_dispatch_keeps_set(group[k], k == group.len() - 1, toks, cur, cfg);
                lemma_group_keeps_set(group, k + 1, toks, c2, g2);
            },
            Step::Stop { .. } => {},
        }
    }
}

/// A group scan that stops never stops with a configuration: only the end
/// of the whole token scan yields one.
pub proof fn lemma_group_stop_not_parsed(
    group: Seq<Seq<char>>,
    k: int,
    toks: Seq<Seq<char>>,
    cur: int,
    cfg: ArgsView,
)
    ensures
        match spec_group(group, k, toks, cur, cfg) {
            Step::Stop { out } => !(out is Parsed),
            Step::Cont { .. } => true,
        },
    decreases group.len() - k,
{
    if 0 <= k < group.len() {
        match spec_dispatch(group[k], k == group.len() - 1, toks, cur, cfg) {
            Step::Cont { cur: c2, cfg: g2 } => {
                lemma_group_stop_not_parsed(group, k + 1, toks, c2, g2);
            },
            Step::Stop { .. } => {},
        }
    }
}

/// Once an option has been explicitly set, no later token of a parse that
/// yields a configuration changes it: duplicates can only fail, never
/// silently override.
pub proof fn lemma_parse_never_overwrites(toks: Seq<Seq<char>>, cur: int, cfg: ArgsView)
    requires
        cur <= toks.len(),
    ensures
        match spec_parse_from(toks, cur, cfg) {
            OutcomeView::Parsed(f) => keeps_set_options(cfg, f),
            _ => true,
        },
    decreases toks.len() - cur,
{
    if 0 <= cur < toks.len() {
        let t = toks[cur];
        if is_flag_token(t) {
            lemma_group_cursor(expand_group(t), 0, toks, cur + 1, cfg);
            match spec_handle(t, toks, cur + 1, cfg) {
                Step::Cont { cur: c2, cfg: g2 } => {
                    lemma_group_keeps_set(expand_group(t), 0, toks, cur + 1, cfg);
                    lemma_parse_never_overwrites(toks, c2, g2);
                    assert(spec_parse_from(toks, cur, cfg) == spec_parse_from(toks, c2, g2));
                    assert(keeps_set_options(cfg, g2));
                },
                Step::Stop { out } => {
                    lemma_group_stop_not_parsed(expand_group(t), 0, toks, cur + 1, cfg);
                    assert(spec_parse_from(toks, cur, cfg) == out);
                    assert(!(out is Parsed));
                },
            }
        } else if t == "shark"@ {
            assert(spec_parse_from(toks, cur, cfg) == OutcomeView::ShowBanner);
        } else {
            let cfg2 = ArgsView { verbs: cfg.verbs.push(t), ..cfg };
            lemma_parse_never_overwrites(toks, cur + 1, cfg2);
            assert(spec_parse_from(toks, cur, cfg) == spec_parse_from(toks, cur + 1, cfg2));
        }
    } else {
        assert(spec_parse_from(toks, cur, cfg) == OutcomeView::Parsed(cfg));
    }
}

/// The lengths and distinguishing characters of the recognized spellings:
/// enough ground facts to tell any two of them apart.
proof fn spelling_facts()
    ensures
        "-h"@.len() == 2 && "-h"@[1] == 'h',
        "-V"@.len() == 2 && "-V"@[1] == 'V',
        "-d"@.len() == 2 && "-d"@[1] == 'd',
        "-f"@.len() == 2 && "-f"@[1] == 'f',
        "-o"@.len() == 2 && "-o"@[1] == 'o',
        "-l"@.len() == 2 && "-l"@[1] == 'l',
        "--help"@.len() == 6 && "--help"@[2] == 'h',
        "--file"@.len() == 6 && "--file"@[2] == 'f',
        "--debug"@.len() == 7,
        "--output"@.len() == 8,
        "--version"@.len() == 9,
        "--no-context"@.len() == 12,
        "--error-level"@.len() == 13,
{
    reveal_strlit("-h");
    reveal_strlit("--help");
    reveal_strlit("-V");
    reveal_strlit("--version");
    reveal_strlit("-d");
    reveal_strlit("--debug");
    reveal_strlit("-f");
    reveal_strlit("--file");
    reveal_strlit("-o");
    reveal_strlit("--output");
    reveal_strlit("-l");
    reveal_strlit("--error-level");
    reveal_strlit("--no-context");
}

/// Supplying an option that is already set, under any of its spellings,
/// fails with `DuplicateFlag` carrying that spelling — provided the step
/// gets past the checks that come first: a value-consuming flag must stand
/// at the end of its group, must find its value, and `--error-level` must
/// find a readable one.
pub proof fn lemma_second_use_is_duplicate(
    a: Seq<char>,
    o: OptionKind,
    is_end: bool,
    toks: Seq<Seq<char>>,
    cur: int,
    cfg: ArgsView,
)
    requires
        option_of(a) == Some(o),
        option_is_set(cfg, o),
        takes_value(o) ==> is_end && 0 <= cur < toks.len(),
        o == OptionKind::ErrorLevel ==> spec_parse_level(toks[cur]) is Some,
    ensures
        spec_dispatch(a, is_end, toks, cur, cfg) == (Step::Stop {
            out: OutcomeView::Failed(ErrorView::DuplicateFlag(a)),
        }),
{
    spelling_facts();
    let want = Step::Stop { out: OutcomeView::Failed(ErrorView::DuplicateFlag(a)) };
    match o {
        OptionKind::Debug => {
            assert(a == "-d"@ || a == "--debug"@);
            assert(spec_dispatch(a, is_end, toks, cur, cfg) == want);
        },
        OptionKind::SourceFile => {
            assert(a == "-f"@ || a == "--file"@);
            assert(spec_dispatch(a, is_end, toks, cur, cfg) == want);
        },
        OptionKind::OutputFile => {
            assert(a == "-o"@ || a == "--output"@);
            assert(spec_dispatch(a, is_end, toks, cur, cfg) == want);
        },
        OptionKind::ErrorLevel => {
            assert(a == "-l"@ || a == "--error-level"@);
            assert(spec_dispatch(a, is_end, toks, cur, cfg) == want);
        },
        OptionKind::CodeContext => {
            assert(a == "--no-context"@);
            assert(spec_dispatch(a, is_end, toks, cur, cfg) == want);
        },
    }
}

/// The value-consuming short flags: the letters that must end their group.
pub open spec fn is_value_flag_char(c: char) -> bool {
    c == 'f' || c == 'o' || c == 'l'
}

/// The spellings of the value-consuming flags.
pub open spec fn is_value_spelling(a: Seq<char>) -> bool {
    a == "-f"@ || a == "--file"@ || a == "-o"@ || a == "--output"@ || a == "-l"@ || a
        == "--error-level"@
}

/// Dispatch reads its group position only for a value-consuming spelling.
pub proof fn lemma_dispatch_ignores_is_end(
    a: Seq<char>,
    toks: Seq<Seq<char>>,
    cur: int,
    cfg: ArgsView,
    e1: bool,
    e2: bool,
)
    requires
        !is_value_spelling(a),
    ensures
        spec_dispatch(a, e1, toks, cur, cfg) == spec_dispatch(a, e2, toks, cur, cfg),
{
}

/// A single-letter flag token is handled by exactly one dispatch with
/// `is_end` true, whatever the letter.
pub proof fn lemma_handle_single(c: char, toks: Seq<Seq<char>>, cur: int, cfg: ArgsView)
    ensures
        spec_handle(seq!['-', c], toks, cur, cfg) == spec_dispatch(
            seq!['-', c],
            true,
            toks,
            cur,
            cfg,
        ),
{
    let t = seq!['-', c];
    let group = expand_group(t);
    if is_long_token(t) {
        assert(group == seq![t]);
    } else {
        assert(group.len() == 1);
        assert(group[0] == t);
    }
    match spec_dispatch(t, true, toks, cur, cfg) {
        Step::Cont { cur: c2, cfg: g2 } => {
            assert(spec_group(group, 1, toks, c2, g2) == (Step::Cont { cur: c2, cfg: g2 }));
        },
        Step::Stop { .. } => {},
    }
}

/// Handling the letters of a short-flag token one at a time, from position
/// `k` on, each as its own single-letter token.
pub open spec fn spec_handle_each(
    t: Seq<char>,
    k: int,
    toks: Seq<Seq<char>>,
    cur: int,
    cfg: ArgsView,
) -> Step
    decreases t.len() - k,
{
    if k < 1 || k >= t.len() {
        Step::Cont { cur, cfg }
    } else {
        match spec_handle(seq!['-', t[k]], toks, cur, cfg) {
            Step::Cont { cur: c2, cfg: g2 } => spec_handle_each(t, k + 1, toks, c2, g2),
            Step::Stop { out } => Step::Stop { out },
        }
    }
}

/// Group expansion preserves effect and order: handling a bundled
/// short-flag token is the same — same configuration updates, same cursor
/// movement, same terminal outcome — as handling its letters one at a
/// time, each as its own single-letter token, provided no letter before
/// the last names a value-consuming flag (such a letter is a position
/// error in the bundle, while alone it would consume the next token).
pub proof fn lemma_group_expansion(t: Seq<char>, toks: Seq<Seq<char>>, cur: int, cfg: ArgsView)
    requires
        is_flag_token(t),
        !is_long_token(t),
        forall|k: int| 1 <= k < t.len() - 1 ==> !is_value_flag_char(t[k]),
    ensures
        spec_handle(t, toks, cur, cfg) == spec_handle_each(t, 1, toks, cur, cfg),
{
    lemma_group_expansion_from(t, 1, toks, cur, cfg);
}

proof fn lemma_group_expansion_from(
    t: Seq<char>,
    k: int,
    toks: Seq<Seq<char>>,
    cur: int,
    cfg: ArgsView,
)
    requires
        is_flag_token(t),
        !is_long_token(t),
        1 <= k <= t.len(),
        forall|j: int| k <= j < t.len() - 1 ==> !is_value_flag_char(t[j]),
    ensures
        spec_group(expand_group(t), k - 1, toks, cur, cfg) == spec_handle_each(
            t,
            k,
            toks,
            cur,
            cfg,
        ),
    decreases t.len() - k,
{
    let group = expand_group(t);
    assert(group.len() == t.len() - 1);
    if k < t.len() {
        let a = seq!['-', t[k]];
        assert(group[k - 1] == a);
        let group_end = k - 1 == group.len() - 1;
        lemma_handle_single(t[k], toks, cur, cfg);
        if !group_end {
            spelling_facts();
            assert(a.len() == 2 && a[1] == t[k]);
            assert(!is_value_flag_char(t[k]));
            assert(!is_value_spelling(a));
            lemma_dispatch_ignores_is_end(a, toks, cur, cfg, group_end, true);
        }
        match spec_dispatch(a, group_end, toks, cur, cfg) {
            Step::Cont { cur: c2, cfg: g2 } => {
                lemma_group_expansion_from(t, k + 1, toks, c2, g2);
            },
            Step::Stop { .. } => {},
        }
    }
}

/// Two token sequences agree from `j1` and `j2` on: the remaining windows
/// have the same length and the same tokens.
pub open spec fn suffixes_agree(
    toks1: Seq<Seq<char>>,
    j1: int,
    toks2: Seq<Seq<char>>,
    j2: int,
) -> bool {
    &&& 0 <= j1 <= toks1.len()
    &&& 0 <= j2 <= toks2.len()
    &&& toks1.len() - j1 == toks2.len() - j2
    &&& (forall|d: int| 0 <= d < toks1.len() - j1 ==> #[trigger] toks1[j1 + d] == toks2[j2 + d])
}

proof fn lemma_suffixes_agree_index(
    toks1: Seq<Seq<char>>,
    j1: int,
    toks2: Seq<Seq<char>>,
    j2: int,
    d: int,
)
    requires
        suffixes_agree(toks1, j1, toks2, j2),
        0 <= d < toks1.len() - j1,
    ensures
        toks1[j1 + d] == toks2[j2 + d],
{
}

proof fn lemma_suffixes_agree_advance(
    toks1: Seq<Seq<char>>,
    j1: int,
    toks2: Seq<Seq<char>>,
    j2: int,
    c: int,
)
    requires
        suffixes_agree(toks1, j1, toks2, j2),
        0 <= c <= toks1.len() - j1,
    ensures
        suffixes_agree(toks1, j1 + c, toks2, j2 + c),
{
    assert forall|d: int| 0 <= d < toks1.len() - (j1 + c) implies #[trigger] toks1[(j1 + c) + d]
        == toks2[(j2 + c) + d] by {
        lemma_suffixes_agree_index(toks1, j1, toks2, j2, c + d);
    }
}

/// A dispatch step reads the token stream only through its remaining
/// window: on agreeing windows it stops the same way or continues with the
/// same configuration and the same cursor movement.
proof fn lemma_dispatch_agree(
    a: Seq<char>,
    is_end: bool,
    toks1: Seq<Seq<char>>,
    j1: int,
    toks2: Seq<Seq<char>>,
    j2: int,
    cfg: ArgsView,
)
    requires
        suffixes_agree(toks1, j1, toks2, j2),
    ensures
        match (spec_dispatch(a, is_end, toks1, j1, cfg), spec_dispatch(a, is_end, toks2, j2, cfg)) {
            (Step::Cont { cur: x1, cfg: g1 }, Step::Cont { cur: x2, cfg: g2 }) => x1 - j1 == x2
                - j2 && 0 <= x1 - j1 <= 1 && g1 == g2,
            (Step::Stop { out: o1 }, Step::Stop { out: o2 }) => o1 == o2,
            _ => false,
        },
{
    if j1 < toks1.len() {
        lemma_suffixes_agree_index(toks1, j1, toks2, j2, 0);
        assert(toks1[j1] == toks2[j2]);
    }
}

/// A group scan reads the token stream only through its remaining window.
proof fn lemma_group_agree(
    group: Seq<Seq<char>>,
    k: int,
    toks1: Seq<Seq<char>>,
    j1: int,
    toks2: Seq<Seq<char>>,
    j2: int,
    cfg: ArgsView,
)
    requires
        suffixes_agree(toks1, j1, toks2, j2),
    ensures
        match (spec_group(group, k, toks1, j1, cfg), spec_group(group, k, toks2, j2, cfg)) {
            (Step::Cont { cur: x1, cfg: g1 }, Step::Cont { cur: x2, cfg: g2 }) => x1 - j1 == x2
                - j2 && 0 <= x1 - j1 && g1 == g2 && suffixes_agree(toks1, x1, toks2, x2),
            (Step::Stop { out: o1 }, Step::Stop { out: o2 }) => o1 == o2,
            _ => false,
        },
    decreases group.len() - k,
{
    if 0 <= k < group.len() {
        let ge = k == group.len() - 1;
        lemma_dispatch_agree(group[k], ge, toks1, j1, toks2, j2, cfg);
        match (spec_dispatch(group[k], ge, toks1, j1, cfg), spec_dispatch(
            group[k],
            ge,
            toks2,
            j2,
            cfg,
        )) {
            (Step::Cont { cur: x1, cfg: g1 }, Step::Cont { cur: x2, .. }) => {
                lemma_suffixes_agree_advance(toks1, j1, toks2, j2, x1 - j1);
                lemma_group_agree(group, k + 1, toks1, x1, toks2, x2, g1);
            },
            _ => {},
        }
    }
}

/// The driver reads the token stream only through its remaining window:
/// scans over agreeing windows end alike.
proof fn lemma_parse_from_agree(
    toks1: Seq<Seq<char>>,
    j1: int,
    toks2: Seq<Seq<char>>,
    j2: int,
    cfg: ArgsView,
)
    requires
        suffixes_agree(toks1, j1, toks2, j2),
    ensures
        spec_parse_from(toks1, j1, cfg) == spec_parse_from(toks2, j2, cfg),
    decreases toks1.len() - j1,
{
    if j1 < toks1.len() {
        lemma_suffixes_agree_index(toks1, j1, toks2, j2, 0);
        let t = toks1[j1];
        assert(toks2[j2] == t);
        if is_flag_token(t) {
            lemma_suffixes_agree_advance(toks1, j1, toks2, j2, 1);
            lemma_group_agree(expand_group(t), 0, toks1, j1 + 1, toks2, j2 + 1, cfg);
            lemma_group_cursor(expand_group(t), 0, toks1, j1 + 1, cfg);
            match (spec_handle(t, toks1, j1 + 1, cfg), spec_handle(t, toks2, j2 + 1, cfg)) {
                (Step::Cont { cur: x1, cfg: g1 }, Step::Cont { cur: x2, .. }) => {
                    lemma_parse_from_agree(toks1, x1, toks2, x2, g1);
                },
                _ => {},
            }
        } else if t == "shark"@ {
        } else {
            lemma_suffixes_agree_advance(toks1, j1, toks2, j2, 1);
            lemma_parse_from_agree(
                toks1,
                j1 + 1,
                toks2,
                j2 + 1,
                ArgsView { verbs: cfg.verbs.push(t), ..cfg },
            );
        }
    }
}

/// Dispatch of a spelling that consumes no value neither reads the token
/// stream nor moves the cursor: only the configuration and the outcome
/// depend on it.
proof fn lemma_dispatch_no_value(
    a: Seq<char>,
    e1: bool,
    toks1: Seq<Seq<char>>,
    c1: int,
    e2: bool,
    toks2: Seq<Seq<char>>,
    c2: int,
    cfg: ArgsView,
)
    requires
        !is_value_spelling(a),
    ensures
        match (spec_dispatch(a, e1, toks1, c1, cfg), spec_dispatch(a, e2, toks2, c2, cfg)) {
            (Step::Cont { cur: x1, cfg: g1 }, Step::Cont { cur: x2, cfg: g2 }) => x1 == c1 && x2
                == c2 && g1 == g2,
            (Step::Stop { out: o1 }, Step::Stop { out: o2 }) => o1 == o2,
            _ => false,
        },
{
}

/// The inductive heart of the driver-level group-expansion law: from letter
/// `k` on, the driver walking the synthetic tokens of `expand_group(t)` laid
/// out as separate raw tokens does what the one-at-a-time chain over the
/// bundled form does.
proof fn lemma_chain_vs_driver(t: Seq<char>, rest: Seq<Seq<char>>, k: int, cfg: ArgsView)
    requires
        is_flag_token(t),
        !is_long_token(t),
        forall|j: int| 1 <= j < t.len() - 1 ==> !is_value_flag_char(t[j]),
        1 <= k <= t.len(),
    ensures
        spec_parse_from(expand_group(t) + rest, k - 1, cfg) == (match spec_handle_each(
            t,
            k,
            seq![t] + rest,
            1,
            cfg,
        ) {
            Step::Cont { cur: c, cfg: g } => spec_parse_from(seq![t] + rest, c, g),
            Step::Stop { out } => out,
        }),
    decreases t.len() - k,
{
    let toks1 = seq![t] + rest;
    let toks2 = expand_group(t) + rest;
    let m = t.len() - 1;
    assert(expand_group(t).len() == m);
    assert(toks1.len() == 1 + rest.len());
    assert(toks2.len() == m + rest.len());
    if k == t.len() {
        // No letters left: the driver stands at the shared suffix.
        assert(suffixes_agree(toks1, 1, toks2, m)) by {
            assert forall|d: int| 0 <= d < rest.len() implies #[trigger] toks1[1 + d] == toks2[m
                + d] by {
                assert(toks1[1 + d] == rest[d]);
                assert(toks2[m + d] == rest[d]);
            }
        }
        lemma_parse_from_agree(toks1, 1, toks2, m, cfg);
    } else {
        let a = seq!['-', t[k]];
        assert(expand_group(t)[k - 1] == a);
        assert(toks2[k - 1] == a);
        assert(is_flag_token(a));
        lemma_handle_single(t[k], toks2, k, cfg);
        lemma_handle_single(t[k], toks1, 1, cfg);
        if k < t.len() - 1 {
            spelling_facts();
            assert(a.len() == 2 && a[1] == t[k]);
            assert(!is_value_flag_char(t[k]));
            assert(!is_value_spelling(a));
            lemma_dispatch_no_value(a, true, toks1, 1, true, toks2, k, cfg);
            match (spec_dispatch(a, true, toks1, 1, cfg), spec_dispatch(a, true, toks2, k, cfg)) {
                (Step::Cont { cur: x1, cfg: g1 }, Step::Cont { .. }) => {
                    lemma_chain_vs_driver(t, rest, k + 1, g1);
                },
                _ => {},
            }
        } else {
            // The last letter: both sides consume from the shared suffix.
            assert(suffixes_agree(toks1, 1, toks2, m)) by {
                assert forall|d: int| 0 <= d < rest.len() implies #[trigger] toks1[1 + d] == toks2[m
                + d] by {
                    assert(toks1[1 + d] == rest[d]);
                    assert(toks2[m + d] == rest[d]);
                }
            }
            lemma_dispatch_agree(a, true, toks1, 1, toks2, m, cfg);
            lemma_dispatch_cursor(a, true, toks1, 1, cfg);
            match (spec_dispatch(a, true, toks1, 1, cfg), spec_dispatch(a, true, toks2, m, cfg)) {
                (Step::Cont { cur: x1, cfg: g1 }, Step::Cont { cur: x2, .. }) => {
                    lemma_suffixes_agree_advance(toks1, 1, toks2, m, x1 - 1);
                    lemma_parse_from_agree(toks1, x1, toks2, x2, g1);
                    assert(spec_handle_each(t, k + 1, toks1, x1, g1) == (Step::Cont {
                        cur: x1,
                        cfg: g1,
                    }));
                },
                _ => {},
            }
        }
    }
}

/// The driver-level group-expansion law: a token stream that carries a
/// bundled short-flag token parses exactly as the stream that spells its
/// letters out as separate tokens, provided no letter before the last names
/// a value-consuming flag.
pub proof fn lemma_group_expansion_in_stream(t: Seq<char>, rest: Seq<Seq<char>>, cfg: ArgsView)
    requires
        is_flag_token(t),
        !is_long_token(t),
        forall|j: int| 1 <= j < t.len() - 1 ==> !is_value_flag_char(t[j]),
    ensures
        spec_parse_from(seq![t] + rest, 0, cfg) == spec_parse_from(expand_group(t) + rest, 0, cfg),
{
    let toks1 = seq![t] + rest;
    assert(toks1[0] == t);
    lemma_group_expansion(t, toks1, 1, cfg);
    lemma_chain_vs_driver(t, rest, 1, cfg);
}

/// Parsing an empty token list yields exactly the documented defaults with
/// an empty verb sequence.
pub proof fn lemma_empty_parse_defaults()
    ensures
        spec_parse(Seq::<Seq<char>>::empty()) == OutcomeView::Parsed(spec_default()),
{
}

} // verus!
