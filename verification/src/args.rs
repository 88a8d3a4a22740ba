use vstd::prelude::*;

use crate::arg::{Arg, ArgView};
use crate::errors::ParseError;
use crate::level::{parse_level, Level};
use crate::model::{
    expand_group, is_flag_token, is_long_token, spec_default, spec_dispatch, spec_group,
    spec_handle, spec_parse, spec_parse_from, tok_views, ArgsView, OutcomeView, Step,
};
use crate::strutil::{dash_token, starts_with_dash, starts_with_two_dashes, str_eq};

verus! {

/// The configuration the parser builds: the file to compile, where to write,
/// the diagnostic switches, and the verbs in encounter order.
#[derive(Debug, PartialEq)]
pub struct Args {
    pub file: Arg<String>,
    pub output: Arg<String>,
    pub debug: Arg<bool>,
    pub code_context: Arg<bool>,
    pub level: Arg<Level>,
    pub verbs: Vec<String>,
}

impl View for Args {
    type V = ArgsView;

    open spec fn view(&self) -> ArgsView {
        ArgsView {
            file: self.file@,
            output: self.output@,
            debug: self.debug@,
            code_context: self.code_context@,
            level: self.level@,
            verbs: self.verbs@.map_values(|v: String| v@),
        }
    }
}

/// Every way a parse can end: a complete configuration, one of the
/// immediate actions, or a terminal error.  The caller interprets the
/// non-`Parsed` variants by printing and exiting; this type never
/// resumes parsing.
#[derive(Debug, PartialEq)]
pub enum Outcome {
    /// The scan ran through every token.
    Parsed(Args),
    /// `-h`: print the usage line and stop successfully.
    ShowUsage,
    /// `--help`: print usage and the full help text and stop successfully.
    ShowHelp,
    /// `-V` or `--version`: print the version and stop successfully.
    ShowVersion,
    /// The reserved bare word: print the banner and stop with a failure code.
    ShowBanner,
    /// A parse error: report it once and stop with a failure code.
    Failed(ParseError),
}

impl View for Outcome {
    type V = OutcomeView;

    open spec fn view(&self) -> OutcomeView {
        match self {
            Outcome::Parsed(a) => OutcomeView::Parsed(a@),
            Outcome::ShowUsage => OutcomeView::ShowUsage,
            Outcome::ShowHelp => OutcomeView::ShowHelp,
            Outcome::ShowVersion => OutcomeView::ShowVersion,
            Outcome::ShowBanner => OutcomeView::ShowBanner,
            Outcome::Failed(e) => OutcomeView::Failed(e@),
        }
    }
}

impl Args {
    /// The configuration before any token is read: every option at its
    /// documented default, no verbs.
    pub fn default() -> (r: Self)
        ensures
            r@ == spec_default(),
    {
        let r = Args {
            file: Arg::new("main.shd".to_owned()),
            output: Arg::new("main.asm".to_owned()),
            debug: Arg::new(false),
            code_context: Arg::new(true),
            level: Arg::new(Level::Warn),
            verbs: Vec::new(),
        };
        proof {
            assert(r@.verbs =~= spec_default().verbs);
            assert(r@ =~= spec_default());
        }
        r
    }

    /// One expanded token against the dispatch table.  `None` means the scan
    /// goes on with the cursor and configuration as the step left them; an
    /// outcome means it stops.
    pub fn dispatch(
        &mut self,
        a: &str,
        is_end: bool,
        toks: &Vec<String>,
        cursor: &mut usize,
    ) -> (r: Option<Outcome>)
        requires
            *old(cursor) <= toks@.len(),
        ensures
            r is None ==> spec_dispatch(
                a@,
                is_end,
                tok_views(toks@),
                *old(cursor) as int,
                old(self)@,
            ) == (Step::Cont { cur: *final(cursor) as int, cfg: final(self)@ }),
            r is None ==> *old(cursor) <= *final(cursor) <= toks@.len(),
            (match r {
                Option::Some(o) => spec_dispatch(
                    a@,
                    is_end,
                    tok_views(toks@),
                    *old(cursor) as int,
                    old(self)@,
                ) == (Step::Stop { out: o@ }),
                Option::None => true,
            }),
    {
        let ghost toks_v = tok_views(toks@);
        if str_eq(a, "-h") {
            return Some(Outcome::ShowUsage);
        }
        if str_eq(a, "--help") {
            return Some(Outcome::ShowHelp);
        }
        if str_eq(a, "-V") || str_eq(a, "--version") {
            return Some(Outcome::ShowVersion);
        }
        if str_eq(a, "-d") || str_eq(a, "--debug") {
            return match self.debug.try_mut(a.to_owned(), true) {
                Ok(_) => {
                    proof {
                        assert(self@ =~= (ArgsView {
                            debug: ArgView { value: true, set: true },
                            ..old(self)@
                        }));
                    }
                    None
                },
                Err(e) => Some(Outcome::Failed(e)),
            };
        }
        if str_eq(a, "-f") || str_eq(a, "--file") {
            if !is_end {
                return Some(Outcome::Failed(ParseError::GroupPosition(a.to_owned())));
            }
            if *cursor >= toks.len() {
                return Some(Outcome::Failed(ParseError::MissingValue(a.to_owned())));
            }
            let v = toks[*cursor].clone();
            proof {
                assert(v@ == toks_v[*cursor as int]);
            }
            *cursor = *cursor + 1;
            return match self.file.try_mut(a.to_owned(), v) {
                Ok(_) => {
                    proof {
                        assert(self@ =~= (ArgsView {
                            file: ArgView { value: toks_v[*old(cursor) as int], set: true },
                            ..old(self)@
                        }));
                    }
                    None
                },
                Err(e) => Some(Outcome::Failed(e)),
            };
        }
        if str_eq(a, "-o") || str_eq(a, "--output") {
            if !is_end {
                return Some(Outcome::Failed(ParseError::GroupPosition(a.to_owned())));
            }
            if *cursor >= toks.len() {
                return Some(Outcome::Failed(ParseError::MissingValue(a.to_owned())));
            }
            let v = toks[*cursor].clone();
            proof {
                assert(v@ == toks_v[*cursor as int]);
            }
            *cursor = *cursor + 1;
            return match self.output.try_mut(a.to_owned(), v) {
                Ok(_) => {
                    proof {
                        assert(self@ =~= (ArgsView {
                            output: ArgView { value: toks_v[*old(cursor) as int], set: true },
                            ..old(self)@
                        }));
                    }
                    None
                },
                Err(e) => Some(Outcome::Failed(e)),
            };
        }
        if str_eq(a, "-l") || str_eq(a, "--error-level") {
            if !is_end {
                return Some(Outcome::Failed(ParseError::GroupPosition(a.to_owned())));
            }
            if *cursor >= toks.len() {
                return Some(Outcome::Failed(ParseError::MissingValue(a.to_owned())));
            }
            let v = toks[*cursor].clone();
            proof {
                assert(v@ == toks_v[*cursor as int]);
            }
            *cursor = *cursor + 1;
            let lv = match parse_level(v.as_str()) {
                Some(lv) => lv,
                None => {
                    return Some(Outcome::Failed(ParseError::InvalidValue(v)));
                },
            };
            return match self.level.try_mut(a.to_owned(), lv) {
                Ok(_) => {
                    proof {
                        assert(self@ =~= (ArgsView {
                            level: ArgView { value: lv, set: true },
                            ..old(self)@
                        }));
                    }
                    None
                },
                Err(e) => Some(Outcome::Failed(e)),
            };
        }
        if str_eq(a, "--no-context") {
            return match self.code_context.try_mut(a.to_owned(), false) {
                Ok(_) => {
                    proof {
                        assert(self@ =~= (ArgsView {
                            code_context: ArgView { value: false, set: true },
                            ..old(self)@
                        }));
                    }
                    None
                },
                Err(e) => Some(Outcome::Failed(e)),
            };
        }
        Some(Outcome::Failed(ParseError::UnrecognizedArgument(a.to_owned())))
    }

    /// One raw dash token: a long-form token is dispatched whole; any other
    /// is split into one synthetic `-<char>` token per character, each
    /// dispatched in order, with only the last counting as the end of the
    /// group.  `None` means the scan goes on; an outcome stops it.
    pub fn handle_arg(&mut self, argument: &str, toks: &Vec<String>, cursor: &mut usize) -> (r:
        Option<Outcome>)
        requires
            *old(cursor) <= toks@.len(),
            is_flag_token(argument@),
        ensures
            r is None ==> spec_handle(
                argument@,
                tok_views(toks@),
                *old(cursor) as int,
                old(self)@,
            ) == (Step::Cont { cur: *final(cursor) as int, cfg: final(self)@ }),
            r is None ==> *old(cursor) <= *final(cursor) <= toks@.len(),
            (match r {
                Option::Some(o) => spec_handle(
                    argument@,
                    tok_views(toks@),
                    *old(cursor) as int,
                    old(self)@,
                ) == (Step::Stop { out: o@ }),
                Option::None => true,
            }),
    {
        let ghost toks_v = tok_views(toks@);
        let ghost group = expand_group(argument@);
        if starts_with_two_dashes(argument) {
            proof {
                assert(group =~= seq![argument@]);
            }
            let res = self.dispatch(argument, true, toks, cursor);
            proof {
                match spec_dispatch(argument@, true, toks_v, *old(cursor) as int, old(self)@) {
                    Step::Cont { cur: c2, cfg: g2 } => {
                        assert(spec_group(group, 1, toks_v, c2, g2) == (Step::Cont {
                            cur: c2,
                            cfg: g2,
                        }));
                    },
                    Step::Stop { .. } => {},
                }
            }
            res
        } else {
            let n = argument.unicode_len();
            proof {
                assert(group.len() == n - 1);
            }
            let mut k: usize = 1;
            while k < n
                invariant
                    is_flag_token(argument@),
                    !is_long_token(argument@),
                    n == argument@.len(),
                    group == expand_group(argument@),
                    group.len() == n - 1,
                    1 <= k <= n,
                    toks_v == tok_views(toks@),
                    *cursor <= toks@.len(),
                    *old(cursor) <= *cursor,
                    spec_group(group, 0, toks_v, *old(cursor) as int, old(self)@) == spec_group(
                        group,
                        k - 1,
                        toks_v,
                        *cursor as int,
                        self@,
                    ),
                decreases n - k,
            {
                let c = argument.get_char(k);
                let is_end = k == n - 1;
                let syn = dash_token(c);
                proof {
                    assert(group[k - 1] == seq!['-', argument@[k as int]]);
                    assert(syn@ == group[k - 1]);
                }
                let ghost cur_before = *cursor as int;
                let ghost cfg_before = self@;
                let res = self.dispatch(syn.as_str(), is_end, toks, cursor);
                match res {
                    Some(o) => {
                        proof {
                            assert(spec_group(group, k - 1, toks_v, cur_before, cfg_before)
                                == (Step::Stop { out: o@ }));
                        }
                        return Some(o);
                    },
                    None => {
                        proof {
                            assert(spec_group(group, k - 1, toks_v, cur_before, cfg_before)
                                == spec_group(group, k as int, toks_v, *cursor as int, self@));
                        }
                    },
                }
                k = k + 1;
            }
            proof {
                assert(spec_group(group, n - 1, toks_v, *cursor as int, self@) == (Step::Cont {
                    cur: *cursor as int,
                    cfg: self@,
                }));
            }
            None
        }
    }

    /// The top-level parse: a single pass over the raw tokens in encounter
    /// order.  Dash tokens go through group expansion and dispatch, the
    /// reserved bare word stops with the banner, and every other token is
    /// appended to the verbs.  The result is exactly what the token
    /// sequence means: `spec_parse` pins it down for every input.
    pub fn parse(args: Vec<String>) -> (r: Outcome)
        ensures
            r@ == spec_parse(tok_views(args@)),
    {
        let ghost toks_v = tok_views(args@);
        let mut out = Args::default();
        let mut cursor: usize = 0;
        let n = args.len();
        while cursor < n
            invariant
                n == args@.len(),
                cursor <= n,
                toks_v == tok_views(args@),
                spec_parse_from(toks_v, cursor as int, out@) == spec_parse(toks_v),
            decreases n - cursor,
        {
            let ghost cur0 = cursor as int;
            let ghost cfg0 = out@;
            let arg = &args[cursor];
            proof {
                assert(arg@ == toks_v[cur0]);
            }
            cursor = cursor + 1;
            if starts_with_dash(arg.as_str()) {
                match out.handle_arg(arg.as_str(), &args, &mut cursor) {
                    Some(o) => {
                        return o;
                    },
                    None => {},
                }
            } else if str_eq(arg.as_str(), "shark") {
                return Outcome::ShowBanner;
            } else {
                out.verbs.push(arg.clone());
                proof {
                    assert(out@.verbs =~= cfg0.verbs.push(toks_v[cur0]));
                    assert(out@ =~= (ArgsView { verbs: cfg0.verbs.push(toks_v[cur0]), ..cfg0 }));
                }
            }
        }
        // Drain any tokens the scan left behind.  The scan above consumes
        // every token through the same cursor the value-consuming flags
        // advance, so the cursor already stands at the end and this pass
        // appends nothing.
        while cursor < n
            invariant
                n == args@.len(),
                cursor >= n,
                toks_v == tok_views(args@),
                spec_parse_from(toks_v, cursor as int, out@) == spec_parse(toks_v),
            decreases n - cursor,
        {
            out.verbs.push(args[cursor].clone());
            cursor = cursor + 1;
        }
        Outcome::Parsed(out)
    }
}

} // verus!
