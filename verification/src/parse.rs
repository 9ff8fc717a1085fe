use vstd::prelude::*;
use crate::error::{Error, SyntaxError};
use crate::plan::{validate, validate_spec, views_of, Entry, EntryV};
use crate::token::{string_views, token_views, tokens_of, Flag, Token, TokenV};
use crate::{Command, CommandV, FitType, IconType, Output, OutputV, ResamplingFilter, Size};

verus! {

/// The syntactic result of parsing, before validation: the raw entry list
/// with the selected container kind and destination, or a bare request.
pub enum Parsed {
    Help,
    Version,
    Icon(Vec<Entry>, IconType, Output),
}

/// Mathematical image of a parse result.
pub enum ParsedV {
    Help,
    Version,
    Icon(Seq<EntryV>, IconType, OutputV),
}

impl View for Parsed {
    type V = ParsedV;

    open spec fn view(&self) -> ParsedV {
        match self {
            Parsed::Help => ParsedV::Help,
            Parsed::Version => ParsedV::Version,
            Parsed::Icon(entries, kind, out) => ParsedV::Icon(views_of(entries@), *kind, out@),
        }
    }
}

/// Consecutive size tokens from `i` on, each with its token position.
pub open spec fn entry_sizes(toks: Seq<TokenV>, i: int, acc: Seq<(Size, usize)>) -> (Seq<(Size, usize)>, int)
    decreases toks.len() - i,
{
    if 0 <= i < toks.len() && toks[i] matches TokenV::Size(_) {
        entry_sizes(toks, i + 1, acc.push((toks[i]->Size_0, i as usize)))
    } else {
        (acc, i)
    }
}

/// The entries written by one entry clause: one binding per size token,
/// sharing the clause's path and filter. The grammar has no fit selector,
/// so every binding asks for an exact fit.
pub open spec fn mk_entries(sizes: Seq<(Size, usize)>, path: Seq<char>, filter: ResamplingFilter) -> Seq<EntryV> {
    sizes.map_values(
        |sp: (Size, usize)| EntryV { size: sp.0, pos: sp.1, path: path, filter: filter, fit: FitType::Exact },
    )
}

/// One entry clause, starting at the entry flag at `i`: a path token, one
/// or more size tokens, then an optional resample selection. Returns the
/// new entries and the position after the clause.
pub open spec fn parse_entry(toks: Seq<TokenV>, i: int) -> Result<(Seq<EntryV>, int), SyntaxError> {
    if i + 1 >= toks.len() {
        Err(SyntaxError::UnexpectedEnd)
    } else if !(toks[i + 1] matches TokenV::Path(_)) {
        Err(SyntaxError::UnexpectedToken((i + 1) as usize))
    } else if i + 2 >= toks.len() {
        Err(SyntaxError::UnexpectedEnd)
    } else if !(toks[i + 2] matches TokenV::Size(_)) {
        Err(SyntaxError::UnexpectedToken((i + 2) as usize))
    } else {
        let path = toks[i + 1]->Path_0;
        let sj = entry_sizes(toks, i + 2, Seq::empty());
        if sj.1 < toks.len() && toks[sj.1] matches TokenV::Flag(Flag::Resample) {
            if sj.1 + 1 >= toks.len() {
                Err(SyntaxError::UnexpectedEnd)
            } else {
                match toks[sj.1 + 1] {
                    TokenV::Filter(f) => Ok((mk_entries(sj.0, path, f), sj.1 + 2)),
                    _ => Err(SyntaxError::UnexpectedToken((sj.1 + 1) as usize)),
                }
            }
        } else {
            Ok((mk_entries(sj.0, path, ResamplingFilter::Nearest), sj.1))
        }
    }
}

/// The tail after the container selector at `i`: an optional output path,
/// then the end of the stream. No path means standard output. A selector
/// with no preceding entry is out of grammar.
pub open spec fn parse_tail(toks: Seq<TokenV>, i: int, acc: Seq<EntryV>, kind: IconType) -> Result<ParsedV, SyntaxError> {
    if acc.len() == 0 {
        Err(SyntaxError::UnexpectedToken(i as usize))
    } else if i + 1 >= toks.len() {
        Ok(ParsedV::Icon(acc, kind, OutputV::Stdout))
    } else {
        match toks[i + 1] {
            TokenV::Path(p) => if i + 2 >= toks.len() {
                Ok(ParsedV::Icon(acc, kind, OutputV::Path(p)))
            } else {
                Err(SyntaxError::UnexpectedToken((i + 2) as usize))
            },
            _ => Err(SyntaxError::UnexpectedToken((i + 1) as usize)),
        }
    }
}

/// The collected sizes extend the accumulator and stop within the stream.
proof fn lemma_entry_sizes_bounds(toks: Seq<TokenV>, i: int, acc: Seq<(Size, usize)>)
    requires
        0 <= i <= toks.len(),
    ensures
        i <= entry_sizes(toks, i, acc).1 <= toks.len(),
    decreases toks.len() - i,
{
    if 0 <= i < toks.len() && toks[i] matches TokenV::Size(_) {
        lemma_entry_sizes_bounds(toks, i + 1, acc.push((toks[i]->Size_0, i as usize)));
    }
}

/// A parsed entry clause always advances the position.
proof fn lemma_parse_entry_bounds(toks: Seq<TokenV>, i: int)
    requires
        0 <= i,
    ensures
        parse_entry(toks, i) matches Ok(r) ==> i < r.1 <= toks.len(),
{
    if i + 2 < toks.len() {
        lemma_entry_sizes_bounds(toks, i + 2, Seq::empty());
    }
}

/// The whole grammar: entry clauses, then exactly one container selector
/// with its optional output path; `-h`/`-v` only as the sole content.
/// A stream that ends after complete entries misses the output flag; one
/// that starts with anything but a recognized flag is out of grammar.
pub open spec fn parse_cmd(toks: Seq<TokenV>, i: int, acc: Seq<EntryV>) -> Result<ParsedV, SyntaxError>
    decreases toks.len() - i,
        via parse_cmd_dec
{
    if i < 0 || i >= toks.len() {
        Err(SyntaxError::MissingOutputFlag)
    } else {
        match toks[i] {
            TokenV::Flag(Flag::Entry) => match parse_entry(toks, i) {
                Ok(r) => parse_cmd(toks, r.1, acc + r.0),
                Err(e) => Err(e),
            },
            TokenV::Flag(Flag::Ico) => parse_tail(toks, i, acc, IconType::Ico),
            TokenV::Flag(Flag::Icns) => parse_tail(toks, i, acc, IconType::Icns),
            TokenV::Flag(Flag::Png) => parse_tail(toks, i, acc, IconType::PngSequence),
            TokenV::Flag(Flag::Help) => if i + 1 >= toks.len() {
                Ok(ParsedV::Help)
            } else {
                Err(SyntaxError::UnexpectedToken((i + 1) as usize))
            },
            TokenV::Flag(Flag::Version) => if i + 1 >= toks.len() {
                Ok(ParsedV::Version)
            } else {
                Err(SyntaxError::UnexpectedToken((i + 1) as usize))
            },
            _ => Err(SyntaxError::UnexpectedToken(i as usize)),
        }
    }
}

#[via_fn]
proof fn parse_cmd_dec(toks: Seq<TokenV>, i: int, acc: Seq<EntryV>) {
    if 0 <= i < toks.len() {
        lemma_parse_entry_bounds(toks, i);
    }
}

/// What one argument list means: empty arguments ask for help; otherwise
/// the tokens are parsed and the entries validated against the container.
pub open spec fn args_spec(argv: Seq<Seq<char>>) -> Result<CommandV, Error> {
    if argv.len() == 0 {
        Ok(CommandV::Help)
    } else {
        let toks = tokens_of(argv);
        match parse_cmd(toks, 0, Seq::empty()) {
            Ok(ParsedV::Help) => Ok(CommandV::Help),
            Ok(ParsedV::Version) => Ok(CommandV::Version),
            Ok(ParsedV::Icon(entries, kind, out)) => match validate_spec(entries, kind) {
                Ok(plan) => Ok(CommandV::Icon(plan, kind, out)),
                Err(e) => Err(e),
            },
            Err(e) => Err(Error::Syntax(e)),
        }
    }
}

/// Consecutive size tokens from `i` on.
fn collect_sizes(toks: &Vec<Token>, i: usize, acc: Vec<(Size, usize)>) -> (r: (Vec<(Size, usize)>, usize))
    requires
        i <= toks@.len(),
    ensures
        r.0@ == entry_sizes(token_views(toks@), i as int, acc@).0,
        r.1 == entry_sizes(token_views(toks@), i as int, acc@).1,
        r.1 <= toks@.len(),
    decreases toks@.len() - i,
{
    proof {
        assert(token_views(toks@).len() == toks@.len());
    }
    if i < toks.len() {
        match &toks[i] {
            Token::Size(z) => {
                proof {
                    assert(token_views(toks@)[i as int] == toks@[i as int]@);
                }
                let mut acc2 = acc;
                acc2.push((*z, i));
                collect_sizes(toks, i + 1, acc2)
            },
            _ => {
                proof {
                    assert(token_views(toks@)[i as int] == toks@[i as int]@);
                }
                (acc, i)
            },
        }
    } else {
        (acc, i)
    }
}

/// The entries of one clause, executable form.
fn build_entries(sizes: &Vec<(Size, usize)>, path: &String, filter: ResamplingFilter) -> (r: Vec<Entry>)
    ensures
        views_of(r@) == mk_entries(sizes@, path@, filter),
{
    let mut out: Vec<Entry> = Vec::new();
    proof {
        assert(views_of(out@) =~= mk_entries(sizes@.take(0), path@, filter));
    }
    let mut k: usize = 0;
    while k < sizes.len()
        invariant
            k <= sizes@.len(),
            views_of(out@) == mk_entries(sizes@.take(k as int), path@, filter),
        decreases sizes@.len() - k,
    {
        let ghost pre = out@;
        let e = Entry {
            size: sizes[k].0,
            pos: sizes[k].1,
            path: path.clone(),
            filter: filter,
            fit: FitType::Exact,
        };
        proof {
            assert(e@ == (EntryV {
                size: sizes@[k as int].0,
                pos: sizes@[k as int].1,
                path: path@,
                filter: filter,
                fit: FitType::Exact,
            }));
        }
        out.push(e);
        proof {
            assert(views_of(out@) =~= views_of(pre).push(e@));
            assert(sizes@.take(k as int + 1) =~= sizes@.take(k as int).push(sizes@[k as int]));
            assert(mk_entries(sizes@.take(k as int + 1), path@, filter) =~= mk_entries(
                sizes@.take(k as int),
                path@,
                filter,
            ).push(e@));
        }
        k += 1;
    }
    proof {
        assert(sizes@.take(sizes@.len() as int) =~= sizes@);
    }
    out
}

/// One entry clause, executable form.
fn parse_entry_exec(toks: &Vec<Token>, i: usize) -> (r: Result<(Vec<Entry>, usize), SyntaxError>)
    requires
        i < toks@.len(),
    ensures
        match parse_entry(token_views(toks@), i as int) {
            Ok(p) => r matches Ok(q) && views_of(q.0@) == p.0 && q.1 == p.1 && q.1 <= toks@.len(),
            Err(e) => r matches Err(e2) && e2 == e,
        },
{
    let ghost tv = token_views(toks@);
    let n = toks.len();
    proof {
        assert(tv.len() == toks@.len());
        if i as int + 1 < toks@.len() {
            assert(tv[i as int + 1] == toks@[i as int + 1]@);
        }
        if i as int + 2 < toks@.len() {
            assert(tv[i as int + 2] == toks@[i as int + 2]@);
        }
    }
    if i + 1 >= n {
        return Err(SyntaxError::UnexpectedEnd);
    }
    let path = match &toks[i + 1] {
        Token::Path(p) => p.clone(),
        _ => {
            return Err(SyntaxError::UnexpectedToken(i + 1));
        },
    };
    if i + 2 >= n {
        return Err(SyntaxError::UnexpectedEnd);
    }
    match &toks[i + 2] {
        Token::Size(_) => {},
        _ => {
            return Err(SyntaxError::UnexpectedToken(i + 2));
        },
    }
    let sj = collect_sizes(toks, i + 2, Vec::new());
    let sizes = sj.0;
    let j = sj.1;
    proof {
        assert(entry_sizes(tv, i as int + 2, Seq::empty()).0 == sizes@);
        if (j as int) < tv.len() {
            assert(tv[j as int] == toks@[j as int]@);
        }
        if (j as int) + 1 < tv.len() {
            assert(tv[j as int + 1] == toks@[j as int + 1]@);
        }
    }
    if j < n && matches!(&toks[j], Token::Flag(Flag::Resample)) {
        if j + 1 >= n {
            return Err(SyntaxError::UnexpectedEnd);
        }
        match &toks[j + 1] {
            Token::Filter(f) => {
                let out = build_entries(&sizes, &path, *f);
                Ok((out, j + 2))
            },
            _ => Err(SyntaxError::UnexpectedToken(j + 1)),
        }
    } else {
        let out = build_entries(&sizes, &path, ResamplingFilter::Nearest);
        Ok((out, j))
    }
}

/// The tail after the container selector, executable form.
fn parse_tail_exec(toks: &Vec<Token>, i: usize, acc: Vec<Entry>, kind: IconType) -> (r: Result<Parsed, SyntaxError>)
    requires
        i < toks@.len(),
    ensures
        match parse_tail(token_views(toks@), i as int, views_of(acc@), kind) {
            Ok(c) => r matches Ok(p) && p@ == c,
            Err(e) => r matches Err(e2) && e2 == e,
        },
{
    let ghost tv = token_views(toks@);
    let n = toks.len();
    proof {
        assert(tv.len() == toks@.len());
        if i as int + 1 < toks@.len() {
            assert(tv[i as int + 1] == toks@[i as int + 1]@);
        }
    }
    if acc.len() == 0 {
        return Err(SyntaxError::UnexpectedToken(i));
    }
    if i + 1 >= n {
        return Ok(Parsed::Icon(acc, kind, Output::Stdout));
    }
    match &toks[i + 1] {
        Token::Path(p) => {
            if i + 2 >= n {
                Ok(Parsed::Icon(acc, kind, Output::Path(p.clone())))
            } else {
                Err(SyntaxError::UnexpectedToken(i + 2))
            }
        },
        _ => Err(SyntaxError::UnexpectedToken(i + 1)),
    }
}

/// The grammar loop, executable form: one pass, one token of lookahead.
fn parse_cmd_exec(toks: &Vec<Token>, i: usize, acc: Vec<Entry>) -> (r: Result<Parsed, SyntaxError>)
    requires
        i <= toks@.len(),
    ensures
        match parse_cmd(token_views(toks@), i as int, views_of(acc@)) {
            Ok(c) => r matches Ok(p) && p@ == c,
            Err(e) => r matches Err(e2) && e2 == e,
        },
    decreases toks@.len() - i,
{
    let ghost tv = token_views(toks@);
    proof {
        assert(tv.len() == toks@.len());
        if (i as int) < toks@.len() {
            assert(tv[i as int] == toks@[i as int]@);
        }
    }
    if i >= toks.len() {
        return Err(SyntaxError::MissingOutputFlag);
    }
    match &toks[i] {
        Token::Flag(Flag::Entry) => {
            match parse_entry_exec(toks, i) {
                Ok((es, j)) => {
                    proof {
                        lemma_parse_entry_bounds(tv, i as int);
                    }
                    let ghost esv = views_of(es@);
                    let mut acc2 = acc;
                    let mut es2 = es;
                    acc2.append(&mut es2);
                    proof {
                        assert(views_of(acc2@) =~= views_of(acc@) + esv);
                    }
                    parse_cmd_exec(toks, j, acc2)
                },
                Err(e) => Err(e),
            }
        },
        Token::Flag(Flag::Ico) => parse_tail_exec(toks, i, acc, IconType::Ico),
        Token::Flag(Flag::Icns) => parse_tail_exec(toks, i, acc, IconType::Icns),
        Token::Flag(Flag::Png) => parse_tail_exec(toks, i, acc, IconType::PngSequence),
        Token::Flag(Flag::Help) => {
            if i + 1 >= toks.len() {
                Ok(Parsed::Help)
            } else {
                Err(SyntaxError::UnexpectedToken(i + 1))
            }
        },
        Token::Flag(Flag::Version) => {
            if i + 1 >= toks.len() {
                Ok(Parsed::Version)
            } else {
                Err(SyntaxError::UnexpectedToken(i + 1))
            }
        },
        _ => Err(SyntaxError::UnexpectedToken(i)),
    }
}

/// Turns one argument list into a command: tokenize, parse, validate.
/// Empty arguments ask for help. The result is exactly `args_spec` of the
/// arguments, and an icon command always carries a well-formed plan.
pub fn args(argv: &Vec<String>) -> (r: Result<Command, Error>)
    ensures
        match args_spec(string_views(argv@)) {
            Ok(c) => r matches Ok(cmd) && cmd@ == c,
            Err(e) => r matches Err(e2) && e2 == e,
        },
        match r {
            Ok(cmd) => match cmd@ {
                CommandV::Icon(p, kind, out) => crate::plan::plan_wf(p),
                _ => true,
            },
            Err(e) => true,
        },
{
    if argv.len() == 0 {
        return Ok(Command::Help);
    }
    let toks = crate::token::parse(argv);
    let empty_acc: Vec<Entry> = Vec::new();
    proof {
        assert(token_views(toks@) == tokens_of(string_views(argv@)));
        assert(views_of(empty_acc@) =~= Seq::<EntryV>::empty());
    }
    match parse_cmd_exec(&toks, 0, empty_acc) {
        Ok(Parsed::Help) => Ok(Command::Help),
        Ok(Parsed::Version) => Ok(Command::Version),
        Ok(Parsed::Icon(entries, kind, out)) => {
            match validate(&entries, kind) {
                Ok(plan) => Ok(Command::Icon(plan, kind, out)),
                Err(e) => Err(e),
            }
        },
        Err(e) => Err(Error::Syntax(e)),
    }
}


} // verus!
