use vstd::prelude::*;
use vstd::string::*;
use crate::{ResamplingFilter, Size};

verus! {

/// One classified argument string. Classification never fails: a string
/// that is no flag, filter name or size is a path.
#[derive(Clone, Debug)]
pub enum Token {
    Flag(Flag),
    Path(String),
    Size(Size),
    Filter(ResamplingFilter),
}

/// The recognized flag spellings.
#[derive(Clone, Copy, Debug, PartialEq, Eq, Structural)]
pub enum Flag {
    Entry,
    Ico,
    Icns,
    Png,
    Help,
    Version,
    Resample,
}

/// Mathematical image of a `Token`: a path is seen as its characters.
pub enum TokenV {
    Flag(Flag),
    Path(Seq<char>),
    Size(Size),
    Filter(ResamplingFilter),
}

impl View for Token {
    type V = TokenV;

    open spec fn view(&self) -> TokenV {
        match self {
            Token::Flag(f) => TokenV::Flag(*f),
            Token::Path(p) => TokenV::Path(p@),
            Token::Size(s) => TokenV::Size(*s),
            Token::Filter(f) => TokenV::Filter(*f),
        }
    }
}

/// Decimal digit test for a single character.
pub open spec fn is_digit(c: char) -> bool {
    48 <= c as u32 && c as u32 <= 57
}

/// Numeric value of one decimal digit.
pub open spec fn digit_val(c: char) -> int {
    c as u32 - 48
}

pub open spec fn all_digits(s: Seq<char>) -> bool {
    forall|i: int| 0 <= i < s.len() ==> is_digit(#[trigger] s[i])
}

/// Value of a digit string, most significant digit first.
pub open spec fn digits_value(s: Seq<char>) -> int
    decreases s.len(),
{
    if s.len() == 0 {
        0
    } else {
        digits_value(s.drop_last()) * 10 + digit_val(s.last())
    }
}

/// A string that the tokenizer reads as a single unsigned size component:
/// nonempty, digits only, and small enough for `u32`.
pub open spec fn is_u32_numeral(s: Seq<char>) -> bool {
    s.len() >= 1 && all_digits(s) && digits_value(s) <= u32::MAX
}

/// Index of the first `'x'` at or after `i`, or the length when none follows.
pub open spec fn first_x_from(s: Seq<char>, i: int) -> int
    decreases s.len() - i,
{
    if i < 0 || i >= s.len() {
        s.len() as int
    } else if s[i] == 'x' {
        i
    } else {
        first_x_from(s, i + 1)
    }
}

/// A string of the shape `<u32 numeral>x<u32 numeral>`.
pub open spec fn is_wxh_numeral(s: Seq<char>) -> bool {
    let k = first_x_from(s, 0);
    &&& 1 <= k
    &&& k + 2 <= s.len()
    &&& is_u32_numeral(s.subrange(0, k))
    &&& is_u32_numeral(s.subrange(k + 1, s.len() as int))
}

pub open spec fn wxh_width(s: Seq<char>) -> int {
    digits_value(s.subrange(0, first_x_from(s, 0)))
}

pub open spec fn wxh_height(s: Seq<char>) -> int {
    digits_value(s.subrange(first_x_from(s, 0) + 1, s.len() as int))
}

/// How one argument string is classified. Total: every string maps to
/// exactly one token, and any string that fits no earlier rule is a path.
pub open spec fn classify(s: Seq<char>) -> TokenV {
    if s == "-e"@ {
        TokenV::Flag(Flag::Entry)
    } else if s == "-ico"@ {
        TokenV::Flag(Flag::Ico)
    } else if s == "-icns"@ {
        TokenV::Flag(Flag::Icns)
    } else if s == "-png"@ {
        TokenV::Flag(Flag::Png)
    } else if s == "-r"@ {
        TokenV::Flag(Flag::Resample)
    } else if s == "-h"@ || s == "--help"@ {
        TokenV::Flag(Flag::Help)
    } else if s == "-v"@ || s == "--version"@ {
        TokenV::Flag(Flag::Version)
    } else if s == "nearest"@ {
        TokenV::Filter(ResamplingFilter::Nearest)
    } else if s == "linear"@ {
        TokenV::Filter(ResamplingFilter::Linear)
    } else if s == "cubic"@ {
        TokenV::Filter(ResamplingFilter::Cubic)
    } else if is_u32_numeral(s) {
        TokenV::Size(Size { w: digits_value(s) as u32, h: digits_value(s) as u32 })
    } else if is_wxh_numeral(s) {
        TokenV::Size(Size { w: wxh_width(s) as u32, h: wxh_height(s) as u32 })
    } else {
        TokenV::Path(s)
    }
}

/// The characters of each argument string.
pub open spec fn string_views(args: Seq<String>) -> Seq<Seq<char>> {
    args.map_values(|s: String| s@)
}

/// The views of each token in a token list.
pub open spec fn token_views(toks: Seq<Token>) -> Seq<TokenV> {
    toks.map_values(|t: Token| t@)
}

/// Each argument string classified, in order.
pub open spec fn classify_all(argv: Seq<Seq<char>>) -> Seq<TokenV> {
    argv.map_values(|s: Seq<char>| classify(s))
}

/// The token stream of an argument list: each string classified in order,
/// with a leading path dropped, since the zeroth process argument may be
/// the executable's own invocation path.
pub open spec fn tokens_of(argv: Seq<Seq<char>>) -> Seq<TokenV> {
    let raw = classify_all(argv);
    if raw.len() > 0 && raw[0] matches TokenV::Path(_) {
        raw.drop_first()
    } else {
        raw
    }
}

/// Character-wise string equality.
pub fn str_eq(a: &str, b: &str) -> (r: bool)
    ensures
        r == (a@ == b@),
{
    let na = a.unicode_len();
    let nb = b.unicode_len();
    if na != nb {
        return false;
    }
    let mut i: usize = 0;
    while i < na
        invariant
            i <= na,
            na == a@.len(),
            na == b@.len(),
            forall|j: int| 0 <= j < i ==> a@[j] == b@[j],
        decreases na - i,
    {
        if a.get_char(i) != b.get_char(i) {
            return false;
        }
        i += 1;
    }
    proof {
        assert(a@ =~= b@);
    }
    true
}

/// Reads a decimal numeral, rejecting strings with other characters and
/// values that do not fit in `u32`.
pub fn parse_u32(s: &str) -> (r: Option<u32>)
    ensures
        r matches Some(v) ==> is_u32_numeral(s@) && v == digits_value(s@),
        r is None ==> !is_u32_numeral(s@),
{
    let n = s.unicode_len();
    if n == 0 {
        return None;
    }
    let mut acc: u64 = 0;
    let mut i: usize = 0;
    while i < n
        invariant
            i <= n,
            n == s@.len(),
            all_digits(s@.take(i as int)),
            acc <= 0x1_0000_0000u64,
            if digits_value(s@.take(i as int)) <= u32::MAX {
                acc == digits_value(s@.take(i as int))
            } else {
                acc == 0x1_0000_0000u64
            },
        decreases n - i,
    {
        let c = s.get_char(i);
        let cv = c as u32;
        if cv < 48 || cv > 57 {
            proof {
                assert(!is_digit(s@[i as int]));
            }
            return None;
        }
        let d = (cv - 48) as u64;
        let next = if acc * 10 + d > 0xFFFF_FFFFu64 {
            0x1_0000_0000u64
        } else {
            acc * 10 + d
        };
        proof {
            assert(s@.take(i as int + 1).drop_last() =~= s@.take(i as int));
            assert(s@.take(i as int + 1).last() == s@[i as int]);
        }
        acc = next;
        i += 1;
    }
    proof {
        assert(s@.take(n as int) =~= s@);
    }
    if acc <= 0xFFFF_FFFFu64 {
        Some(acc as u32)
    } else {
        None
    }
}

/// Position of the first `'x'`, if any.
fn find_x(s: &str) -> (r: Option<usize>)
    ensures
        r matches Some(k) ==> k < s@.len() && first_x_from(s@, 0) == k,
        r is None ==> first_x_from(s@, 0) == s@.len(),
{
    let n = s.unicode_len();
    let mut i: usize = 0;
    while i < n
        invariant
            i <= n,
            n == s@.len(),
            first_x_from(s@, 0) == first_x_from(s@, i as int),
        decreases n - i,
    {
        let c = s.get_char(i);
        if c == 'x' {
            proof {
                assert(first_x_from(s@, i as int) == i);
            }
            return Some(i);
        }
        proof {
            assert(first_x_from(s@, i as int) == first_x_from(s@, i as int + 1));
        }
        i += 1;
    }
    None
}

/// Reads a `<u32>x<u32>` size pair.
pub fn parse_wxh(s: &str) -> (r: Option<(u32, u32)>)
    ensures
        r matches Some(p) ==> is_wxh_numeral(s@) && p.0 == wxh_width(s@) && p.1 == wxh_height(s@),
        r is None ==> !is_wxh_numeral(s@),
{
    let n = s.unicode_len();
    match find_x(s) {
        None => None,
        Some(k) => {
            if k == 0 {
                return None;
            }
            if k + 1 >= n {
                return None;
            }
            let ws = s.substring_char(0, k);
            let hs = s.substring_char(k + 1, n);
            match (parse_u32(ws), parse_u32(hs)) {
                (Some(w), Some(h)) => Some((w, h)),
                _ => None,
            }
        },
    }
}

/// Classifies one argument string, exactly as `classify` says.
pub fn token_from_str(s: &str) -> (t: Token)
    ensures
        t@ == classify(s@),
{
    if str_eq(s, "-e") {
        Token::Flag(Flag::Entry)
    } else if str_eq(s, "-ico") {
        Token::Flag(Flag::Ico)
    } else if str_eq(s, "-icns") {
        Token::Flag(Flag::Icns)
    } else if str_eq(s, "-png") {
        Token::Flag(Flag::Png)
    } else if str_eq(s, "-r") {
        Token::Flag(Flag::Resample)
    } else if str_eq(s, "-h") || str_eq(s, "--help") {
        Token::Flag(Flag::Help)
    } else if str_eq(s, "-v") || str_eq(s, "--version") {
        Token::Flag(Flag::Version)
    } else if str_eq(s, "nearest") {
        Token::Filter(ResamplingFilter::Nearest)
    } else if str_eq(s, "linear") {
        Token::Filter(ResamplingFilter::Linear)
    } else if str_eq(s, "cubic") {
        Token::Filter(ResamplingFilter::Cubic)
    } else if let Some(v) = parse_u32(s) {
        Token::Size(Size { w: v, h: v })
    } else if let Some((w, h)) = parse_wxh(s) {
        Token::Size(Size { w, h })
    } else {
        Token::Path(s.to_owned())
    }
}

/// Classifies a whole argument list, dropping a leading path-shaped
/// argument, which is taken for the executable's own invocation path.
pub fn parse(args: &Vec<String>) -> (toks: Vec<Token>)
    ensures
        token_views(toks@) == tokens_of(string_views(args@)),
{
    let mut out: Vec<Token> = Vec::new();
    let mut i: usize = 0;
    while i < args.len()
        invariant
            i <= args@.len(),
            out@.len() == i,
            forall|j: int| 0 <= j < i ==> #[trigger] out@[j]@ == classify(args@[j]@),
        decreases args@.len() - i,
    {
        let t = token_from_str(args[i].as_str());
        out.push(t);
        i += 1;
    }
    let ghost argv = string_views(args@);
    let ghost raw = classify_all(argv);
    proof {
        assert(raw.len() == args@.len());
        assert forall|j: int| 0 <= j < raw.len() implies raw[j] == classify(args@[j]@) by {
            assert(argv[j] == args@[j]@);
        }
    }
    if out.len() > 0 && matches!(out[0], Token::Path(_)) {
        let ghost pre = out@;
        proof {
            assert(pre[0]@ == classify(args@[0]@));
            assert(pre[0]@ == raw[0]);
            assert(raw[0] matches TokenV::Path(_));
        }
        out.remove(0);
        proof {
            assert(token_views(out@) =~= raw.drop_first());
            assert(tokens_of(argv) == raw.drop_first());
        }
    } else {
        proof {
            if out@.len() > 0 {
                assert(out@[0]@ == classify(args@[0]@));
                assert(out@[0]@ == raw[0]);
                assert(!(raw[0] matches TokenV::Path(_)));
            }
            assert(token_views(out@) =~= raw);
            assert(tokens_of(argv) == raw);
        }
    }
    out
}

impl PartialEq for Token {
    fn eq(&self, other: &Token) -> (r: bool) {
        match (self, other) {
            (Token::Flag(a), Token::Flag(b)) => a == b,
            (Token::Path(a), Token::Path(b)) => str_eq(a.as_str(), b.as_str()),
            (Token::Size(a), Token::Size(b)) => a == b,
            (Token::Filter(a), Token::Filter(b)) => a == b,
            _ => false,
        }
    }
}

impl vstd::std_specs::cmp::PartialEqSpecImpl for Token {
    open spec fn obeys_eq_spec() -> bool {
        true
    }

    open spec fn eq_spec(&self, other: &Token) -> bool {
        self@ == other@
    }
}

/// Decimal numeral of `n`, most significant digit first, no leading zeros.
pub open spec fn dec_rep(n: nat) -> Seq<char>
    decreases n,
{
    if n < 10 {
        seq![((48 + n) as char)]
    } else {
        dec_rep(n / 10).push(((48 + (n % 10)) as char))
    }
}

/// The numeral of `n` is a nonempty digit string whose value is `n`.
pub proof fn lemma_dec_rep(n: nat)
    ensures
        dec_rep(n).len() >= 1,
        all_digits(dec_rep(n)),
        digits_value(dec_rep(n)) == n,
    decreases n,
{
    if n < 10 {
        let s = dec_rep(n);
        assert(((48 + n) as char) as u32 == 48 + n);
        assert(s.drop_last() =~= Seq::<char>::empty());
        assert(digits_value(Seq::<char>::empty()) == 0);
        assert(digits_value(s) == digit_val(s.last()));
    } else {
        lemma_dec_rep(n / 10);
        vstd::arithmetic::div_mod::lemma_fundamental_div_mod(n as int, 10);
        assert(((48 + (n % 10)) as char) as u32 == 48 + (n % 10));
        let p = dec_rep(n / 10);
        let c = ((48 + (n % 10)) as char);
        let s = p.push(c);
        assert(s.drop_last() =~= p);
        assert(s.last() == c);
        assert forall|i: int| 0 <= i < s.len() implies is_digit(#[trigger] s[i]) by {
            if i < p.len() {
                assert(s[i] == p[i]);
            }
        }
        assert(digits_value(s) == (n / 10) * 10 + (n % 10));
    }
}

/// The argument spelling of a token: what the tokenizer would have read.
pub open spec fn render(t: TokenV) -> Seq<char> {
    match t {
        TokenV::Flag(Flag::Entry) => "-e"@,
        TokenV::Flag(Flag::Ico) => "-ico"@,
        TokenV::Flag(Flag::Icns) => "-icns"@,
        TokenV::Flag(Flag::Png) => "-png"@,
        TokenV::Flag(Flag::Resample) => "-r"@,
        TokenV::Flag(Flag::Help) => "-h"@,
        TokenV::Flag(Flag::Version) => "-v"@,
        TokenV::Filter(ResamplingFilter::Nearest) => "nearest"@,
        TokenV::Filter(ResamplingFilter::Linear) => "linear"@,
        TokenV::Filter(ResamplingFilter::Cubic) => "cubic"@,
        TokenV::Size(s) => if s.w == s.h {
            dec_rep(s.w as nat)
        } else {
            dec_rep(s.w as nat) + seq!['x'] + dec_rep(s.h as nat)
        },
        TokenV::Path(p) => p,
    }
}

/// A token whose spelling reads back as itself. Flags, filters and sizes
/// always do; a path does when its text is not itself a flag, a filter
/// name or a numeral, which holds of every path the tokenizer produces.
pub open spec fn token_wf(t: TokenV) -> bool {
    match t {
        TokenV::Path(p) => classify(p) == TokenV::Path(p),
        _ => true,
    }
}

/// One decimal digit as a string.
fn digit_string(d: u32) -> (r: String)
    requires
        d < 10,
    ensures
        r@ =~= seq![((48 + d) as char)],
{
    let r = if d == 0 {
        String::from_str("0")
    } else if d == 1 {
        String::from_str("1")
    } else if d == 2 {
        String::from_str("2")
    } else if d == 3 {
        String::from_str("3")
    } else if d == 4 {
        String::from_str("4")
    } else if d == 5 {
        String::from_str("5")
    } else if d == 6 {
        String::from_str("6")
    } else if d == 7 {
        String::from_str("7")
    } else if d == 8 {
        String::from_str("8")
    } else {
        String::from_str("9")
    };
    proof {
        reveal_strlit("0");
        reveal_strlit("1");
        reveal_strlit("2");
        reveal_strlit("3");
        reveal_strlit("4");
        reveal_strlit("5");
        reveal_strlit("6");
        reveal_strlit("7");
        reveal_strlit("8");
        reveal_strlit("9");
    }
    r
}

/// Decimal spelling of a `u32`.
pub fn u32_to_string(n: u32) -> (r: String)
    ensures
        r@ == dec_rep(n as nat),
    decreases n,
{
    if n < 10 {
        digit_string(n)
    } else {
        let q = u32_to_string(n / 10);
        let r = q.concat(digit_string(n % 10).as_str());
        proof {
            assert(r@ =~= dec_rep((n / 10) as nat).push(((48 + (n % 10) as nat) as char)));
        }
        r
    }
}

/// The argument spelling of a token, executable form.
pub fn to_arg_string(t: &Token) -> (r: String)
    ensures
        r@ == render(t@),
{
    match t {
        Token::Flag(Flag::Entry) => String::from_str("-e"),
        Token::Flag(Flag::Ico) => String::from_str("-ico"),
        Token::Flag(Flag::Icns) => String::from_str("-icns"),
        Token::Flag(Flag::Png) => String::from_str("-png"),
        Token::Flag(Flag::Resample) => String::from_str("-r"),
        Token::Flag(Flag::Help) => String::from_str("-h"),
        Token::Flag(Flag::Version) => String::from_str("-v"),
        Token::Filter(ResamplingFilter::Nearest) => String::from_str("nearest"),
        Token::Filter(ResamplingFilter::Linear) => String::from_str("linear"),
        Token::Filter(ResamplingFilter::Cubic) => String::from_str("cubic"),
        Token::Size(s) => {
            if s.w == s.h {
                u32_to_string(s.w)
            } else {
                let a = u32_to_string(s.w);
                let b = u32_to_string(s.h);
                let r = a.concat("x").concat(b.as_str());
                proof {
                    reveal_strlit("x");
                    assert(r@ =~= dec_rep(s.w as nat) + seq!['x'] + dec_rep(s.h as nat));
                }
                r
            }
        },
        Token::Path(p) => p.clone(),
    }
}

/// A digit string is no flag or filter spelling: those all start with a
/// character that is not a digit.
proof fn lemma_digits_not_literal(s: Seq<char>)
    requires
        s.len() >= 1,
        all_digits(s),
    ensures
        s != "-e"@,
        s != "-ico"@,
        s != "-icns"@,
        s != "-png"@,
        s != "-r"@,
        s != "-h"@,
        s != "--help"@,
        s != "-v"@,
        s != "--version"@,
        s != "nearest"@,
        s != "linear"@,
        s != "cubic"@,
{
    reveal_strlit("-e");
    reveal_strlit("-ico");
    reveal_strlit("-icns");
    reveal_strlit("-png");
    reveal_strlit("-r");
    reveal_strlit("-h");
    reveal_strlit("--help");
    reveal_strlit("-v");
    reveal_strlit("--version");
    reveal_strlit("nearest");
    reveal_strlit("linear");
    reveal_strlit("cubic");
    assert(is_digit(s[0]));
}

/// `first_x_from` finds exactly the first `'x'`.
proof fn lemma_first_x_is(s: Seq<char>, i: int, k: int)
    requires
        0 <= i <= k < s.len(),
        s[k] == 'x',
        forall|j: int| i <= j < k ==> s[j] != 'x',
    ensures
        first_x_from(s, i) == k,
    decreases k - i,
{
    if i < k {
        lemma_first_x_is(s, i + 1, k);
    }
}

/// Every size spelled by `render` reads back as the same size token.
proof fn lemma_size_round_trip(z: Size)
    ensures
        classify(render(TokenV::Size(z))) == TokenV::Size(z),
{
    let w = z.w as nat;
    let h = z.h as nat;
    lemma_dec_rep(w);
    lemma_dec_rep(h);
    if z.w == z.h {
        let s = dec_rep(w);
        lemma_digits_not_literal(s);
        assert(is_u32_numeral(s));
        assert(classify(s) == TokenV::Size(Size { w: z.w, h: z.w }));
    } else {
        let a = dec_rep(w);
        let b = dec_rep(h);
        let s = a + seq!['x'] + b;
        let k = a.len() as int;
        assert(s[k] == 'x');
        assert forall|j: int| 0 <= j < k implies s[j] != 'x' by {
            assert(s[j] == a[j]);
            assert(is_digit(a[j]));
        }
        assert(s.len() >= 1);
        assert(s[0] == a[0]);
        assert(is_digit(s[0]));
        assert(!all_digits(s)) by {
            assert(!is_digit(s[k]));
        }
        lemma_first_x_is(s, 0, k);
        assert(s.subrange(0, k) =~= a);
        assert(s.subrange(k + 1, s.len() as int) =~= b);
        assert(is_wxh_numeral(s));
        assert(s != "-e"@ && s != "-ico"@ && s != "-icns"@ && s != "-png"@ && s != "-r"@
            && s != "-h"@ && s != "--help"@ && s != "-v"@ && s != "--version"@
            && s != "nearest"@ && s != "linear"@ && s != "cubic"@) by {
            reveal_strlit("-e");
            reveal_strlit("-ico");
            reveal_strlit("-icns");
            reveal_strlit("-png");
            reveal_strlit("-r");
            reveal_strlit("-h");
            reveal_strlit("--help");
            reveal_strlit("-v");
            reveal_strlit("--version");
            reveal_strlit("nearest");
            reveal_strlit("linear");
            reveal_strlit("cubic");
        }
        assert(classify(s) == TokenV::Size(Size { w: wxh_width(s) as u32, h: wxh_height(s) as u32 }));
        assert(wxh_width(s) == z.w);
        assert(wxh_height(s) == z.h);
    }
}

/// Tokenization round trip: spelling a well-formed token and classifying
/// the spelling yields the token back. Together with `classify` being a
/// total function, this is the tokenizer's round-trip law.
pub proof fn lemma_token_round_trip(t: TokenV)
    requires
        token_wf(t),
    ensures
        classify(render(t)) == t,
{
    match t {
        TokenV::Size(z) => {
            lemma_size_round_trip(z);
        },
        TokenV::Flag(f) => {
            lemma_flag_filter_round_trip_cases(t);
        },
        TokenV::Filter(f) => {
            lemma_flag_filter_round_trip_cases(t);
        },
        TokenV::Path(p) => {
        },
    }
}

proof fn lemma_flag_filter_round_trip_cases(t: TokenV)
    requires
        t matches TokenV::Flag(_) || t matches TokenV::Filter(_),
    ensures
        classify(render(t)) == t,
{
    reveal_strlit("-e");
    reveal_strlit("-ico");
    reveal_strlit("-icns");
    reveal_strlit("-png");
    reveal_strlit("-r");
    reveal_strlit("-h");
    reveal_strlit("--help");
    reveal_strlit("-v");
    reveal_strlit("--version");
    reveal_strlit("nearest");
    reveal_strlit("linear");
    reveal_strlit("cubic");
    assert("-e"@.len() == 2);
    assert("-ico"@.len() == 4);
    assert("-icns"@.len() == 5);
    assert("-png"@.len() == 4);
    assert("-r"@.len() == 2);
    assert("-h"@.len() == 2);
    assert("--help"@.len() == 6);
    assert("-v"@.len() == 2);
    assert("--version"@.len() == 9);
    assert("nearest"@.len() == 7);
    assert("linear"@.len() == 6);
    assert("cubic"@.len() == 5);
    assert("-e"@[1] == 'e');
    assert("-ico"@[1] == 'i');
    assert("-icns"@[0] == '-');
    assert("-png"@[1] == 'p');
    assert("-r"@[1] == 'r');
    assert("-h"@[1] == 'h');
    assert("--help"@[0] == '-');
    assert("-v"@[1] == 'v');
    assert("linear"@[0] == 'l');
    assert("cubic"@[0] == 'c');
    match t {
        TokenV::Flag(f) => {
            match f {
                Flag::Entry => {
                    assert(classify("-e"@) == TokenV::Flag(Flag::Entry));
                },
                Flag::Ico => {
                    assert("-ico"@ != "-e"@);
                    assert(classify("-ico"@) == TokenV::Flag(Flag::Ico));
                },
                Flag::Icns => {
                    assert("-icns"@ != "-e"@ && "-icns"@ != "-ico"@);
                    assert(classify("-icns"@) == TokenV::Flag(Flag::Icns));
                },
                Flag::Png => {
                    assert("-png"@ != "-e"@ && "-png"@ != "-icns"@);
                    assert("-png"@ != "-ico"@) by {
                        assert("-png"@[1] != "-ico"@[1]);
                    }
                    assert(classify("-png"@) == TokenV::Flag(Flag::Png));
                },
                Flag::Resample => {
                    assert("-r"@ != "-ico"@ && "-r"@ != "-icns"@ && "-r"@ != "-png"@);
                    assert("-r"@ != "-e"@) by {
                        assert("-r"@[1] != "-e"@[1]);
                    }
                    assert(classify("-r"@) == TokenV::Flag(Flag::Resample));
                },
                Flag::Help => {
                    assert("-h"@ != "-ico"@ && "-h"@ != "-icns"@ && "-h"@ != "-png"@);
                    assert("-h"@ != "-e"@) by {
                        assert("-h"@[1] != "-e"@[1]);
                    }
                    assert("-h"@ != "-r"@) by {
                        assert("-h"@[1] != "-r"@[1]);
                    }
                    assert(classify("-h"@) == TokenV::Flag(Flag::Help));
                },
                Flag::Version => {
                    assert("-v"@ != "-ico"@ && "-v"@ != "-icns"@ && "-v"@ != "-png"@
                        && "-v"@ != "--help"@);
                    assert("-v"@ != "-e"@) by {
                        assert("-v"@[1] != "-e"@[1]);
                    }
                    assert("-v"@ != "-r"@) by {
                        assert("-v"@[1] != "-r"@[1]);
                    }
                    assert("-v"@ != "-h"@) by {
                        assert("-v"@[1] != "-h"@[1]);
                    }
                    assert(classify("-v"@) == TokenV::Flag(Flag::Version));
                },
            }
        },
        TokenV::Filter(f) => {
            match f {
                ResamplingFilter::Nearest => {
                    assert("nearest"@ != "-e"@ && "nearest"@ != "-ico"@ && "nearest"@ != "-icns"@
                        && "nearest"@ != "-png"@ && "nearest"@ != "-r"@ && "nearest"@ != "-h"@
                        && "nearest"@ != "--help"@ && "nearest"@ != "-v"@
                        && "nearest"@ != "--version"@);
                    assert(classify("nearest"@) == TokenV::Filter(ResamplingFilter::Nearest));
                },
                ResamplingFilter::Linear => {
                    assert("linear"@ != "-e"@ && "linear"@ != "-ico"@ && "linear"@ != "-icns"@
                        && "linear"@ != "-png"@ && "linear"@ != "-r"@ && "linear"@ != "-h"@
                        && "linear"@ != "-v"@ && "linear"@ != "--version"@
                        && "linear"@ != "nearest"@);
                    assert("linear"@ != "--help"@) by {
                        assert("linear"@[0] != "--help"@[0]);
                    }
                    assert(classify("linear"@) == TokenV::Filter(ResamplingFilter::Linear));
                },
                ResamplingFilter::Cubic => {
                    assert("cubic"@ != "-e"@ && "cubic"@ != "-ico"@ && "cubic"@ != "-png"@
                        && "cubic"@ != "-r"@ && "cubic"@ != "-h"@ && "cubic"@ != "--help"@
                        && "cubic"@ != "-v"@ && "cubic"@ != "--version"@
                        && "cubic"@ != "nearest"@ && "cubic"@ != "linear"@);
                    assert("cubic"@ != "-icns"@) by {
                        assert("cubic"@[0] != "-icns"@[0]);
                    }
                    assert(classify("cubic"@) == TokenV::Filter(ResamplingFilter::Cubic));
                },
            }
        },
        TokenV::Path(_) => {
        },
        TokenV::Size(_) => {
        },
    }
}

/// The spelling of each token in a list.
pub open spec fn renders_of(toks: Seq<TokenV>) -> Seq<Seq<char>> {
    toks.map_values(|t: TokenV| render(t))
}

/// Round trip of a whole token list: spelling every well-formed token and
/// tokenizing the spellings reproduces the same tokens. A leading path is
/// left out, since the stream tokenizer takes a path-shaped first argument
/// for the executable's own invocation path and drops it again.
pub proof fn lemma_token_list_round_trip(toks: Seq<TokenV>)
    requires
        forall|i: int| 0 <= i < toks.len() ==> token_wf(#[trigger] toks[i]),
        toks.len() > 0 ==> !(toks[0] matches TokenV::Path(_)),
    ensures
        tokens_of(renders_of(toks)) == toks,
{
    let argv = renders_of(toks);
    let raw = classify_all(argv);
    assert forall|i: int| 0 <= i < toks.len() implies raw[i] == toks[i] by {
        assert(argv[i] == render(toks[i]));
        lemma_token_round_trip(toks[i]);
    }
    assert(raw =~= toks);
}

} // verus!
