use icon_pie::token::{parse, to_arg_string, token_from_str, Flag, Token};
use icon_pie::{ResamplingFilter, Size};

#[test]
fn flags_classify() {
    assert_eq!(token_from_str("-e"), Token::Flag(Flag::Entry));
    assert_eq!(token_from_str("-ico"), Token::Flag(Flag::Ico));
    assert_eq!(token_from_str("-icns"), Token::Flag(Flag::Icns));
    assert_eq!(token_from_str("-png"), Token::Flag(Flag::Png));
    assert_eq!(token_from_str("-r"), Token::Flag(Flag::Resample));
    assert_eq!(token_from_str("-h"), Token::Flag(Flag::Help));
    assert_eq!(token_from_str("--help"), Token::Flag(Flag::Help));
    assert_eq!(token_from_str("-v"), Token::Flag(Flag::Version));
    assert_eq!(token_from_str("--version"), Token::Flag(Flag::Version));
}

#[test]
fn filters_classify() {
    assert_eq!(token_from_str("nearest"), Token::Filter(ResamplingFilter::Nearest));
    assert_eq!(token_from_str("linear"), Token::Filter(ResamplingFilter::Linear));
    assert_eq!(token_from_str("cubic"), Token::Filter(ResamplingFilter::Cubic));
}

#[test]
fn numerals_classify_as_square_sizes() {
    assert_eq!(token_from_str("16"), Token::Size(Size { w: 16, h: 16 }));
    assert_eq!(token_from_str("0"), Token::Size(Size { w: 0, h: 0 }));
    assert_eq!(token_from_str("4294967295"), Token::Size(Size { w: 4294967295, h: 4294967295 }));
}

#[test]
fn pairs_classify_as_sizes() {
    assert_eq!(token_from_str("16x32"), Token::Size(Size { w: 16, h: 32 }));
    assert_eq!(token_from_str("1x1"), Token::Size(Size { w: 1, h: 1 }));
}

#[test]
fn everything_else_is_a_path() {
    assert_eq!(token_from_str("icon.png"), Token::Path(String::from("icon.png")));
    // a numeral too large for u32 is not a size
    assert_eq!(token_from_str("4294967296"), Token::Path(String::from("4294967296")));
    // a pair with an oversized component is not a size
    assert_eq!(token_from_str("4294967296x2"), Token::Path(String::from("4294967296x2")));
    // incomplete pairs are paths
    assert_eq!(token_from_str("16x"), Token::Path(String::from("16x")));
    assert_eq!(token_from_str("x16"), Token::Path(String::from("x16")));
    assert_eq!(token_from_str("1x2x3"), Token::Path(String::from("1x2x3")));
    assert_eq!(token_from_str(""), Token::Path(String::from("")));
    assert_eq!(token_from_str("-x"), Token::Path(String::from("-x")));
}

#[test]
fn tokenizer_is_total() {
    // every string yields exactly one token, whatever it holds
    let inputs = ["", " ", "-e", "--", "16", "16x16", "no such file", "\u{1F600}"];
    for s in inputs {
        let _ = token_from_str(s);
    }
}

#[test]
fn round_trip_flags_sizes_filters() {
    let tokens = vec![
        Token::Flag(Flag::Entry),
        Token::Flag(Flag::Ico),
        Token::Flag(Flag::Icns),
        Token::Flag(Flag::Png),
        Token::Flag(Flag::Resample),
        Token::Flag(Flag::Help),
        Token::Flag(Flag::Version),
        Token::Filter(ResamplingFilter::Nearest),
        Token::Filter(ResamplingFilter::Linear),
        Token::Filter(ResamplingFilter::Cubic),
        Token::Size(Size { w: 16, h: 16 }),
        Token::Size(Size { w: 16, h: 32 }),
        Token::Size(Size { w: 0, h: 7 }),
        Token::Path(String::from("some/dir/image.svg")),
    ];
    for t in &tokens {
        let s = to_arg_string(t);
        assert_eq!(&token_from_str(s.as_str()), t);
    }
}

#[test]
fn leading_path_is_stripped() {
    let toks = parse(&vec![String::from("/usr/bin/tool"), String::from("-e")]);
    assert_eq!(toks, vec![Token::Flag(Flag::Entry)]);
}

#[test]
fn leading_flag_is_kept() {
    let toks = parse(&vec![String::from("-e"), String::from("img.png")]);
    assert_eq!(
        toks,
        vec![Token::Flag(Flag::Entry), Token::Path(String::from("img.png"))]
    );
}
