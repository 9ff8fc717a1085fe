use icon_pie::error::{Error, SyntaxError, ValidationError};
use icon_pie::parse::args;
use icon_pie::{Command, FitType, IconType, Output, ResamplingFilter, Size};

fn argv(words: &[&str]) -> Vec<String> {
    words.iter().map(|w| String::from(*w)).collect()
}

#[test]
fn two_sizes_one_entry() {
    // tokens: -e icon.png 16 32 -ico out.ico
    let r = args(&argv(&["-e", "icon.png", "16", "32", "-ico", "out.ico"]));
    match r {
        Ok(Command::Icon(plan, kind, out)) => {
            assert_eq!(kind, IconType::Ico);
            match out {
                Output::Path(p) => assert_eq!(p, "out.ico"),
                Output::Stdout => panic!("expected a file destination"),
            }
            assert_eq!(plan.entries.len(), 2);
            assert_eq!(plan.entries[0].size, Size { w: 16, h: 16 });
            assert_eq!(plan.entries[0].pos, 2);
            assert_eq!(plan.entries[0].path, "icon.png");
            assert_eq!(plan.entries[0].filter, ResamplingFilter::Nearest);
            assert_eq!(plan.entries[0].fit, FitType::Exact);
            assert_eq!(plan.entries[1].size, Size { w: 32, h: 32 });
            assert_eq!(plan.entries[1].pos, 3);
        },
        _ => panic!("expected an icon command"),
    }
}

#[test]
fn duplicate_size_across_entries() {
    // tokens: -e a.png 16 -e b.png 16 -ico out.ico
    let r = args(&argv(&["-e", "a.png", "16", "-e", "b.png", "16", "-ico", "out.ico"]));
    assert_eq!(
        r.unwrap_err(),
        Error::Validation(ValidationError::DuplicateSize(Size { w: 16, h: 16 }, 2, 5))
    );
}

#[test]
fn duplicate_size_within_one_entry() {
    let r = args(&argv(&["-e", "a.png", "16", "16", "-ico"]));
    assert_eq!(
        r.unwrap_err(),
        Error::Validation(ValidationError::DuplicateSize(Size { w: 16, h: 16 }, 2, 3))
    );
}

#[test]
fn empty_arguments_ask_for_help() {
    assert!(matches!(args(&vec![]), Ok(Command::Help)));
}

#[test]
fn help_flag() {
    assert!(matches!(args(&argv(&["-h"])), Ok(Command::Help)));
    assert!(matches!(args(&argv(&["--help"])), Ok(Command::Help)));
}

#[test]
fn version_flag() {
    assert!(matches!(args(&argv(&["-v"])), Ok(Command::Version)));
}

#[test]
fn help_with_trailing_token_is_refused() {
    assert_eq!(
        args(&argv(&["-h", "x"])).unwrap_err(),
        Error::Syntax(SyntaxError::UnexpectedToken(1))
    );
}

#[test]
fn executable_path_is_stripped() {
    assert!(matches!(args(&argv(&["./tool", "-h"])), Ok(Command::Help)));
}

#[test]
fn output_defaults_to_stdout() {
    let r = args(&argv(&["-e", "a.png", "16", "-png"]));
    match r {
        Ok(Command::Icon(_, IconType::PngSequence, Output::Stdout)) => {},
        _ => panic!("expected a png sequence to standard output"),
    }
}

#[test]
fn filter_selection_applies_to_the_entry() {
    let r = args(&argv(&["-e", "a.png", "16", "24", "-r", "linear", "-png"]));
    match r {
        Ok(Command::Icon(plan, _, _)) => {
            assert_eq!(plan.entries.len(), 2);
            assert!(plan.entries.iter().all(|e| e.filter == ResamplingFilter::Linear));
        },
        _ => panic!("expected an icon command"),
    }
}

#[test]
fn trailing_token_after_output_path() {
    assert_eq!(
        args(&argv(&["-e", "a.png", "16", "-ico", "o.ico", "extra"])).unwrap_err(),
        Error::Syntax(SyntaxError::UnexpectedToken(5))
    );
}

#[test]
fn entry_without_path_ends_the_stream() {
    assert_eq!(
        args(&argv(&["-e"])).unwrap_err(),
        Error::Syntax(SyntaxError::UnexpectedEnd)
    );
}

#[test]
fn entry_without_sizes_ends_the_stream() {
    assert_eq!(
        args(&argv(&["-e", "a.png"])).unwrap_err(),
        Error::Syntax(SyntaxError::UnexpectedEnd)
    );
}

#[test]
fn entry_with_zero_sizes_is_refused() {
    assert_eq!(
        args(&argv(&["-e", "a.png", "-ico", "o.ico"])).unwrap_err(),
        Error::Syntax(SyntaxError::UnexpectedToken(2))
    );
}

#[test]
fn resample_selector_without_filter_name() {
    assert_eq!(
        args(&argv(&["-e", "a.png", "16", "-r"])).unwrap_err(),
        Error::Syntax(SyntaxError::UnexpectedEnd)
    );
    assert_eq!(
        args(&argv(&["-e", "a.png", "16", "-r", "-ico"])).unwrap_err(),
        Error::Syntax(SyntaxError::UnexpectedToken(4))
    );
}

#[test]
fn entries_without_container_flag() {
    assert_eq!(
        args(&argv(&["-e", "a.png", "16"])).unwrap_err(),
        Error::Syntax(SyntaxError::MissingOutputFlag)
    );
}

#[test]
fn leading_non_flag_token() {
    assert_eq!(
        args(&argv(&["-e", "16", "-ico"])).unwrap_err(),
        Error::Syntax(SyntaxError::UnexpectedToken(1))
    );
}

#[test]
fn container_flag_with_no_entries() {
    assert_eq!(
        args(&argv(&["-ico", "out.ico"])).unwrap_err(),
        Error::Syntax(SyntaxError::UnexpectedToken(0))
    );
}

#[test]
fn icns_container_selection() {
    let r = args(&argv(&["-e", "a.png", "512", "-icns", "out.icns"]));
    match r {
        Ok(Command::Icon(plan, IconType::Icns, Output::Path(p))) => {
            assert_eq!(p, "out.icns");
            assert_eq!(plan.entries[0].size, Size { w: 512, h: 512 });
        },
        _ => panic!("expected an icns command"),
    }
}

#[test]
fn command_constructor_and_output_path() {
    let argv_ok = argv(&["-e", "a.png", "16", "-ico", "out.ico"]);
    match args(&argv_ok) {
        Ok(Command::Icon(plan, kind, out)) => {
            assert_eq!(plan.len(), 1);
            assert_eq!(Size::square(16), Size { w: 16, h: 16 });
            let cmd = Command::new(plan, kind, out);
            assert_eq!(cmd.output_path(), Some(&String::from("out.ico")));
        },
        _ => panic!("expected an icon command"),
    }
    assert_eq!(Command::Help.output_path(), None);
}

#[test]
fn size_pair_entry() {
    let r = args(&argv(&["-e", "a.png", "10x20", "-png", "o.zip"]));
    match r {
        Ok(Command::Icon(plan, IconType::PngSequence, _)) => {
            assert_eq!(plan.entries[0].size, Size { w: 10, h: 20 });
        },
        _ => panic!("expected an icon command"),
    }
}
