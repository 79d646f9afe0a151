use lib::{next_value, parse_args, parse_resolution, parse_transfer, parse_usize, Command, Transfer};

fn strings(args: &[&str]) -> Vec<String> {
    args.iter().map(|s| s.to_string()).collect()
}

#[test]
fn parses_resolution_aliases() {
    assert_eq!(parse_resolution("fhd").unwrap(), (1920, 1080));
    assert_eq!(parse_resolution("4k").unwrap(), (3840, 2160));
    assert_eq!(parse_resolution("8k").unwrap(), (7680, 4320));
}

#[test]
fn parses_explicit_resolution() {
    assert_eq!(parse_resolution("5760x3240").unwrap(), (5760, 3240));
}

#[test]
fn resolution_errors() {
    assert_eq!(parse_resolution("1080p").unwrap(), (1920, 1080));
    assert_eq!(parse_resolution("uhd").unwrap(), (3840, 2160));
    assert_eq!(parse_resolution("7680x4320").unwrap(), (7680, 4320));
    assert_eq!(parse_resolution("+640x+480").unwrap(), (640, 480));
    assert_eq!(parse_resolution("1920").unwrap_err(), "invalid --resolution value: 1920");
    assert_eq!(parse_resolution("ax1080").unwrap_err(), "invalid width in --resolution: ax1080");
    assert_eq!(parse_resolution("1920x").unwrap_err(), "invalid height in --resolution: 1920x");
    assert_eq!(
        parse_resolution("1920x1080x2").unwrap_err(),
        "invalid height in --resolution: 1920x1080x2"
    );
    assert_eq!(
        parse_resolution("0x1080").unwrap_err(),
        "--resolution dimensions must be greater than zero"
    );
}

#[test]
fn usize_literals() {
    assert_eq!(parse_usize("0"), Some(0));
    assert_eq!(parse_usize("+12"), Some(12));
    assert_eq!(parse_usize("+"), None);
    assert_eq!(parse_usize("-1"), None);
    assert_eq!(parse_usize(""), None);
    assert_eq!(parse_usize("1 "), None);
    assert_eq!(parse_usize("18446744073709551615"), Some(usize::MAX));
    assert_eq!(parse_usize("18446744073709551616"), None);
    assert_eq!(parse_usize("99999999999999999999x"), None);
    for text in ["7", "+0042", "1234567890", "x", "+-3", "٣"] {
        assert_eq!(parse_usize(text), text.parse::<usize>().ok());
    }
}

#[test]
fn transfer_names() {
    assert_eq!(parse_transfer("pq").unwrap(), Transfer::Pq);
    assert_eq!(parse_transfer("hlg").unwrap(), Transfer::Hlg);
    assert_eq!(parse_transfer("HLG").unwrap_err(), "invalid --transfer value: HLG");
}

#[test]
fn next_value_reads_or_names_the_option() {
    let args = strings(&["--output", "a.y4m"]);
    assert_eq!(next_value(&args, 1, "--output").unwrap(), "a.y4m");
    assert_eq!(next_value(&args, 2, "--output").unwrap_err(), "missing value after --output");
}

#[test]
fn full_command_line() {
    let args = strings(&["--transfer", "hlg", "--resolution", "4k", "--frames", "3", "--output", "x.y4m"]);
    match parse_args(&args).unwrap() {
        Command::Run(a) => {
            assert_eq!(a.options.transfer, Transfer::Hlg);
            assert_eq!((a.options.width, a.options.height, a.options.frames), (3840, 2160, 3));
            assert_eq!(a.output, "x.y4m");
        }
        Command::Help => panic!("expected a run"),
    }
}

#[test]
fn defaults_and_last_setting_wins() {
    let args = strings(&["--output", "a", "--transfer", "pq", "--output", "b", "--transfer", "hlg"]);
    match parse_args(&args).unwrap() {
        Command::Run(a) => {
            assert_eq!(a.options.transfer, Transfer::Hlg);
            assert_eq!((a.options.width, a.options.height, a.options.frames), (1920, 1080, 1));
            assert_eq!(a.output, "b");
        }
        Command::Help => panic!("expected a run"),
    }
}

#[test]
fn command_line_errors() {
    let err = |args: &[&str]| match parse_args(&strings(args)) {
        Err(e) => e,
        Ok(_) => panic!("expected an error"),
    };
    assert_eq!(err(&[]), "missing --transfer pq|hlg");
    assert_eq!(err(&["--transfer", "pq"]), "missing --output out.y4m");
    assert_eq!(err(&["--output", "o"]), "missing --transfer pq|hlg");
    assert_eq!(err(&["--transfer"]), "missing value after --transfer");
    assert_eq!(err(&["--transfer", "sdr"]), "invalid --transfer value: sdr");
    assert_eq!(err(&["--frames", "0"]), "--frames must be greater than zero");
    assert_eq!(err(&["--frames", "two"]), "invalid --frames value: two");
    assert_eq!(err(&["--resolution"]), "missing value after --resolution");
    assert_eq!(err(&["--bogus", "-h"]), "unknown argument: --bogus");
    assert!(matches!(parse_args(&strings(&["--transfer", "pq", "-h", "--bogus"])), Ok(Command::Help)));
    assert!(matches!(parse_args(&strings(&["--help"])), Ok(Command::Help)));
}

#[test]
fn resolution_text_round_trips() {
    for (w, h) in [(1, 1), (1920, 1080), (3840, 2160), (7680, 4320), (5760, 3240), (10, 9), (usize::MAX, 7)] {
        assert_eq!(parse_resolution(&format!("{}x{}", w, h)).unwrap(), (w, h));
    }
}
