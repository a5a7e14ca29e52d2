use rapidraw_cli::args::{
    complete, default_quality, flag_of, lacks_value, parse_args, scan, Args, Flag, Invocation, Scan,
    USAGE,
};
use rapidraw_cli::course::{course, ending, Course};

fn line(words: &[&str]) -> Vec<String> {
    let mut argv = vec!["rapidraw-cli".to_string()];
    argv.extend(words.iter().map(|word| word.to_string()));
    argv
}

fn run(words: &[&str]) -> Args {
    let argv = line(words);
    assert!(!lacks_value(&argv));
    match parse_args(&argv) {
        Ok(Invocation::Run(args)) => args,
        Ok(Invocation::Help) => panic!("usage asked for"),
        Err(reason) => panic!("refused: {reason}"),
    }
}

fn refusal(words: &[&str]) -> String {
    let argv = line(words);
    assert!(!lacks_value(&argv));
    match parse_args(&argv) {
        Ok(_) => panic!("not refused"),
        Err(reason) => reason,
    }
}

fn asks_for_usage(words: &[&str]) -> bool {
    let argv = line(words);
    !lacks_value(&argv) && matches!(parse_args(&argv), Ok(Invocation::Help))
}

#[test]
fn quality_is_ninety_unless_asked() {
    assert_eq!(default_quality(), 90);
    let args = run(&["-i", "a", "-p", "b", "-o", "c"]);
    assert_eq!(args.quality, 90);
    assert_eq!(args.resize, None);
    assert!(!args.server);
}

#[test]
fn long_flags_are_read() {
    let args = run(&[
        "--input", "in.nef", "--preset", "p.rrdata", "--output", "out.jpg", "--quality", "75",
        "--resize", "2048",
    ]);
    assert_eq!(args.input, "in.nef");
    assert_eq!(args.preset, "p.rrdata");
    assert_eq!(args.output, "out.jpg");
    assert_eq!(args.quality, 75);
    assert_eq!(args.resize, Some(2048));
    assert!(!args.server);
}

#[test]
fn short_flags_are_read() {
    let args = run(&["-r", "7", "-q", "1", "-o", "o", "-p", "p", "-i", "i"]);
    assert_eq!(args.input, "i");
    assert_eq!(args.preset, "p");
    assert_eq!(args.output, "o");
    assert_eq!(args.quality, 1);
    assert_eq!(args.resize, Some(7));
}

#[test]
fn spellings_stand_for_flags() {
    let pairs = [
        ("--input", "-i", Flag::Input),
        ("--preset", "-p", Flag::Preset),
        ("--output", "-o", Flag::Output),
        ("--quality", "-q", Flag::Quality),
        ("--resize", "-r", Flag::Resize),
        ("--server", "-s", Flag::Server),
        ("--help", "-h", Flag::Help),
    ];
    for (long, short, flag) in pairs {
        assert_eq!(flag_of(long), Some(flag));
        assert_eq!(flag_of(short), Some(flag));
        assert!(USAGE.contains(long));
        assert!(USAGE.contains(short));
    }
    assert_eq!(flag_of("--Input"), None);
    assert_eq!(flag_of("input"), None);
    assert_eq!(flag_of(""), None);
}

#[test]
fn later_value_counts() {
    let args = run(&["-i", "a", "-p", "b", "-o", "c", "-i", "d", "-q", "5", "-q", "6"]);
    assert_eq!(args.input, "d");
    assert_eq!(args.quality, 6);
}

#[test]
fn flags_can_be_values() {
    let args = run(&["-i", "--server", "-p", "-h", "-o", "-o"]);
    assert_eq!(args.input, "--server");
    assert_eq!(args.preset, "-h");
    assert_eq!(args.output, "-o");
    assert!(!args.server);
}

#[test]
fn missing_paths_are_named_in_order() {
    assert_eq!(refusal(&[]), "--input is required");
    assert_eq!(refusal(&["-p", "p", "-o", "o"]), "--input is required");
    assert_eq!(refusal(&["-i", "i"]), "--preset is required");
    assert_eq!(refusal(&["-i", "i", "-o", "o"]), "--preset is required");
    assert_eq!(refusal(&["-i", "i", "-p", "p"]), "--output is required");
}

#[test]
fn empty_command_line_lacks_a_path() {
    let argv: Vec<String> = vec![];
    assert!(!lacks_value(&argv));
    assert!(matches!(parse_args(&argv), Err(reason) if reason == "--input is required"));
}

#[test]
fn empty_path_is_a_path() {
    let args = run(&["-i", "", "-p", "", "-o", ""]);
    assert_eq!(args.input, "");
}

#[test]
fn server_needs_no_paths() {
    let args = run(&["--server"]);
    assert!(args.server);
    assert_eq!(args.input, "");
    assert_eq!(args.quality, 90);
    let args = run(&["-i", "x", "-s", "-q", "3", "-r", "4"]);
    assert!(args.server);
    assert_eq!(args.input, "");
    assert_eq!(args.preset, "");
    assert_eq!(args.output, "");
    assert_eq!(args.quality, 3);
    assert_eq!(args.resize, Some(4));
}

#[test]
fn usage_is_shown_on_request() {
    assert!(asks_for_usage(&["--help"]));
    assert!(asks_for_usage(&["-h"]));
    assert!(asks_for_usage(&["-i", "a", "-h", "--nonsense"]));
    assert!(asks_for_usage(&["-s", "-h", "-q"]));
    assert!(!asks_for_usage(&["-s"]));
}

#[test]
fn unknown_words_are_named() {
    assert_eq!(refusal(&["--nonsense"]), "Unknown argument: --nonsense");
    assert_eq!(refusal(&["-i", "a", "b", "-h"]), "Unknown argument: b");
    assert_eq!(refusal(&[""]), "Unknown argument: ");
}

#[test]
fn quality_is_a_small_number() {
    for bad in ["", "+", "-1", "256", "90 ", "9.5", "x", "++1", "1000000000000000000000", "0", "101", "255"] {
        assert_eq!(refusal(&["-q", bad]), "Invalid --quality (1–100)");
    }
    for (good, value) in [("1", 1), ("99", 99), ("100", 100), ("+7", 7), ("007", 7)] {
        assert_eq!(run(&["-s", "-q", good]).quality, value);
    }
}

#[test]
fn quality_outside_its_range_is_refused() {
    for bad in ["0", "101"] {
        let words = ["-i", "a.jpg", "-p", "p.rrdata", "-o", "o.jpg", "-q", bad];
        assert_eq!(refusal(&words), "Invalid --quality (1–100)");
    }
}

#[test]
fn resize_is_a_number_of_pixels() {
    for bad in ["", "-5", "4294967296", "1e3", "12px"] {
        assert_eq!(refusal(&["-r", bad]), "Invalid --resize (pixels)");
    }
    assert_eq!(run(&["-s", "-r", "4294967295"]).resize, Some(4294967295));
    assert_eq!(run(&["-s", "-r", "0"]).resize, Some(0));
}

#[test]
fn first_refusal_counts() {
    assert_eq!(refusal(&["-q", "x", "-r", "y"]), "Invalid --quality (1–100)");
    assert_eq!(refusal(&["-r", "y", "-h"]), "Invalid --resize (pixels)");
}

#[test]
fn last_flag_may_lack_its_value() {
    for flag in ["-i", "--preset", "-o", "--quality", "-r"] {
        let argv = line(&["-s", flag]);
        assert!(lacks_value(&argv));
        assert!(matches!(scan(&argv), Scan::NoValue));
    }
    assert!(!lacks_value(&line(&["-s"])));
    assert!(!lacks_value(&line(&["oops", "-i"])));
}

#[test]
fn scanning_and_completing_make_arguments() {
    match scan(&line(&["-i", "a", "-p", "b"])) {
        Scan::Complete(options) => {
            assert_eq!(options.input.as_deref(), Some("a"));
            assert_eq!(options.preset.as_deref(), Some("b"));
            assert_eq!(options.output, None);
            assert!(matches!(complete(options), Err(reason) if reason == "--output is required"));
        }
        _ => panic!("not complete"),
    }
}

#[test]
fn arguments_make_a_request() {
    let request = run(&["-i", "a", "-p", "b", "-o", "c", "-q", "9", "-r", "8"]).into_request();
    assert_eq!(request.input, "a");
    assert_eq!(request.preset, "b");
    assert_eq!(request.output, "c");
    assert_eq!(request.quality, 9);
    assert_eq!(request.resize, Some(8));
}

#[test]
fn usage_text() {
    let lines: Vec<&str> = USAGE.split('\n').collect();
    assert_eq!(lines.len(), 13);
    assert_eq!(
        lines[0],
        "Usage: rapidraw-cli --input <image> --preset <preset.rrdata> --output <out.jpg> [options]"
    );
    assert_eq!(lines[1], "       rapidraw-cli --server");
    assert_eq!(lines[3], "Options:");
    assert_eq!(lines[7], "  --quality, -q  JPEG/WebP quality 1–100 (default: 90)");
    assert_eq!(
        lines[12],
        "Set WGPU_BACKEND=vulkan|metal|dx12|gl to override GPU backend."
    );
}

#[test]
fn refused_command_line_ends_with_the_usage() {
    match course(parse_args(&line(&["what"]))) {
        Course::End(end) => {
            assert_eq!(end.printed, format!("Error: Unknown argument: what\n{USAGE}\n"));
            assert_eq!(end.code, 1);
        }
        _ => panic!("went on"),
    }
}

#[test]
fn help_ends_well() {
    match course(Ok(Invocation::Help)) {
        Course::End(end) => {
            assert_eq!(end.printed, format!("{USAGE}\n"));
            assert_eq!(end.code, 0);
        }
        _ => panic!("went on"),
    }
}

#[test]
fn server_and_rendering_are_told_apart() {
    assert!(matches!(course(parse_args(&line(&["-s"]))), Course::Serve));
    match course(parse_args(&line(&["-i", "a", "-p", "b", "-o", "c"]))) {
        Course::Render(request) => {
            assert_eq!(request.input, "a");
            assert_eq!(request.quality, 90);
        }
        _ => panic!("no rendering"),
    }
}

#[test]
fn outcome_decides_the_ending() {
    let well = ending(Ok(()));
    assert_eq!(well.printed, "");
    assert_eq!(well.code, 0);
    let badly = ending(Err("No such file".to_string()));
    assert_eq!(badly.printed, "Error: No such file\n");
    assert_eq!(badly.code, 1);
}

#[test]
fn earlier_settings_can_be_left_out() {
    let all = run(&["-q", "5", "-i", "a", "-p", "b", "-q", "6", "-o", "c", "--quality", "7"]);
    let last = run(&["-i", "a", "-p", "b", "-o", "c", "--quality", "7"]);
    assert_eq!(all.quality, 7);
    assert_eq!(all.quality, last.quality);
    assert_eq!(all.input, last.input);
    assert_eq!(all.preset, last.preset);
    assert_eq!(all.output, last.output);
}

#[test]
fn order_and_program_do_not_matter() {
    let pairs = [["-i", "a"], ["--preset", "b"], ["-o", "c"], ["-q", "8"], ["--resize", "9"]];
    for first in 0..pairs.len() {
        let mut argv = vec![format!("program {first}")];
        for at in 0..pairs.len() {
            argv.extend(pairs[(first + at) % pairs.len()].iter().map(|word| word.to_string()));
        }
        match parse_args(&argv) {
            Ok(Invocation::Run(args)) => {
                assert_eq!((args.input.as_str(), args.preset.as_str()), ("a", "b"));
                assert_eq!((args.output.as_str(), args.quality), ("c", 8));
                assert_eq!(args.resize, Some(9));
                assert!(!args.server);
            }
            _ => panic!("not parsed"),
        }
    }
}
