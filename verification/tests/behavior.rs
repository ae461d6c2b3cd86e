use rst_opt_parse::IOptParse;
use rst_opt_parse::OptParse;
use rst_opt_parse::OptParseItem;

fn sample_options() -> Vec<OptParseItem> {
    let mut options = Vec::new();
    options.push(OptParseItem::new("-v", "--verbose", false, "false", "Enable verbose mode"));
    options.push(OptParseItem::new(
        "-s",
        "--samplingRate",
        true,
        "48000",
        "Set sampling rate e.g. 44100",
    ));
    options
}

#[test]
fn required_option_absent_keeps_default() {
    let mut argv: Vec<String> = Vec::new();
    argv.push("input.csv".to_string());
    let mut p = OptParse::new(argv, sample_options(), "");
    p.parse_options(false);
    assert_eq!(p.get_value("-s"), "48000");
}

#[test]
fn long_form_flag_resolves_true() {
    let mut argv: Vec<String> = Vec::new();
    argv.push("--verbose".to_string());
    let mut p = OptParse::new(argv, sample_options(), "");
    p.parse_options(false);
    assert_eq!(p.get_value("-v"), "true");
}

#[test]
fn long_form_without_equals_keeps_default() {
    let mut argv: Vec<String> = Vec::new();
    argv.push("--samplingRate".to_string());
    let mut p = OptParse::new(argv, sample_options(), "");
    p.parse_options(false);
    assert_eq!(p.get_value("-s"), "48000");
}

#[test]
fn later_match_overrides_earlier() {
    let mut argv: Vec<String> = Vec::new();
    argv.push("-s".to_string());
    argv.push("22050".to_string());
    argv.push("--samplingRate=44100".to_string());
    let mut p = OptParse::new(argv, sample_options(), "");
    p.parse_options(false);
    assert_eq!(p.get_value("-s"), "44100");
}

#[test]
fn help_token_is_reported() {
    let mut argv: Vec<String> = Vec::new();
    argv.push("-h".to_string());
    let mut p = OptParse::new(argv, sample_options(), "");
    assert!(p.parse_options(false));

    let mut argv2: Vec<String> = Vec::new();
    argv2.push("--help".to_string());
    let mut p2 = OptParse::new(argv2, sample_options(), "");
    assert!(p2.parse_options(true));

    let mut argv3: Vec<String> = Vec::new();
    argv3.push("plain".to_string());
    let mut p3 = OptParse::new(argv3, sample_options(), "");
    assert!(!p3.parse_options(true));
}

#[test]
fn parse_twice_is_idempotent() {
    let mut argv: Vec<String> = Vec::new();
    argv.push("input.csv".to_string());
    argv.push("-v".to_string());
    argv.push("--samplingRate=44100".to_string());
    argv.push("output.csv".to_string());
    let mut p = OptParse::new(argv, sample_options(), "");
    p.parse_options(false);
    let v1 = p.get_value("-v");
    let s1 = p.get_value("-s");
    let n1 = p.get_args_count();
    let a1 = p.get_args(0);
    let b1 = p.get_args(1);
    p.parse_options(false);
    assert_eq!(p.get_value("-v"), v1);
    assert_eq!(p.get_value("-s"), s1);
    assert_eq!(p.get_args_count(), n1);
    assert_eq!(p.get_args(0), a1);
    assert_eq!(p.get_args(1), b1);
}

#[test]
fn parse_option_alone_stores_one_value() {
    let mut argv: Vec<String> = Vec::new();
    argv.push("-s".to_string());
    argv.push("96000".to_string());
    let mut p = OptParse::new(argv, sample_options(), "");
    let item = OptParseItem::new("-s", "--samplingRate", true, "48000", "rate");
    p.parse_option(&item);
    assert_eq!(p.get_value("-s"), "96000");
    assert_eq!(p.get_value("-v"), "");
}

#[test]
fn help_lines_are_column_aligned() {
    let mut options = Vec::new();
    options.push(OptParseItem::new("-r", "--samplingRate", true, "48000", "Set Sampling Rate"));
    options.push(OptParseItem::new("-e", "--encoding", true, "PCM16", "Set Encoding"));
    let argv: Vec<String> = Vec::new();
    let p = OptParse::new(argv, options, "a sample tool");
    let lines = p.print_help();
    assert_eq!(lines.len(), 3);
    assert_eq!(lines[0], "a sample tool");
    assert_eq!(lines[1], " -r\t --samplingRate\t : Set Sampling Rate");
    assert_eq!(lines[2], " -e\t --encoding    \t : Set Encoding");
}

#[test]
fn help_with_no_options_emits_description_only() {
    let options: Vec<OptParseItem> = Vec::new();
    let argv: Vec<String> = Vec::new();
    let p = OptParse::new(argv, options, "just a description");
    let lines = p.print_help();
    assert_eq!(lines.len(), 1);
    assert_eq!(lines[0], "just a description");

    let options2: Vec<OptParseItem> = Vec::new();
    let argv2: Vec<String> = Vec::new();
    let p2 = OptParse::new(argv2, options2, "");
    let lines2 = p2.print_help();
    assert_eq!(lines2.len(), 0);
}

#[test]
fn short_forms_pad_to_widest() {
    let mut options = Vec::new();
    options.push(OptParseItem::new("-in", "--input", true, "", "input file"));
    options.push(OptParseItem::new("-o", "--out", true, "", "output file"));
    let argv: Vec<String> = Vec::new();
    let p = OptParse::new(argv, options, "");
    let lines = p.print_help();
    assert_eq!(lines.len(), 2);
    assert_eq!(lines[0], " -in\t --input\t : input file");
    assert_eq!(lines[1], " -o \t --out  \t : output file");
}

#[test]
fn required_args_within_bounds_continue() {
    let mut argv: Vec<String> = Vec::new();
    argv.push("input.csv".to_string());
    let mut p = OptParse::new(argv, sample_options(), "");
    let halt = p.parse_options_with_required_args(true, 1, -1);
    assert!(!halt);
    assert_eq!(p.get_args_count(), 1);
}

#[test]
fn required_args_too_few_halt() {
    let argv: Vec<String> = Vec::new();
    let mut p = OptParse::new(argv, sample_options(), "");
    let halt = p.parse_options_with_required_args(true, 1, -1);
    assert!(halt);
}

#[test]
fn required_args_too_many_halt() {
    let mut argv: Vec<String> = Vec::new();
    argv.push("a".to_string());
    argv.push("b".to_string());
    argv.push("c".to_string());
    let mut p = OptParse::new(argv, sample_options(), "");
    let halt = p.parse_options_with_required_args(true, 1, 2);
    assert!(halt);
}

#[test]
fn required_args_help_halts_when_asked() {
    let mut argv: Vec<String> = Vec::new();
    argv.push("-h".to_string());
    argv.push("input.csv".to_string());
    let mut p = OptParse::new(argv, sample_options(), "");
    assert!(p.parse_options_with_required_args(true, 1, -1));

    let mut argv2: Vec<String> = Vec::new();
    argv2.push("-h".to_string());
    argv2.push("input.csv".to_string());
    let mut p2 = OptParse::new(argv2, sample_options(), "");
    assert!(!p2.parse_options_with_required_args(false, 1, -1));
}

#[test]
fn unknown_dash_tokens_are_dropped_silently() {
    let mut argv: Vec<String> = Vec::new();
    argv.push("--mystery=thing".to_string());
    argv.push("-z".to_string());
    argv.push("keep.csv".to_string());
    let mut p = OptParse::new(argv, sample_options(), "");
    p.parse_options(false);
    assert_eq!(p.get_args_count(), 1);
    assert_eq!(p.get_args(0), "keep.csv");
    assert_eq!(p.get_value("--mystery"), "");
    assert_eq!(p.get_value("-z"), "");
}

#[test]
fn value_of_required_option_is_skipped_in_positionals() {
    let mut argv: Vec<String> = Vec::new();
    argv.push("-s".to_string());
    argv.push("44100".to_string());
    argv.push("data.csv".to_string());
    let mut p = OptParse::new(argv, sample_options(), "");
    p.parse_options(false);
    assert_eq!(p.get_args_count(), 1);
    assert_eq!(p.get_args(0), "data.csv");
}

#[test]
fn required_option_swallows_following_flag_in_positional_scan() {
    // The token after "-s" is skipped unconditionally, even though it is
    // itself a flag, while the value resolution leaves "-s" at its default.
    let mut argv: Vec<String> = Vec::new();
    argv.push("-s".to_string());
    argv.push("-v".to_string());
    argv.push("data.csv".to_string());
    let mut p = OptParse::new(argv, sample_options(), "");
    p.parse_options(false);
    assert_eq!(p.get_value("-s"), "48000");
    assert_eq!(p.get_value("-v"), "true");
    assert_eq!(p.get_args_count(), 1);
    assert_eq!(p.get_args(0), "data.csv");
}
