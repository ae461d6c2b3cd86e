use rst_opt_parse::IOptParse;
use rst_opt_parse::OptParse;
use rst_opt_parse::OptParseItem;

#[test]
fn test_opt_parse() {
    let mut options = Vec::new();
    options.push(OptParseItem::new("-r", "--samplingRate", true, "48000", "Set Sampling Rate"));
    options.push(OptParseItem::new(
        "-e",
        "--encoding",
        true,
        "PCM16",
        "Set Encoding PCM8, PCM16, PCM24, PCM32, PCMFLOAT",
    ));
    options.push(OptParseItem::new(
        "-c",
        "--channel",
        true,
        "2",
        "Set channel 2, 2.1, 4, 4.1, 5, 5.1, 5.1.2, 7.1",
    ));

    let mut argv: Vec<String> = Vec::new();
    argv.push("-r".to_string());
    argv.push("44100".to_string());
    argv.push("--encoding=PCM32".to_string());

    let mut opt_parse = OptParse::new(argv, options, "rst_opt_parse_test");
    opt_parse.parse_options(false);

    assert_eq!(opt_parse.get_value("-r"), "44100");
    assert_eq!(opt_parse.get_value("-e"), "PCM32");
    assert_eq!(opt_parse.get_value("-c"), "2");
}

#[test]
fn test_opt_parse_help() {
    let mut options = Vec::new();
    options.push(OptParseItem::new("-r", "--samplingRate", true, "48000", "Set Sampling Rate"));
    options.push(OptParseItem::new(
        "-e",
        "--encoding",
        true,
        "PCM16",
        "Set Encoding PCM8, PCM16, PCM24, PCM32, PCMFLOAT",
    ));
    options.push(OptParseItem::new(
        "-c",
        "--channel",
        true,
        "2",
        "Set channel 2, 2.1, 4, 4.1, 5, 5.1, 5.1.2, 7.1",
    ));

    let mut argv: Vec<String> = Vec::new();
    argv.push("-h".to_string());

    let mut opt_parse = OptParse::new(argv, options, "rst_opt_parse_test");
    opt_parse.parse_options(false);
}

#[test]
fn test_opt_parse_exception_no_opt_parse_item() {
    let options = Vec::new();

    let mut argv: Vec<String> = Vec::new();
    argv.push("-r".to_string());
    argv.push("44100".to_string());
    argv.push("--encoding=PCM32".to_string());

    let mut opt_parse = OptParse::new(argv, options, "rst_opt_parse_test");
    opt_parse.parse_options(false);

    assert_eq!(opt_parse.get_value("-r"), "");
    assert_eq!(opt_parse.get_value("-e"), "");
    assert_eq!(opt_parse.get_value("-c"), "");
}

#[test]
fn test_opt_parse_no_arg() {
    let mut options = Vec::new();
    options.push(OptParseItem::new("-v", "--verbose", false, "false", "Enable verbose mode"));
    options.push(OptParseItem::new("-q", "--quiet", false, "false", "Enable quiet mode"));

    let mut argv: Vec<String> = Vec::new();
    argv.push("-v".to_string());
    argv.push("-s".to_string());

    let mut opt_parse = OptParse::new(argv, options, "rst_opt_parse_test");
    opt_parse.parse_options(false);

    assert_eq!(opt_parse.get_value("-v"), "true");
    assert_eq!(opt_parse.get_value("-q"), "false");
    assert_eq!(opt_parse.get_value("-s"), "");
}

#[test]
fn test_opt_parse_arg_required_but_nothing() {
    let mut options = Vec::new();
    options.push(OptParseItem::new("-v", "--verbose", false, "false", "Enable verbose mode"));
    options.push(OptParseItem::new(
        "-s",
        "--samplingRate",
        true,
        "48000",
        "Set sampling rate e.g. 44100",
    ));

    let mut argv: Vec<String> = Vec::new();
    argv.push("-s".to_string());
    argv.push("-v".to_string()); // Expects the -s's value here but not specified

    let mut opt_parse = OptParse::new(argv, options, "rst_opt_parse_test");
    opt_parse.parse_options(false);

    assert_eq!(opt_parse.get_value("-v"), "true");
    assert_eq!(opt_parse.get_value("-s"), "48000");
    assert_eq!(opt_parse.get_value("-x"), "");
}

#[test]
fn test_opt_parse_args() {
    let mut options = Vec::new();
    options.push(OptParseItem::new("-v", "--verbose", false, "false", "Enable verbose mode"));
    options.push(OptParseItem::new(
        "-s",
        "--samplingRate",
        true,
        "48000",
        "Set sampling rate e.g. 44100",
    ));

    let mut argv: Vec<String> = Vec::new();
    argv.push("input.csv".to_string());
    argv.push("-v".to_string());
    argv.push("output1.csv".to_string());
    argv.push("--samplingRate=44100".to_string());
    argv.push("output2.csv".to_string());

    let mut opt_parse = OptParse::new(argv, options, "rst_opt_parse_test");
    opt_parse.parse_options(false);

    assert_eq!(opt_parse.get_value("-v"), "true");
    assert_eq!(opt_parse.get_value("-s"), "44100");
    assert_eq!(opt_parse.get_value("-x"), "");

    assert_eq!(opt_parse.get_args_count(), 3);
    assert_eq!(opt_parse.get_args(0), "input.csv");
    assert_eq!(opt_parse.get_args(0), "input.csv");
    assert_eq!(opt_parse.get_args(1), "output1.csv");
    assert_eq!(opt_parse.get_args(2), "output2.csv");
    assert_eq!(opt_parse.get_args(3), "");
}
