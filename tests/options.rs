use image_blend::mode::Format;
use image_blend::options::{
    colorize_strength_parse, options_post_processing, output_file_name, parse_color_text,
    ArgParseProcess, OptionError, TextOptions,
};

fn text_options(output: Option<&str>, color: Option<&str>) -> TextOptions {
    TextOptions {
        image: "base.png".to_string(),
        image2: "top.png".to_string(),
        output: output.map(|s| s.to_string()),
        colorize_color: color.map(|s| s.to_string()),
    }
}

#[test]
fn hex_colour_is_read() {
    assert_eq!(parse_color_text("#FF8000"), Ok(vec![255, 128, 0]));
    assert_eq!(parse_color_text("#0a0B0c"), Ok(vec![10, 11, 12]));
}

#[test]
fn hex_colour_pair_may_carry_a_plus() {
    assert_eq!(parse_color_text("#+F0000"), Ok(vec![15, 0, 0]));
}

#[test]
fn hex_colour_of_wrong_length_is_refused() {
    assert_eq!(parse_color_text("#FF80"), Err(OptionError::HexLength));
    assert_eq!(parse_color_text("#FF800000"), Err(OptionError::HexLength));
    assert_eq!(parse_color_text("#"), Err(OptionError::HexLength));
}

#[test]
fn hex_colour_with_bad_digit_is_refused() {
    assert_eq!(parse_color_text("#GG0000"), Err(OptionError::InvalidHex));
    assert_eq!(parse_color_text("#00 000"), Err(OptionError::InvalidHex));
    assert_eq!(parse_color_text("#\u{e9}0000"), Err(OptionError::InvalidHex));
}

#[test]
fn decimal_colour_is_read_with_spaces() {
    assert_eq!(parse_color_text("10,20,30"), Ok(vec![10, 20, 30]));
    assert_eq!(parse_color_text(" 255 ,\t0, 7 "), Ok(vec![255, 0, 7]));
}

#[test]
fn decimal_colour_needs_three_parts() {
    assert_eq!(
        parse_color_text("1,2"),
        Err(OptionError::ColorFormat("1,2".to_string()))
    );
    assert_eq!(
        parse_color_text("1,2,3,4"),
        Err(OptionError::ColorFormat("1,2,3,4".to_string()))
    );
    assert_eq!(parse_color_text(""), Err(OptionError::ColorFormat(String::new())));
}

#[test]
fn decimal_colour_reports_first_bad_part() {
    assert_eq!(
        parse_color_text("1, 300 ,x"),
        Err(OptionError::ColorComponent("300".to_string()))
    );
    assert_eq!(
        parse_color_text("1,2,-3"),
        Err(OptionError::ColorComponent("-3".to_string()))
    );
    assert_eq!(
        parse_color_text("1,,3"),
        Err(OptionError::ColorComponent(String::new()))
    );
}

#[test]
fn error_messages() {
    assert_eq!(OptionError::NoInput.message(), "No input file specified");
    assert_eq!(OptionError::EmptyOutput.message(), "Output folder is empty");
    assert_eq!(OptionError::HexLength.message(), "colorize color must be #RRGGBB");
    assert_eq!(OptionError::InvalidHex.message(), "Invalid hex value");
    assert_eq!(
        OptionError::ColorFormat("1,2".to_string()).message(),
        "Invalid color format: 1,2. Expected 'R,G,B' or '#RRGGBB'"
    );
    assert_eq!(
        OptionError::ColorComponent("x".to_string()).message(),
        "Invalid color component: x"
    );
}

#[test]
fn strength_in_range_is_read() {
    assert_eq!(colorize_strength_parse("0"), Ok(0));
    assert_eq!(colorize_strength_parse("50"), Ok(50));
    assert_eq!(colorize_strength_parse("100"), Ok(100));
    assert_eq!(colorize_strength_parse("+7"), Ok(7));
}

#[test]
fn strength_out_of_range_is_refused() {
    assert_eq!(
        colorize_strength_parse("101"),
        Err("`101` is out of range. It should be between 0 and 100".to_string())
    );
    assert_eq!(
        colorize_strength_parse("255"),
        Err("`255` is out of range. It should be between 0 and 100".to_string())
    );
}

#[test]
fn strength_that_is_no_byte_is_refused() {
    assert_eq!(
        colorize_strength_parse("abc"),
        Err("`abc` is not a valid number".to_string())
    );
    assert_eq!(
        colorize_strength_parse("256"),
        Err("`256` is not a valid number".to_string())
    );
    assert_eq!(
        colorize_strength_parse(" 5"),
        Err("` 5` is not a valid number".to_string())
    );
}

#[test]
fn output_folder_choices() {
    assert_eq!(text_options(Some("out"), None).output_folder("/work"), Ok("out".to_string()));
    assert_eq!(text_options(None, None).output_folder("/work"), Ok("/work".to_string()));
    assert_eq!(
        text_options(Some(""), None).output_folder("/work"),
        Err(OptionError::EmptyOutput)
    );
}

#[test]
fn colour_option_is_optional() {
    assert_eq!(text_options(None, None).parse_color(), Ok(None));
    assert_eq!(
        text_options(None, Some("#000010")).parse_color(),
        Ok(Some(vec![0, 0, 16]))
    );
    assert_eq!(
        text_options(None, Some("1;2;3")).parse_color(),
        Err(OptionError::ColorFormat("1;2;3".to_string()))
    );
}

#[test]
fn post_processing_needs_both_inputs() {
    let mut opts = text_options(Some("out"), None);
    assert_eq!(options_post_processing(&opts, "/work"), Ok("out".to_string()));
    opts.image2 = String::new();
    assert_eq!(options_post_processing(&opts, "/work"), Err(OptionError::NoInput));
    opts.image2 = "top.png".to_string();
    opts.image = String::new();
    assert_eq!(options_post_processing(&opts, "/work"), Err(OptionError::NoInput));
}

#[test]
fn output_file_name_replaces_last_extension() {
    assert_eq!(output_file_name("beijing-dem-rgb.tif", Format::PNG), "beijing-dem-rgb.png");
    assert_eq!(output_file_name("archive.tar.gz", Format::TIFF), "archive.tar.tiff");
    assert_eq!(output_file_name("noext", Format::WEBP), "noext.webp");
    assert_eq!(output_file_name(".hidden", Format::JPEG), ".jpeg");
}
