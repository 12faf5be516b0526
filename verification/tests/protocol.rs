use aart_core::protocol::{
    format_error, format_param, format_telemetry, parse_line, Command, LineError, LineReader,
    ParseError,
};

#[test]
fn valid_throttle_parses() {
    assert_eq!(parse_line("THR 0.35"), Ok(Command::Throttle(350_000)));
}

#[test]
fn valid_steer_parses_negative() {
    assert_eq!(parse_line("STEER -0.10"), Ok(Command::Steer(-100_000)));
}

#[test]
fn extra_whitespace_between_tokens_is_tolerated() {
    assert_eq!(parse_line("THR    0.5"), Ok(Command::Throttle(500_000)));
    assert_eq!(parse_line("  THR 0.5  "), Ok(Command::Throttle(500_000)));
}

#[test]
fn empty_line_is_rejected() {
    assert_eq!(parse_line(""), Err(ParseError::Empty));
    assert_eq!(parse_line("   "), Err(ParseError::Empty));
}

#[test]
fn unknown_command_is_rejected() {
    assert_eq!(parse_line("FOO 0.5"), Err(ParseError::UnknownCommand));
    assert_eq!(parse_line("thr 0.5"), Err(ParseError::UnknownCommand));
}

#[test]
fn missing_value_is_rejected() {
    assert_eq!(parse_line("THR"), Err(ParseError::MissingValue));
}

#[test]
fn non_numeric_value_is_rejected() {
    assert_eq!(parse_line("THR fast"), Err(ParseError::InvalidValue));
}

#[test]
fn trailing_garbage_after_value_is_rejected() {
    assert_eq!(parse_line("THR 0.5 extra"), Err(ParseError::InvalidValue));
}

#[test]
fn throttle_out_of_range_is_rejected() {
    assert_eq!(parse_line("THR 1.5"), Err(ParseError::OutOfRange));
    assert_eq!(parse_line("THR -0.1"), Err(ParseError::OutOfRange));
}

#[test]
fn steer_out_of_range_is_rejected() {
    assert_eq!(parse_line("STEER 1.1"), Err(ParseError::OutOfRange));
    assert_eq!(parse_line("STEER -1.1"), Err(ParseError::OutOfRange));
}

#[test]
fn throttle_and_steer_accept_their_range_boundaries() {
    assert_eq!(parse_line("THR 0.0"), Ok(Command::Throttle(0)));
    assert_eq!(parse_line("THR 1.0"), Ok(Command::Throttle(1_000_000)));
    assert_eq!(parse_line("STEER -1.0"), Ok(Command::Steer(-1_000_000)));
    assert_eq!(parse_line("STEER 1.0"), Ok(Command::Steer(1_000_000)));
}

fn feed<const N: usize>(reader: &mut LineReader<N>, bytes: &[u8]) -> Vec<Result<String, LineError>> {
    let mut lines = Vec::new();
    for &b in bytes {
        if let Some(result) = reader.push_byte(b) {
            lines.push(result.map(|s| s.to_string()));
        }
    }
    lines
}

#[test]
fn one_shot_line_is_produced_on_the_terminator() {
    let mut r = LineReader::<32>::new();
    let lines = feed(&mut r, b"THR 0.5\n");
    assert_eq!(lines, [Ok("THR 0.5".to_string())]);
}

#[test]
fn crlf_terminator_strips_the_cr() {
    let mut r = LineReader::<32>::new();
    let lines = feed(&mut r, b"THR 0.5\r\n");
    assert_eq!(lines, [Ok("THR 0.5".to_string())]);
}

#[test]
fn line_split_across_multiple_feeds_still_assembles_correctly() {
    let mut r = LineReader::<32>::new();
    assert!(feed(&mut r, b"THR 0.").is_empty());
    assert!(feed(&mut r, b"3").is_empty());
    let lines = feed(&mut r, b"5\r\n");
    assert_eq!(lines, [Ok("THR 0.35".to_string())]);
}

#[test]
fn one_feed_can_contain_more_than_one_line() {
    let mut r = LineReader::<32>::new();
    let lines = feed(&mut r, b"THR 0.5\nSTEER -0.1\n");
    assert_eq!(
        lines,
        [Ok("THR 0.5".to_string()), Ok("STEER -0.1".to_string())]
    );
}

#[test]
fn overlong_line_without_terminator_reports_too_long_and_resyncs() {
    let mut r = LineReader::<8>::new();
    let lines = feed(&mut r, b"123456789");
    assert_eq!(lines, [Err(LineError::TooLong)]);
    let lines = feed(&mut r, b"THR 0.5\n");
    assert_eq!(lines, [Ok("THR 0.5".to_string())]);
}

#[test]
fn telemetry_formats_the_documented_shape() {
    let mut buf = [0u8; 64];
    let n = format_telemetry(&mut buf, 1200, 980, 20_000);
    assert_eq!(&buf[..n], b"SPD a=1200rpm b=980rpm slip=0.02 OK\r\n");
}

#[test]
fn telemetry_reports_zero_when_it_does_not_fit() {
    let mut buf = [0u8; 4];
    let n = format_telemetry(&mut buf, 1200, 980, 20_000);
    assert_eq!(n, 0);
}

#[test]
fn error_formats_a_readable_reason() {
    let mut buf = [0u8; 32];
    let n = format_error(ParseError::OutOfRange, &mut buf);
    assert_eq!(&buf[..n], b"ERR out of range\r\n");
}

#[test]
fn every_error_has_its_own_reason() {
    let cases: [(ParseError, &[u8]); 6] = [
        (ParseError::Empty, b"ERR empty\r\n"),
        (ParseError::UnknownCommand, b"ERR unknown command\r\n"),
        (ParseError::MissingValue, b"ERR missing value\r\n"),
        (ParseError::InvalidValue, b"ERR invalid value\r\n"),
        (ParseError::OutOfRange, b"ERR out of range\r\n"),
        (ParseError::UnknownParam, b"ERR unknown parameter\r\n"),
    ];
    for (err, expected) in cases {
        let mut buf = [0u8; 32];
        let n = format_error(err, &mut buf);
        assert_eq!(&buf[..n], expected);
    }
}

#[test]
fn error_reports_zero_when_it_does_not_fit() {
    let mut buf = [0u8; 5];
    assert_eq!(format_error(ParseError::Empty, &mut buf), 0);
}

#[test]
fn telemetry_handles_negative_values_and_rounds_slip() {
    let mut buf = [0u8; 64];
    let n = format_telemetry(&mut buf, -5, 0, -1_234_567);
    assert_eq!(&buf[..n], b"SPD a=-5rpm b=0rpm slip=-1.23 OK\r\n");
    let n = format_telemetry(&mut buf, 7, 8, 5_001);
    assert_eq!(&buf[..n], b"SPD a=7rpm b=8rpm slip=0.01 OK\r\n");
    let n = format_telemetry(&mut buf, 0, 0, -1);
    assert_eq!(&buf[..n], b"SPD a=0rpm b=0rpm slip=-0.00 OK\r\n");
}

#[test]
fn slip_ties_round_to_even_hundredths() {
    let slip = |v: i64| {
        let mut buf = [0u8; 64];
        let n = format_telemetry(&mut buf, 0, 0, v);
        String::from_utf8(buf[..n].to_vec()).unwrap()
    };
    assert_eq!(slip(5_000), "SPD a=0rpm b=0rpm slip=0.00 OK\r\n");
    assert_eq!(slip(15_000), "SPD a=0rpm b=0rpm slip=0.02 OK\r\n");
    assert_eq!(slip(125_000), "SPD a=0rpm b=0rpm slip=0.12 OK\r\n");
    assert_eq!(slip(-135_000), "SPD a=0rpm b=0rpm slip=-0.14 OK\r\n");
    assert_eq!(slip(995_000), "SPD a=0rpm b=0rpm slip=1.00 OK\r\n");
}

#[test]
fn param_formats_name_equals_value() {
    let mut buf = [0u8; 32];
    let n = format_param(&mut buf, "timing_a", 17);
    assert_eq!(&buf[..n], b"timing_a=17 OK\r\n");
    let n = format_param(&mut buf, "x", -3);
    assert_eq!(&buf[..n], b"x=-3 OK\r\n");
}

#[test]
fn get_set_and_save_lines_parse() {
    assert_eq!(parse_line("GET timing_a"), Ok(Command::Get("timing_a")));
    assert_eq!(parse_line("SET duty_drag 75"), Ok(Command::SetParam("duty_drag", 75)));
    assert_eq!(parse_line("SET timing_a -1"), Ok(Command::SetParam("timing_a", -1)));
    assert_eq!(parse_line("SAVE"), Ok(Command::Save));
    assert_eq!(parse_line("GET"), Err(ParseError::MissingValue));
    assert_eq!(parse_line("SET x"), Err(ParseError::MissingValue));
    assert_eq!(parse_line("SET x y"), Err(ParseError::InvalidValue));
    assert_eq!(parse_line("SAVE now"), Err(ParseError::InvalidValue));
    assert_eq!(parse_line("GET a b"), Err(ParseError::InvalidValue));
}

#[test]
fn decimal_values_keep_six_places_and_accept_bare_forms() {
    assert_eq!(parse_line("THR .5"), Ok(Command::Throttle(500_000)));
    assert_eq!(parse_line("THR 1."), Ok(Command::Throttle(1_000_000)));
    assert_eq!(parse_line("THR +0.25"), Ok(Command::Throttle(250_000)));
    assert_eq!(parse_line("STEER -0.0000019"), Ok(Command::Steer(-1)));
    assert_eq!(parse_line("THR ."), Err(ParseError::InvalidValue));
    assert_eq!(parse_line("THR 1.0000001"), Err(ParseError::OutOfRange));
}

#[test]
fn a_non_utf8_line_is_reported() {
    let mut r = LineReader::<8>::new();
    let lines = feed(&mut r, &[0xFF, 0xFE, b'\n']);
    assert_eq!(lines, [Err(LineError::NotUtf8)]);
}

#[test]
fn default_line_reader_starts_empty() {
    let mut r: LineReader<8> = LineReader::default();
    let lines = feed(&mut r, b"\n");
    assert_eq!(lines, [Ok(String::new())]);
}

#[test]
fn exponent_forms_are_numbers_too() {
    assert_eq!(parse_line("THR 5e-1"), Ok(Command::Throttle(500_000)));
    assert_eq!(parse_line("THR 1e0"), Ok(Command::Throttle(1_000_000)));
    assert_eq!(parse_line("THR 100E-2"), Ok(Command::Throttle(1_000_000)));
    assert_eq!(parse_line("STEER -.25e+0"), Ok(Command::Steer(-250_000)));
    assert_eq!(parse_line("THR 1e-7"), Ok(Command::Throttle(0)));
    assert_eq!(parse_line("THR 0.5e+1"), Err(ParseError::OutOfRange));
    assert_eq!(parse_line("THR 1e99999999999999999999999"), Err(ParseError::OutOfRange));
    assert_eq!(parse_line("THR 7e-99999999999999999999999"), Ok(Command::Throttle(0)));
    assert_eq!(parse_line("THR 0e99999999999999999999999"), Ok(Command::Throttle(0)));
    assert_eq!(parse_line("STEER -0.0000019"), Ok(Command::Steer(-1)));
}

#[test]
fn malformed_exponents_are_invalid() {
    assert_eq!(parse_line("THR 1e"), Err(ParseError::InvalidValue));
    assert_eq!(parse_line("THR 1e+"), Err(ParseError::InvalidValue));
    assert_eq!(parse_line("THR e5"), Err(ParseError::InvalidValue));
    assert_eq!(parse_line("THR 1e5.0"), Err(ParseError::InvalidValue));
    assert_eq!(parse_line("THR 1.2.3"), Err(ParseError::InvalidValue));
}

#[test]
fn infinities_and_nan_are_numbers_but_never_in_range() {
    assert_eq!(parse_line("THR inf"), Err(ParseError::OutOfRange));
    assert_eq!(parse_line("STEER -INFINITY"), Err(ParseError::OutOfRange));
    assert_eq!(parse_line("STEER NaN"), Err(ParseError::OutOfRange));
    assert_eq!(parse_line("FOO nan"), Err(ParseError::UnknownCommand));
    assert_eq!(parse_line("THR infinit"), Err(ParseError::InvalidValue));
}

#[test]
fn the_value_is_checked_before_the_keyword() {
    assert_eq!(parse_line("FOO abc"), Err(ParseError::InvalidValue));
    assert_eq!(parse_line("FOO 2"), Err(ParseError::UnknownCommand));
}
