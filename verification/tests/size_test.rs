use oqab::args::{Args, ArgsError};
use oqab::size::parse_size;

#[test]
fn sizes_use_base_1024_multipliers() {
    assert_eq!(parse_size("0"), Some(0));
    assert_eq!(parse_size("2048"), Some(2048));
    assert_eq!(parse_size("17b"), Some(17));
    assert_eq!(parse_size("10kb"), Some(10_240));
    assert_eq!(parse_size("10k"), Some(10_240));
    assert_eq!(parse_size("5mb"), Some(5_242_880));
    assert_eq!(parse_size("3g"), Some(3_221_225_472));
    assert_eq!(parse_size("2tb"), Some(2_199_023_255_552));
}

#[test]
fn sizes_may_have_a_fraction_and_are_rounded_down() {
    assert_eq!(parse_size("1.5kb"), Some(1536));
    assert_eq!(parse_size("0.5"), Some(0));
    assert_eq!(parse_size("1.999b"), Some(1));
    assert_eq!(parse_size("0.001k"), Some(1));
    assert_eq!(parse_size("0.0009k"), Some(0));
    assert_eq!(parse_size("2.25mb"), Some(2_359_296));
    assert_eq!(parse_size("0.99999999999999999999999999999999999999kb"), Some(1023));
}

#[test]
fn sizes_ignore_case_and_surrounding_space() {
    assert_eq!(parse_size("  10KB "), Some(10_240));
    assert_eq!(parse_size("10 Mb"), Some(10_485_760));
    assert_eq!(parse_size("\t7\n"), Some(7));
}

#[test]
fn sizes_that_do_not_fit_are_capped() {
    assert_eq!(parse_size("18446744073709551615"), Some(u64::MAX));
    assert_eq!(parse_size("18446744073709551616"), Some(u64::MAX));
    assert_eq!(parse_size("99999999999999999999999999tb"), Some(u64::MAX));
    assert_eq!(parse_size("16777216tb"), Some(u64::MAX));
    assert_eq!(parse_size("16777215tb"), Some(16_777_215 * 1_099_511_627_776));
}

#[test]
fn what_is_no_size_is_refused() {
    for text in ["", " ", "kb", "1.", ".5", "1.2.3", "10xb", "10kbb", "-1", "1e3", "1 0", "10 k b"] {
        assert_eq!(parse_size(text), None, "{:?}", text);
    }
    assert_eq!(Args::parse_size("12kb").unwrap(), 12_288);
    match Args::parse_size("twelve") {
        Err(ArgsError::InvalidValue(message)) => {
            assert_eq!(message, "Invalid size format: twelve")
        }
        other => panic!("unexpected: {:?}", other),
    }
}
