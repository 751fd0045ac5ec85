use simple_duration_parse::{parse_secs, DurationParser, Error};

#[test]
fn parse_secs_test() {
    let tests = &[
        ("1s", 1),
        ("1m", 60),
        ("1h", 60 * 60),
        ("1h 1m 1s", (60 * 60) + 60 + 1),
        ("1h 1s", (60 * 60) + 1),
        ("30m 59s", (30 * 60) + 59),
        ("7d", (60 * 60 * 24 * 7)),
        ("3d 5m", (60 * 60 * 24 * 3) + 5 * 60),
        ("1s foobar", 1),
    ];

    for (input, expected) in tests {
        assert_eq!(parse_secs(&input).unwrap(), *expected, "input: {}", input);
    }

    let tests = &[
        ("1s 1m", Error::OutOfOrder),
        ("1s 1s", Error::AlreadySeen),
        ("0s", Error::InvalidData),
        ("06s", Error::InvalidData),
        ("1m 1", Error::InvalidData),
        ("1s1", Error::InvalidData),
    ];

    for (input, expected) in tests {
        assert_eq!(
            parse_secs(&input).unwrap_err(),
            *expected,
            "input: {}",
            input
        );
    }
}

#[test]
fn unit_scaling_examples() {
    for n in [1u64, 7, 42, 1000, 123456] {
        assert_eq!(parse_secs(&format!("{}s", n)), Ok(n));
        assert_eq!(parse_secs(&format!("{}m", n)), Ok(60 * n));
        assert_eq!(parse_secs(&format!("{}h", n)), Ok(3600 * n));
        assert_eq!(parse_secs(&format!("{}d", n)), Ok(86400 * n));
    }
}

#[test]
fn descending_units_add_up() {
    assert_eq!(parse_secs("1h 1m 1s"), Ok(3661));
    assert_eq!(parse_secs("1h 1s"), Ok(3601));
    assert_eq!(parse_secs("30m 59s"), Ok(1859));
    assert_eq!(parse_secs("2d 3h 4m 5s"), Ok(2 * 86400 + 3 * 3600 + 4 * 60 + 5));
}

#[test]
fn large_composites() {
    assert_eq!(parse_secs("7d 3m"), Ok(604980));
    assert_eq!(parse_secs("3d 5m"), Ok(259500));
}

#[test]
fn trailing_text_is_ignored() {
    assert_eq!(parse_secs("1s foobar"), Ok(1));
    assert_eq!(parse_secs("  1m,  2s!"), Ok(62));
}

#[test]
fn dangling_digits_before_text_are_dropped() {
    assert_eq!(parse_secs("1m 5 x"), Ok(60));
    assert_eq!(parse_secs("5 x"), Ok(0));
}

#[test]
fn coarser_unit_after_finer_is_out_of_order() {
    assert_eq!(parse_secs("1s 1m"), Err(Error::OutOfOrder));
    assert_eq!(parse_secs("1h 1m 1h"), Err(Error::OutOfOrder));
    assert_eq!(parse_secs("1m 1d"), Err(Error::OutOfOrder));
}

#[test]
fn repeated_unit_is_already_seen() {
    assert_eq!(parse_secs("1s 1s"), Err(Error::AlreadySeen));
    assert_eq!(parse_secs("2d 3d"), Err(Error::AlreadySeen));
}

#[test]
fn leading_zero_is_invalid() {
    assert_eq!(parse_secs("0s"), Err(Error::InvalidData));
    assert_eq!(parse_secs("06s"), Err(Error::InvalidData));
    assert_eq!(parse_secs("1h 05m"), Err(Error::InvalidData));
}

#[test]
fn trailing_digit_is_invalid() {
    assert_eq!(parse_secs("1m 1"), Err(Error::InvalidData));
    assert_eq!(parse_secs("1s1"), Err(Error::InvalidData));
    assert_eq!(parse_secs("7"), Err(Error::InvalidData));
}

#[test]
fn unit_without_digits_is_invalid() {
    assert_eq!(parse_secs("s"), Err(Error::InvalidData));
    assert_eq!(parse_secs("1h m"), Err(Error::InvalidData));
}

#[test]
fn parsing_twice_gives_the_same_result() {
    for input in ["1h 1m 1s", "1s 1m", "", "06s", "1s foobar"] {
        assert_eq!(parse_secs(input), parse_secs(input));
    }
}

#[test]
fn empty_input_is_zero() {
    assert_eq!(parse_secs(""), Ok(0));
    assert_eq!(parse_secs("   "), Ok(0));
}

#[test]
fn totals_saturate_at_u64_max() {
    assert_eq!(parse_secs("99999999999999999999s"), Ok(u64::MAX));
    assert_eq!(parse_secs("213503982334602d"), Ok(u64::MAX));
    assert_eq!(parse_secs("18446744073709551615s"), Ok(u64::MAX));
    assert_eq!(parse_secs("18446744073709551614s"), Ok(u64::MAX - 1));
    assert_eq!(parse_secs("213503982334601d 1s"), Ok(213503982334601 * 86400 + 1));
}

#[test]
fn error_messages() {
    assert_eq!(Error::OutOfOrder.message(), "Out of order");
    assert_eq!(Error::AlreadySeen.message(), "Already seen");
    assert_eq!(Error::InvalidData.message(), "Invalid data");
}

#[test]
fn std_duration_adapter() {
    assert_eq!(
        std::time::Duration::parse_human_duration("7d 3m").unwrap(),
        std::time::Duration::from_secs(604980)
    );
    assert_eq!(
        std::time::Duration::parse_human_duration("1s 1s"),
        Err(Error::AlreadySeen)
    );
}

#[test]
fn time_duration_adapter() {
    assert_eq!(
        time::Duration::parse_human_duration("1h 30m").unwrap(),
        time::Duration::seconds(5400)
    );
    assert_eq!(
        time::Duration::parse_human_duration("99999999999999999999s").unwrap(),
        time::Duration::seconds(i64::MAX)
    );
    assert_eq!(time::Duration::parse_human_duration("0s"), Err(Error::InvalidData));
}
