use hack_asm::hack_int::{HackInt, ParseHackIntError};

#[test]
fn try_new_accepts_the_whole_range() {
    for v in [0u16, 1, 16, 16383, 32766, 32767] {
        assert_eq!(HackInt::try_new(v).unwrap().value(), v);
        assert_eq!(u16::from(HackInt::try_new(v).unwrap()), v);
    }
}

#[test]
fn try_new_refuses_what_lies_above_the_bound() {
    assert_eq!(HackInt::try_new(32768).unwrap_err(), ParseHackIntError::SizeExceeded);
    assert_eq!(HackInt::try_new(u16::MAX).unwrap_err(), ParseHackIntError::SizeExceeded);
}

#[test]
fn parse_reads_decimal_numbers() {
    assert_eq!(HackInt::parse("0").unwrap().value(), 0);
    assert_eq!(HackInt::parse("007").unwrap().value(), 7);
    assert_eq!(HackInt::parse("+42").unwrap().value(), 42);
    assert_eq!(HackInt::parse("32767").unwrap().value(), 32767);
    assert_eq!(HackInt::parse("0000000000000000000032767").unwrap().value(), 32767);
}

#[test]
fn parse_tells_a_number_out_of_range_from_a_malformed_text() {
    assert_eq!(HackInt::parse("32768").unwrap_err(), ParseHackIntError::SizeExceeded);
    assert_eq!(HackInt::parse("65535").unwrap_err(), ParseHackIntError::SizeExceeded);
    assert_eq!(HackInt::parse("65536").unwrap_err(), ParseHackIntError::SizeExceeded);
    assert_eq!(HackInt::parse("+70000").unwrap_err(), ParseHackIntError::SizeExceeded);
    assert_eq!(HackInt::parse("99999999999999999999").unwrap_err(), ParseHackIntError::SizeExceeded);
    assert_eq!(HackInt::parse("000032768").unwrap_err(), ParseHackIntError::SizeExceeded);
    assert_eq!(HackInt::parse("65536x").unwrap_err(), ParseHackIntError::ParseInt);
    assert_eq!(HackInt::parse("99999999999999999999 ").unwrap_err(), ParseHackIntError::ParseInt);
    assert_eq!(HackInt::parse("4294967296-").unwrap_err(), ParseHackIntError::ParseInt);
    assert_eq!(HackInt::parse("").unwrap_err(), ParseHackIntError::ParseInt);
    assert_eq!(HackInt::parse("+").unwrap_err(), ParseHackIntError::ParseInt);
    assert_eq!(HackInt::parse("-1").unwrap_err(), ParseHackIntError::ParseInt);
    assert_eq!(HackInt::parse("12a").unwrap_err(), ParseHackIntError::ParseInt);
    assert_eq!(HackInt::parse(" 12").unwrap_err(), ParseHackIntError::ParseInt);
    assert_eq!(HackInt::parse("++1").unwrap_err(), ParseHackIntError::ParseInt);
}

#[test]
fn parse_agrees_with_the_standard_library_on_what_is_a_number() {
    for text in [
        "0", "9", "10", "+0", "+32767", "32767", "32768", "40000", "65535", "65536", "70000",
        "18446744073709551616", "x", "1 ", "", "+", "-0", "١", "1_000", "0x10",
    ] {
        let expected = match text.parse::<u128>() {
            Ok(v) if v <= 32767 => Ok(v as u16),
            Ok(_) => Err(ParseHackIntError::SizeExceeded),
            Err(_) => Err(ParseHackIntError::ParseInt),
        };
        assert_eq!(HackInt::parse(text).map(|h| h.value()), expected, "{:?}", text);
    }
}

#[test]
fn every_number_within_the_bound_is_wrapped_and_comes_back() {
    for v in 0..=32767u16 {
        let wrapped = HackInt::try_new(v).unwrap();
        assert_eq!(wrapped.value(), v);
        let back: u16 = wrapped.into();
        assert_eq!(back, v);
        assert_eq!(HackInt::parse(&v.to_string()).unwrap(), wrapped);
        assert_eq!(HackInt::try_from(v).unwrap(), wrapped);
    }
    for v in 32768..=u16::MAX {
        assert_eq!(HackInt::try_new(v).unwrap_err(), ParseHackIntError::SizeExceeded);
        assert_eq!(HackInt::parse(&v.to_string()).unwrap_err(), ParseHackIntError::SizeExceeded);
        let converted: Result<HackInt, ParseHackIntError> = v.try_into();
        assert_eq!(converted.unwrap_err(), ParseHackIntError::SizeExceeded);
    }
}
