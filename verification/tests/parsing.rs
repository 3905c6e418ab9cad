use lightshow::util::{decode_hex, parse_u8};
use lightshow::{InitBuilder, Instruction, SetLedsBuilder, SetLedsLine};

#[test]
fn parse_u8_values() {
    assert_eq!(parse_u8("0"), Some(0));
    assert_eq!(parse_u8("42"), Some(42));
    assert_eq!(parse_u8("255"), Some(255));
    assert_eq!(parse_u8("007"), Some(7));
    assert_eq!(parse_u8("+7"), Some(7));
    assert_eq!(parse_u8("256"), None);
    assert_eq!(parse_u8("99999"), None);
    assert_eq!(parse_u8(""), None);
    assert_eq!(parse_u8("+"), None);
    assert_eq!(parse_u8("-1"), None);
    assert_eq!(parse_u8("12a"), None);
    assert_eq!(parse_u8(" 5"), None);
}

#[test]
fn parse_u8_agrees_with_std() {
    let cases = ["0", "42", "255", "256", "007", "+7", "", "+", "-1", "12a"];
    for s in cases {
        assert_eq!(parse_u8(s), s.parse::<u8>().ok(), "on {:?}", s);
    }
}

#[test]
fn decode_hex_values() {
    assert_eq!(decode_hex(""), Ok(Vec::new()));
    assert_eq!(decode_hex("ff"), Ok(vec![0xFF]));
    assert_eq!(decode_hex("FF"), Ok(vec![0xFF]));
    assert_eq!(decode_hex("ff00aa"), Ok(vec![0xFF, 0x00, 0xAA]));
    assert_eq!(decode_hex("0102deadBEEF"), Ok(vec![1, 2, 0xDE, 0xAD, 0xBE, 0xEF]));
    assert!(decode_hex("zz").is_err());
    assert!(decode_hex("f+").is_err());
    assert!(decode_hex("  ").is_err());
}

#[test]
fn decode_hex_agrees_with_std() {
    let cases = ["", "ff", "ff00aa", "zz", "+f", "f+", "deadbeef", "0A3c"];
    for s in cases {
        let expected: Result<Vec<u8>, _> = (0..s.len())
            .step_by(2)
            .map(|i| u8::from_str_radix(&s[i..i + 2], 16))
            .collect();
        assert_eq!(decode_hex(s).ok(), expected.ok(), "on {:?}", s);
    }
}

#[test]
fn init_builder_parses_arguments() {
    let builder = InitBuilder::new();
    let inst = builder
        .build_instruction(vec!["10".to_string(), "5".to_string()])
        .unwrap();
    assert_eq!(inst.to_message(), vec![0u8, 10, 5]);

    assert!(builder.build_instruction(Vec::new()).is_none());
    assert!(builder.build_instruction(vec!["10".to_string()]).is_none());
    assert!(builder
        .build_instruction(vec!["ten".to_string(), "5".to_string()])
        .is_none());
    assert!(builder
        .build_instruction(vec!["10".to_string(), "pin".to_string()])
        .is_none());
    assert!(builder
        .build_instruction(vec!["300".to_string(), "5".to_string()])
        .is_none());
}

#[test]
fn builder_names_and_help() {
    assert_eq!(InitBuilder::display_name(), "init");
    assert_eq!(
        InitBuilder::new().help(),
        "[num_pixels] [pin] - initialize the LED strip"
    );
    assert_eq!(SetLedsBuilder::display_name(), "set_leds");
    assert_eq!(
        SetLedsBuilder::new().help(),
        "[offset] - set the colors for a set of LEDs"
    );
}

#[test]
fn set_leds_builder_offset() {
    let builder = SetLedsBuilder::new();
    assert_eq!(builder.parse_offset(&vec!["3".to_string()]), Some(3));
    assert_eq!(
        builder.parse_offset(&vec!["7".to_string(), "extra".to_string()]),
        Some(7)
    );
    assert_eq!(builder.parse_offset(&Vec::new()), None);
    assert_eq!(builder.parse_offset(&vec!["x".to_string()]), None);
}

#[test]
fn set_leds_builder_lines() {
    let builder = SetLedsBuilder::new();
    assert!(matches!(
        builder.classify_line(&"exit".to_string()),
        SetLedsLine::Exit
    ));
    assert!(matches!(
        builder.classify_line(&"help".to_string()),
        SetLedsLine::Help
    ));
    assert!(matches!(
        builder.classify_line(&"done".to_string()),
        SetLedsLine::Done
    ));
    assert!(matches!(
        builder.classify_line(&"peek".to_string()),
        SetLedsLine::Peek
    ));
    match builder.classify_line(&"ff8000".to_string()) {
        SetLedsLine::Color(rgb) => assert_eq!(rgb, vec![0xFF, 0x80, 0x00]),
        _ => panic!("a six-digit color must classify as a color"),
    }
    // one byte short of a full pixel
    assert!(matches!(
        builder.classify_line(&"ff80".to_string()),
        SetLedsLine::Invalid
    ));
    // four bytes: too long for a pixel
    assert!(matches!(
        builder.classify_line(&"ff800011".to_string()),
        SetLedsLine::Invalid
    ));
    assert!(matches!(
        builder.classify_line(&"zzzzzz".to_string()),
        SetLedsLine::Invalid
    ));
}
