use lan_relay::chat::parse_chat_command;
use lan_relay::text::parse_u8_str;
use lan_relay::text::i32_dec;
use lan_relay::text::trim_end_str;
use lan_relay::text::u8_dec;
use lan_relay::text::u32_dec;

#[test]
fn parses_simple_command() {
    let cmd = parse_chat_command(&String::from("-flo")).unwrap();
    assert_eq!(cmd.raw().as_str(), "flo");
}

#[test]
fn parses_command_with_argument() {
    let cmd = parse_chat_command(&String::from("-mute 2")).unwrap();
    assert_eq!(cmd.raw().as_str(), "mute 2");
}

#[test]
fn keeps_trailing_whitespace_in_raw() {
    let cmd = parse_chat_command(&String::from("-stats  ")).unwrap();
    assert_eq!(cmd.raw().as_str(), "stats  ");
}

#[test]
fn round_trips_word_and_arguments_verbatim() {
    for raw in ["muteall", "stats Grubby", "m1x2 a b  c "] {
        let mut text = String::from("-");
        text.push_str(raw);
        let cmd = parse_chat_command(&text).unwrap();
        assert_eq!(cmd.raw().as_str(), raw);
    }
}

#[test]
fn rejects_text_without_dash() {
    assert!(parse_chat_command(&String::from("hello")).is_none());
}

#[test]
fn rejects_dash_alone() {
    assert!(parse_chat_command(&String::from("-")).is_none());
}

#[test]
fn rejects_word_starting_with_digit() {
    assert!(parse_chat_command(&String::from("-1abc")).is_none());
}

#[test]
fn rejects_dash_then_space() {
    assert!(parse_chat_command(&String::from("- x")).is_none());
}

#[test]
fn rejects_word_broken_by_punctuation() {
    assert!(parse_chat_command(&String::from("-mu!te")).is_none());
}

#[test]
fn parse_u8_accepts_plain_and_signed_plus() {
    assert_eq!(parse_u8_str("7"), Some(7));
    assert_eq!(parse_u8_str("+42"), Some(42));
    assert_eq!(parse_u8_str("007"), Some(7));
    assert_eq!(parse_u8_str("255"), Some(255));
}

#[test]
fn parse_u8_rejects_bad_input() {
    assert_eq!(parse_u8_str(""), None);
    assert_eq!(parse_u8_str("+"), None);
    assert_eq!(parse_u8_str("256"), None);
    assert_eq!(parse_u8_str("12a"), None);
    assert_eq!(parse_u8_str("-1"), None);
}

#[test]
fn decimal_rendering_is_exact() {
    assert_eq!(u8_dec(0).as_str(), "0");
    assert_eq!(u8_dec(12).as_str(), "12");
    assert_eq!(u32_dec(1048576).as_str(), "1048576");
    assert_eq!(i32_dec(-273).as_str(), "-273");
    assert_eq!(i32_dec(i32::MIN).as_str(), "-2147483648");
}

#[test]
fn trim_end_removes_only_trailing_whitespace() {
    assert_eq!(trim_end_str(&String::from("mute 2  \t")).as_str(), "mute 2");
    assert_eq!(trim_end_str(&String::from("  a")).as_str(), "  a");
    assert_eq!(trim_end_str(&String::from("   ")).as_str(), "");
}
