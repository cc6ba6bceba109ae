use fix_checksum::checksum;
use fix_checksum::FIXChecksumValidatorError::{
    ChecksumFieldInvalidFormat, ChecksumFieldNotFound, InvalidEmptyMessage,
};
use fix_checksum::{generate, validate};

fn brew_message(message_parts: Vec<&str>, delimiter: &str) -> String {
    message_parts
        .iter()
        .fold(String::new(), |message, message_part| message.to_string() + message_part + delimiter)
}

fn heartbeat_body() -> String {
    brew_message(
        vec!["8=FIX.4.2", "9=73", "35=0", "49=BRKR", "56=INVMGR", "34=235",
            "52=19980604-07:58:28", "112=19980604-07:58:28"],
        "\x01",
    )
}

#[test]
fn it_should_calculate_fix_message_checksum() {
    let message_parts: Vec<&str> = vec!["8=FIX.4.2", "9=73", "35=0", "49=BRKR",
        "56=INVMGR", "34=235", "52=19980604-07:58:28", "112=19980604-07:58:28"];
    let message: String = message_parts
        .iter()
        .fold(String::new(), |msg, msg_part| msg.to_string() + msg_part + "\x01");
    assert_eq!(236, checksum(&message));
}

#[test]
fn lib_it_should_validate_fix_message_checksum() {
    assert_eq!(validate("").unwrap_err(), InvalidEmptyMessage);

    let mut message_parts: Vec<&str> = vec!["8=FIX.4.2", "9=73", "35=0", "49=BRKR",
        "56=INVMGR", "34=235", "52=19980604-07:58:28", "112=19980604-07:58:28"];
    let mut message: String = brew_message(message_parts, "\x01");
    assert_eq!(validate(&message).unwrap_err(), ChecksumFieldNotFound);

    message_parts = vec!["8=FIX.4.2", "9=73", "35=0", "49=BRKR", "56=INVMGR",
        "34=235", "52=19980604-07:58:28", "112=19980604-07:58:28", "10=2ZZ"];
    message = brew_message(message_parts, "\x01");
    assert_eq!(validate(&message).unwrap_err(), ChecksumFieldInvalidFormat);

    message_parts = vec!["8=FIX.4.2", "9=73", "35=0", "49=BRKR", "56=INVMGR",
        "34=235", "52=19980604-07:58:28", "112=19980604-07:58:28", "10=231"];
    message = brew_message(message_parts, "\x01");
    assert_eq!(validate(&message).unwrap(), false);

    message_parts = vec!["8=FIX.4.2", "9=73", "35=0", "49=BRKR", "56=INVMGR",
        "34=235", "52=19980604-07:58:28", "112=19980604-07:58:28", "10=236"];
    message = brew_message(message_parts, "\x01");
    assert_eq!(validate(&message).unwrap(), true);
}

#[test]
fn lib_it_should_generate_fix_message_checksum() {
    let message_parts: Vec<&str> = vec!["8=FIX.4.2", "9=73", "35=0", "49=BRKR",
        "56=INVMGR", "34=235", "52=19980604-07:58:28", "112=19980604-07:58:28"];
    let message: String = brew_message(message_parts, "\x01");
    assert_eq!("236", generate(&message));
}

#[test]
fn checksum_stays_below_256_and_repeats() {
    let long = "\u{ff}".repeat(1000);
    let first = checksum(&long);
    assert!(first < 256);
    assert_eq!(first, checksum(&long));
    // 1000 times the two bytes 0xc3 0xbf: 1000 * 386 = 386000, and 386000 % 256 = 208.
    assert_eq!(first, 208);
}

#[test]
fn checksum_of_empty_and_single_byte() {
    assert_eq!(checksum(""), 0);
    assert_eq!(checksum("A"), 65);
    assert_eq!(checksum("\x01"), 1);
}

#[test]
fn checksum_is_additive_modulo_256() {
    let a = "8=FIX.4.2\x019=73\x01";
    let b = "35=0\x0149=BRKR\x01zzzzzzz";
    let joined = format!("{}{}", a, b);
    assert_eq!(checksum(&joined), (checksum(a) + checksum(b)) % 256);
}

#[test]
fn generate_pads_to_three_digits() {
    assert_eq!(generate(""), "000");
    assert_eq!(generate("\x07"), "007");
    assert_eq!(generate("A"), "065");
    assert_eq!(generate("\u{ff}"), "130");
}

#[test]
fn generated_field_validates() {
    let body = heartbeat_body();
    let message = format!("{}10={}\x01", body, generate(&body));
    assert_eq!(validate(&message), Ok(true));

    let other = "35=A\x0198=0\x01108=30\x01";
    let message = format!("{}10={}\x01", other, generate(other));
    assert_eq!(validate(&message), Ok(true));
}

#[test]
fn small_checksum_round_trip() {
    let body = "\x06\x01";
    assert_eq!(generate(body), "007");
    assert_eq!(validate("\x06\x0110=007\x01"), Ok(true));
    assert_eq!(validate("\x06\x0110=7\x01"), Err(ChecksumFieldInvalidFormat));
}

#[test]
fn empty_message_is_an_error() {
    assert_eq!(validate(""), Err(InvalidEmptyMessage));
}

#[test]
fn message_without_tag_is_not_found() {
    assert_eq!(validate("8=FIX.4.2\x019=5\x01"), Err(ChecksumFieldNotFound));
    assert_eq!(validate("10=236\x01"), Err(ChecksumFieldNotFound));
    assert_eq!(validate("\x01"), Err(ChecksumFieldNotFound));
}

#[test]
fn embedded_tag_is_not_a_checksum_field() {
    let message = format!("{}210=5\x01", heartbeat_body());
    assert_eq!(validate(&message), Err(ChecksumFieldNotFound));
}

#[test]
fn non_digit_value_is_invalid_format() {
    let body = heartbeat_body();
    assert_eq!(validate(&format!("{}10=2ZZ\x01", body)), Err(ChecksumFieldInvalidFormat));
    assert_eq!(validate(&format!("{}10=+36\x01", body)), Err(ChecksumFieldInvalidFormat));
    assert_eq!(validate(&format!("{}10= 36\x01", body)), Err(ChecksumFieldInvalidFormat));
}

#[test]
fn truncated_value_is_invalid_format() {
    let body = heartbeat_body();
    assert_eq!(validate(&format!("{}10=", body)), Err(ChecksumFieldInvalidFormat));
    assert_eq!(validate(&format!("{}10=23", body)), Err(ChecksumFieldInvalidFormat));
    assert_eq!(validate(&format!("{}10=236", body)), Ok(true));
}

#[test]
fn wrong_value_is_a_mismatch() {
    let body = heartbeat_body();
    assert_eq!(validate(&format!("{}10=231\x01", body)), Ok(false));
    assert_eq!(validate(&format!("{}10=000\x01", body)), Ok(false));
    assert_eq!(validate(&format!("{}10=999\x01", body)), Ok(false));
}

#[test]
fn first_checksum_field_wins() {
    let body = heartbeat_body();
    let message = format!("{}10=236\x0158=x\x0110=ZZZ\x01", body);
    assert_eq!(validate(&message), Ok(true));
    let message = format!("{}10=231\x0158=x\x0110=236\x01", body);
    assert_eq!(validate(&message), Ok(false));
}

#[test]
fn covered_span_ends_at_the_delimiter() {
    // "A\x01" sums to 66, so the field "066" matches.
    assert_eq!(validate("A\x0110=066\x01"), Ok(true));
    assert_eq!(validate("A\x0110=065\x01"), Ok(false));
    // The delimiter itself opens the tag: the span is that one byte.
    assert_eq!(validate("\x0110=001\x01"), Ok(true));
}

#[test]
fn errors_describe_themselves() {
    assert_eq!(InvalidEmptyMessage.description(), "Invalid empty message.");
    assert_eq!(ChecksumFieldNotFound.description(), "Checksum field not found.");
    assert_eq!(
        ChecksumFieldInvalidFormat.description(),
        "Checksum value invalid format (parse error)."
    );
}
