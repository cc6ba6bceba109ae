//! Locating the checksum field of an inbound message and checking it.

use vstd::prelude::*;
use vstd::string::StringSliceAdditionalSpecFns;

use crate::checksum::{checksum_of, checksum_text, digit_char, span_checksum};

verus! {

/// Why a message could not be checked.
#[derive(PartialEq, Eq, Structural, Debug, Clone, Copy)]
pub enum FIXChecksumValidatorError {
    /// The message has no bytes at all.
    InvalidEmptyMessage,
    /// No checksum tag opened by a delimiter occurs in the message.
    ChecksumFieldNotFound,
    /// The three bytes after the checksum tag are not three decimal digits.
    ChecksumFieldInvalidFormat,
}

/// The text that describes each kind of error.
pub open spec fn description_of(e: FIXChecksumValidatorError) -> Seq<char> {
    match e {
        FIXChecksumValidatorError::InvalidEmptyMessage => "Invalid empty message."@,
        FIXChecksumValidatorError::ChecksumFieldNotFound => "Checksum field not found."@,
        FIXChecksumValidatorError::ChecksumFieldInvalidFormat =>
            "Checksum value invalid format (parse error)."@,
    }
}

impl FIXChecksumValidatorError {
    /// A short description of the error, for people.
    pub fn description(&self) -> (r: &'static str)
        ensures
            r@ == description_of(*self),
    {
        match self {
            FIXChecksumValidatorError::InvalidEmptyMessage => "Invalid empty message.",
            FIXChecksumValidatorError::ChecksumFieldNotFound => "Checksum field not found.",
            FIXChecksumValidatorError::ChecksumFieldInvalidFormat =>
                "Checksum value invalid format (parse error).",
        }
    }
}

/// The SOH byte that closes every field.
pub const FIX_MESSAGE_DELIMITER: u8 = 1;

/// The bytes of the checksum tag and its `=`: `10=`.
pub open spec fn checksum_tag() -> Seq<u8> {
    seq![0x31u8, 0x30u8, 0x3du8]
}

/// At index `i` of `s` stands a delimiter followed by `10=`.
pub open spec fn tag_at(s: Seq<u8>, i: int) -> bool {
    &&& 0 <= i
    &&& i + 4 <= s.len()
    &&& s[i] == FIX_MESSAGE_DELIMITER
    &&& s[i + 1] == checksum_tag()[0]
    &&& s[i + 2] == checksum_tag()[1]
    &&& s[i + 3] == checksum_tag()[2]
}

/// Some delimiter in `s` opens a checksum tag.
pub open spec fn has_tag(s: Seq<u8>) -> bool {
    exists|i: int| #[trigger] tag_at(s, i)
}

/// `i` is where the first checksum tag of `s` opens.
pub open spec fn is_first_tag(s: Seq<u8>, i: int) -> bool {
    &&& tag_at(s, i)
    &&& forall|j: int| 0 <= j < i ==> !#[trigger] tag_at(s, j)
}

/// The index at which the first checksum tag of `s` opens (for `s` with a tag).
pub open spec fn first_tag(s: Seq<u8>) -> int {
    choose|i: int| is_first_tag(s, i)
}

/// The byte is an ASCII decimal digit.
pub open spec fn is_digit(b: u8) -> bool {
    0x30 <= b <= 0x39
}

/// The three bytes from `k` on exist and are decimal digits.
pub open spec fn digits_at(s: Seq<u8>, k: int) -> bool {
    &&& 0 <= k
    &&& k + 3 <= s.len()
    &&& is_digit(s[k])
    &&& is_digit(s[k + 1])
    &&& is_digit(s[k + 2])
}

/// The number that the three digits from `k` on write.
pub open spec fn digits_value(s: Seq<u8>, k: int) -> nat {
    (100 * (s[k] - 0x30) + 10 * (s[k + 1] - 0x30) + (s[k + 2] - 0x30)) as nat
}

/// What checking the message with bytes `s` gives: the first checksum tag that
/// a delimiter opens splits `s` into the covered span (up to and including
/// that delimiter) and the field, whose three digits must equal the checksum
/// of the span.
pub open spec fn validation(s: Seq<u8>) -> Result<bool, FIXChecksumValidatorError> {
    if s.len() == 0 {
        Err(FIXChecksumValidatorError::InvalidEmptyMessage)
    } else if !has_tag(s) {
        Err(FIXChecksumValidatorError::ChecksumFieldNotFound)
    } else {
        let i = first_tag(s);
        if digits_at(s, i + 4) {
            Ok(digits_value(s, i + 4) == checksum_of(s.subrange(0, i + 1)))
        } else {
            Err(FIXChecksumValidatorError::ChecksumFieldInvalidFormat)
        }
    }
}

/// The bytes of a text made of ASCII characters.
pub open spec fn ascii_bytes(t: Seq<char>) -> Seq<u8> {
    t.map_values(|c: char| c as u8)
}

/// `body` followed by a checksum field holding `value`: the tag `10=`, the
/// value, and a closing delimiter.
pub open spec fn closed_message(body: Seq<u8>, value: Seq<u8>) -> Seq<u8> {
    body + checksum_tag() + value + seq![FIX_MESSAGE_DELIMITER]
}

/// A body ready for its checksum field: not empty, ending in a delimiter, and
/// holding no checksum tag of its own.
pub open spec fn is_open_body(body: Seq<u8>) -> bool {
    &&& body.len() > 0
    &&& body.last() == FIX_MESSAGE_DELIMITER
    &&& !has_tag(body)
}

proof fn lemma_digit_char_byte(d: nat)
    requires
        d < 10,
    ensures
        digit_char(d) as u8 == 0x30 + d,
{
    if d == 0 {} else if d == 1 {} else if d == 2 {} else if d == 3 {} else if d == 4 {
    } else if d == 5 {} else if d == 6 {} else if d == 7 {} else if d == 8 {} else {}
}

/// The three-digit text of a number below 1000 is three digits that write it.
proof fn lemma_checksum_text_digits(n: nat)
    requires
        n < 1000,
    ensures
        ascii_bytes(checksum_text(n)).len() == 3,
        digits_at(ascii_bytes(checksum_text(n)), 0),
        digits_value(ascii_bytes(checksum_text(n)), 0) == n,
{
    lemma_digit_char_byte((n / 100) % 10);
    lemma_digit_char_byte((n / 10) % 10);
    lemma_digit_char_byte(n % 10);
    let t = ascii_bytes(checksum_text(n));
    assert(t[0] == 0x30 + (n / 100) % 10);
    assert(t[1] == 0x30 + (n / 10) % 10);
    assert(t[2] == 0x30 + n % 10);
}

/// Three digits are the three-digit text of the number they write.
proof fn lemma_digits_are_checksum_text(v: Seq<u8>)
    requires
        v.len() == 3,
        digits_at(v, 0),
    ensures
        ascii_bytes(checksum_text(digits_value(v, 0))) == v,
{
    let n = digits_value(v, 0);
    let (a, b, c) = ((v[0] - 0x30) as nat, (v[1] - 0x30) as nat, (v[2] - 0x30) as nat);
    assert(n == 100 * a + 10 * b + c);
    assert(n / 100 == a && (n / 10) % 10 == b && n % 10 == c) by (nonlinear_arith)
        requires
            n == 100 * a + 10 * b + c,
            a < 10,
            b < 10,
            c < 10,
    ;
    lemma_checksum_text_digits(n);
    assert(ascii_bytes(checksum_text(n)) =~= v);
}

/// In a closed message, the delimiter that ends the body opens the first tag.
proof fn lemma_closed_message_first_tag(body: Seq<u8>, value: Seq<u8>)
    requires
        is_open_body(body),
        value.len() == 3,
    ensures
        has_tag(closed_message(body, value)),
        first_tag(closed_message(body, value)) == body.len() - 1,
        closed_message(body, value).subrange(0, body.len() as int) == body,
        digits_at(closed_message(body, value), body.len() + 3int) == digits_at(value, 0),
        digits_value(closed_message(body, value), body.len() + 3int) == digits_value(value, 0),
{
    let s = closed_message(body, value);
    let n = body.len() as int;
    assert(tag_at(s, n - 1));
    assert forall|j: int| 0 <= j < n - 1 implies !#[trigger] tag_at(s, j) by {
        if j + 4 <= n {
            if tag_at(s, j) {
                assert(tag_at(body, j));
            }
        }
    }
    let f = first_tag(s);
    assert(is_first_tag(s, n - 1));
    assert(is_first_tag(s, f));
    assert(s.subrange(0, n) =~= body);
    assert(s[n + 3] == value[0] && s[n + 4] == value[1] && s[n + 5] == value[2]);
}

/// A message with no checksum tag opened by a delimiter is refused as having
/// no checksum field, whatever else it holds.
pub proof fn lemma_missing_tag_not_found(m: Seq<u8>)
    requires
        m.len() > 0,
        !has_tag(m),
    ensures
        validation(m) == Err::<bool, FIXChecksumValidatorError>(
            FIXChecksumValidatorError::ChecksumFieldNotFound,
        ),
{
}

/// Closing a body with the checksum field that `generate` writes for it gives
/// a message that checks as correct.
pub proof fn lemma_generate_then_validate(body: Seq<u8>)
    requires
        is_open_body(body),
    ensures
        validation(closed_message(body, ascii_bytes(checksum_text(checksum_of(body)))))
            == Ok::<bool, FIXChecksumValidatorError>(true),
{
    let value = ascii_bytes(checksum_text(checksum_of(body)));
    lemma_checksum_text_digits(checksum_of(body));
    lemma_closed_message_first_tag(body, value);
}

/// A checksum field whose three bytes are not all decimal digits is refused as
/// badly formatted.
pub proof fn lemma_non_digit_value_invalid(body: Seq<u8>, value: Seq<u8>)
    requires
        is_open_body(body),
        value.len() == 3,
        !digits_at(value, 0),
    ensures
        validation(closed_message(body, value)) == Err::<bool, FIXChecksumValidatorError>(
            FIXChecksumValidatorError::ChecksumFieldInvalidFormat,
        ),
{
    lemma_closed_message_first_tag(body, value);
}

/// A checksum field of three digits other than those `generate` writes for
/// the body checks as wrong, not as an error.
pub proof fn lemma_wrong_value_mismatch(body: Seq<u8>, value: Seq<u8>)
    requires
        is_open_body(body),
        value.len() == 3,
        digits_at(value, 0),
        value != ascii_bytes(checksum_text(checksum_of(body))),
    ensures
        validation(closed_message(body, value)) == Ok::<bool, FIXChecksumValidatorError>(false),
{
    lemma_closed_message_first_tag(body, value);
    lemma_digits_are_checksum_text(value);
}

/// The index of the first checksum tag in `bytes`, if there is one.
fn find_checksum_tag(bytes: &[u8]) -> (r: Option<usize>)
    ensures
        match r {
            Some(i) => is_first_tag(bytes@, i as int),
            None => !has_tag(bytes@),
        },
{
    if bytes.len() < 4 {
        return None;
    }
    let last: usize = bytes.len() - 4;
    let mut i: usize = 0;
    while i <= last
        invariant
            last + 4 == bytes@.len(),
            i <= last + 1,
            forall|j: int| 0 <= j < i ==> !#[trigger] tag_at(bytes@, j),
        decreases last + 1 - i,
    {
        if bytes[i] == FIX_MESSAGE_DELIMITER && bytes[i + 1] == 0x31 && bytes[i + 2] == 0x30
            && bytes[i + 3] == 0x3d {
            return Some(i);
        }
        i = i + 1;
    }
    None
}

/// The number written by the three bytes from `start` on, if they exist and
/// are all decimal digits.
fn parse_three_digits(bytes: &[u8], start: usize) -> (r: Option<u32>)
    ensures
        r == (if digits_at(bytes@, start as int) {
            Some(digits_value(bytes@, start as int) as u32)
        } else {
            None::<u32>
        }),
{
    if bytes.len() < 3 || start > bytes.len() - 3 {
        return None;
    }
    let (a, b, c) = (bytes[start], bytes[start + 1], bytes[start + 2]);
    if a < 0x30 || a > 0x39 || b < 0x30 || b > 0x39 || c < 0x30 || c > 0x39 {
        return None;
    }
    Some(100 * (a - 0x30) as u32 + 10 * (b - 0x30) as u32 + (c - 0x30) as u32)
}

/// Checks the checksum field of an inbound message. The first checksum tag
/// that a delimiter opens marks the field; the message is checked when the
/// three bytes after the tag are decimal digits, and then the result tells
/// whether they equal the checksum of every byte up to and including that
/// delimiter.
pub fn validate(inbound_message: &str) -> (r: Result<bool, FIXChecksumValidatorError>)
    ensures
        r == validation(inbound_message.spec_bytes()),
{
    let bytes = inbound_message.as_bytes();
    if bytes.len() == 0 {
        return Err(FIXChecksumValidatorError::InvalidEmptyMessage);
    }
    let tail_start = match find_checksum_tag(bytes) {
        Some(i) => i,
        None => return Err(FIXChecksumValidatorError::ChecksumFieldNotFound),
    };
    proof {
        assert(is_first_tag(bytes@, first_tag(bytes@)));
        assert(first_tag(bytes@) == tail_start as int);
    }
    let split_index = tail_start + 1;
    let stated = match parse_three_digits(bytes, split_index + 3) {
        Some(v) => v,
        None => return Err(FIXChecksumValidatorError::ChecksumFieldInvalidFormat),
    };
    let expected = span_checksum(bytes, split_index);
    Ok(stated == expected)
}

} // verus!
