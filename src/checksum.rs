//! The checksum of a byte span and its three-digit text.

use vstd::prelude::*;
use vstd::string::StringSliceAdditionalSpecFns;
use vstd::arithmetic::div_mod::lemma_add_mod_noop;

verus! {

/// The sum of the byte values of `s`.
pub open spec fn byte_sum(s: Seq<u8>) -> nat
    decreases s.len(),
{
    if s.len() == 0 {
        0
    } else {
        byte_sum(s.drop_last()) + s.last() as nat
    }
}

/// The FIX checksum of a span: its byte sum modulo 256.
pub open spec fn checksum_of(s: Seq<u8>) -> nat {
    byte_sum(s) % 256
}

/// The decimal digit character for `d` (for `d` below ten).
pub open spec fn digit_char(d: nat) -> char {
    seq!['0', '1', '2', '3', '4', '5', '6', '7', '8', '9'][d as int]
}

/// `n` written as exactly three decimal digits, with leading zeros.
pub open spec fn checksum_text(n: nat) -> Seq<char> {
    seq![digit_char((n / 100) % 10), digit_char((n / 10) % 10), digit_char(n % 10)]
}

proof fn lemma_byte_sum_prefix_step(s: Seq<u8>, i: int)
    requires
        0 <= i < s.len(),
    ensures
        byte_sum(s.subrange(0, i + 1)) == byte_sum(s.subrange(0, i)) + s[i],
{
    assert(s.subrange(0, i + 1).drop_last() =~= s.subrange(0, i));
}

/// The byte sum of a concatenation is the sum of the byte sums.
pub proof fn lemma_byte_sum_concat(a: Seq<u8>, b: Seq<u8>)
    ensures
        byte_sum(a + b) == byte_sum(a) + byte_sum(b),
    decreases b.len(),
{
    if b.len() > 0 {
        assert((a + b).drop_last() =~= a + b.drop_last());
        lemma_byte_sum_concat(a, b.drop_last());
    } else {
        assert(a + b =~= a);
    }
}

/// The checksum of any span lies in `0..=255`.
pub proof fn lemma_checksum_in_range(m: Seq<u8>)
    ensures
        0 <= checksum_of(m) <= 255,
{
}

/// The checksum is additive modulo 256: the checksum of `a` followed by `b`
/// is the sum of their checksums, reduced modulo 256.
pub proof fn lemma_checksum_concat(a: Seq<u8>, b: Seq<u8>)
    ensures
        checksum_of(a + b) == (checksum_of(a) + checksum_of(b)) % 256,
{
    lemma_byte_sum_concat(a, b);
    lemma_add_mod_noop(byte_sum(a) as int, byte_sum(b) as int, 256);
}

/// The checksum of the first `end` bytes of `bytes`.
pub fn span_checksum(bytes: &[u8], end: usize) -> (r: u32)
    requires
        end <= bytes@.len(),
    ensures
        r == checksum_of(bytes@.subrange(0, end as int)),
        r < 256,
{
    let mut cs: u32 = 0;
    let mut i: usize = 0;
    while i < end
        invariant
            end <= bytes@.len(),
            i <= end,
            cs < 256,
            cs == checksum_of(bytes@.subrange(0, i as int)),
        decreases end - i,
    {
        proof {
            lemma_byte_sum_prefix_step(bytes@, i as int);
        }
        cs = (cs + bytes[i] as u32) % 256;
        i = i + 1;
    }
    cs
}

/// The checksum of the bytes of `message`: always below 256.
pub fn checksum(message: &str) -> (r: u32)
    ensures
        r == checksum_of(message.spec_bytes()),
        r < 256,
{
    let bytes = message.as_bytes();
    proof {
        assert(bytes@.subrange(0, bytes@.len() as int) =~= bytes@);
    }
    span_checksum(bytes, bytes.len())
}

/// The one-character text of the decimal digit `d`.
fn digit_str(d: u32) -> (r: &'static str)
    requires
        d < 10,
    ensures
        r@ == seq![digit_char(d as nat)],
{
    proof {
        reveal_strlit("0");
        reveal_strlit("1");
        reveal_strlit("2");
        reveal_strlit("3");
        reveal_strlit("4");
        reveal_strlit("5");
        reveal_strlit("6");
        reveal_strlit("7");
        reveal_strlit("8");
        reveal_strlit("9");
    }
    match d {
        0 => "0",
        1 => "1",
        2 => "2",
        3 => "3",
        4 => "4",
        5 => "5",
        6 => "6",
        7 => "7",
        8 => "8",
        _ => "9",
    }
}

/// The value of the checksum field for an outbound message body: the checksum
/// of every byte of `outbound_message`, as three zero-padded decimal digits.
pub fn generate(outbound_message: &str) -> (r: String)
    ensures
        r@ == checksum_text(checksum_of(outbound_message.spec_bytes())),
{
    let cs = checksum(outbound_message);
    let text = String::from_str(digit_str(cs / 100));
    let text = text.concat(digit_str((cs / 10) % 10));
    let text = text.concat(digit_str(cs % 10));
    proof {
        assert(text@ =~= checksum_text(cs as nat));
    }
    text
}

} // verus!
