//! Text helpers: the lossy UTF-8 view of raw label bytes, and exact
//! decimal and hexadecimal renderings used when records are displayed.

use vstd::prelude::*;
use vstd::utf8::decode_utf8;
use vstd::utf8::encode_utf8;
use vstd::utf8::encode_utf8_decode_utf8;
use vstd::utf8::encode_utf8_valid_utf8;
use vstd::utf8::is_ascii_chars;
use vstd::utf8::is_ascii_chars_encode_utf8;
use vstd::utf8::valid_utf8;

verus! {

/// The character sequence that lossy UTF-8 decoding produces from a byte
/// sequence.  Valid UTF-8 passes through unchanged (see [`utf8_lossy`]);
/// for invalid sequences the exact result is not modelled here.
pub uninterp spec fn utf8_lossy_of(bytes: Seq<u8>) -> Seq<char>;

/// Relies on `String::from_utf8_lossy`: the result is a function of the
/// input bytes alone; a byte slice that is valid UTF-8 is returned
/// unchanged; invalid sequences are replaced by replacement characters, so
/// a non-empty input always yields a non-empty string.
#[verifier::external_body]
pub(crate) fn utf8_lossy(bytes: &Vec<u8>) -> (r: String)
    ensures
        r@ == utf8_lossy_of(bytes@),
        valid_utf8(bytes@) ==> r@ == decode_utf8(bytes@),
        bytes@.len() > 0 ==> r@.len() > 0,
{
    String::from_utf8_lossy(bytes).into_owned()
}

/// Whether every byte is ASCII.
pub open spec fn ascii_bytes(bytes: Seq<u8>) -> bool {
    forall|i: int| 0 <= i < bytes.len() ==> bytes[i] < 128
}

/// The characters that a sequence of ASCII bytes stands for, one character
/// per byte.
pub open spec fn ascii_chars_of(bytes: Seq<u8>) -> Seq<char> {
    Seq::new(bytes.len(), |i: int| bytes[i] as char)
}

/// A sequence of ASCII bytes is valid UTF-8 and decodes to exactly one
/// character per byte.
pub proof fn lemma_ascii_decode(b: Seq<u8>)
    requires
        ascii_bytes(b),
    ensures
        valid_utf8(b),
        decode_utf8(b) == ascii_chars_of(b),
{
    let cs = ascii_chars_of(b);
    assert(is_ascii_chars(cs));
    is_ascii_chars_encode_utf8(cs);
    assert(encode_utf8(cs) =~= b);
    encode_utf8_valid_utf8(cs);
    encode_utf8_decode_utf8(cs);
}

/// The decimal digit character for a value below ten.
pub open spec fn spec_dec_digit(d: nat) -> char {
    if d == 0 {
        '0'
    } else if d == 1 {
        '1'
    } else if d == 2 {
        '2'
    } else if d == 3 {
        '3'
    } else if d == 4 {
        '4'
    } else if d == 5 {
        '5'
    } else if d == 6 {
        '6'
    } else if d == 7 {
        '7'
    } else if d == 8 {
        '8'
    } else {
        '9'
    }
}

/// The usual decimal rendering of a number: most significant digit first,
/// no leading zeroes (zero itself renders as "0").
pub open spec fn spec_dec_chars(n: nat) -> Seq<char>
    decreases n,
{
    if n < 10 {
        seq![spec_dec_digit(n)]
    } else {
        spec_dec_chars(n / 10).push(spec_dec_digit(n % 10))
    }
}

fn dec_digit_str(d: u32) -> (r: &'static str)
    requires
        d < 10,
    ensures
        r@ == seq![spec_dec_digit(d as nat)],
{
    proof {
        reveal_strlit("0");
        reveal_strlit("1");
        reveal_strlit("2");
        reveal_strlit("3");
        reveal_strlit("4");
        reveal_strlit("5");
        reveal_strlit("6");
        reveal_strlit("7");
        reveal_strlit("8");
        reveal_strlit("9");
    }
    match d {
        0u32 => "0",
        1u32 => "1",
        2u32 => "2",
        3u32 => "3",
        4u32 => "4",
        5u32 => "5",
        6u32 => "6",
        7u32 => "7",
        8u32 => "8",
        _ => "9",
    }
}

/// Renders a number in decimal, exactly as [`spec_dec_chars`] describes.
pub fn dec_string(n: u32) -> (s: String)
    ensures
        s@ == spec_dec_chars(n as nat),
    decreases n,
{
    if n < 10 {
        String::from_str(dec_digit_str(n))
    } else {
        let mut s = dec_string(n / 10);
        s.append(dec_digit_str(n % 10));
        proof {
            assert(s@ =~= spec_dec_chars(n as nat));
        }
        s
    }
}

/// The bytes `bs[i..]` rendered in decimal and joined by ", ".
pub open spec fn spec_byte_list(bs: Seq<u8>, i: int) -> Seq<char>
    decreases bs.len() - i,
{
    if i < 0 || i >= bs.len() {
        Seq::empty()
    } else if i == bs.len() - 1 {
        spec_dec_chars(bs[i] as nat)
    } else {
        spec_dec_chars(bs[i] as nat) + seq![',', ' '] + spec_byte_list(bs, i + 1)
    }
}

/// The debug-style rendering of raw bytes used for record types without a
/// semantic payload: the decimal bytes bracketed and double-quoted, e.g.
/// `"[6, 112, 105]"`.
pub open spec fn spec_quoted_bytes(bs: Seq<u8>) -> Seq<char> {
    seq!['"', '['] + spec_byte_list(bs, 0) + seq![']', '"']
}

fn byte_list_from(bs: &Vec<u8>, i: usize) -> (s: String)
    requires
        i <= bs@.len(),
    ensures
        s@ == spec_byte_list(bs@, i as int),
    decreases bs@.len() - i,
{
    proof {
        reveal_strlit(", ");
    }
    if i >= bs.len() {
        String::new()
    } else if i == bs.len() - 1 {
        dec_string(bs[i] as u32)
    } else {
        let mut s = dec_string(bs[i] as u32);
        s.append(", ");
        let rest = byte_list_from(bs, i + 1);
        s.append(rest.as_str());
        proof {
            assert(", "@ =~= seq![',', ' ']);
            assert(s@ =~= spec_byte_list(bs@, i as int));
        }
        s
    }
}

/// Renders raw bytes exactly as [`spec_quoted_bytes`] describes.
pub fn quoted_bytes(bs: &Vec<u8>) -> (s: String)
    ensures
        s@ == spec_quoted_bytes(bs@),
{
    proof {
        reveal_strlit("\"[");
        reveal_strlit("]\"");
    }
    let mut s = String::from_str("\"[");
    let inner = byte_list_from(bs, 0);
    s.append(inner.as_str());
    s.append("]\"");
    proof {
        assert("\"["@ =~= seq!['"', '[']);
        assert("]\""@ =~= seq![']', '"']);
        assert(s@ =~= spec_quoted_bytes(bs@));
    }
    s
}

/// The lowercase hexadecimal digit character for a value below sixteen.
pub open spec fn spec_hex_digit(d: nat) -> char {
    if d < 10 {
        spec_dec_digit(d)
    } else if d == 10 {
        'a'
    } else if d == 11 {
        'b'
    } else if d == 12 {
        'c'
    } else if d == 13 {
        'd'
    } else if d == 14 {
        'e'
    } else {
        'f'
    }
}

/// The lowercase hexadecimal rendering of a number, most significant digit
/// first, no leading zeroes (zero itself renders as "0").
pub open spec fn spec_hex_chars(n: nat) -> Seq<char>
    decreases n,
{
    if n < 16 {
        seq![spec_hex_digit(n)]
    } else {
        spec_hex_chars(n / 16).push(spec_hex_digit(n % 16))
    }
}

fn hex_digit_str(d: u32) -> (r: &'static str)
    requires
        d < 16,
    ensures
        r@ == seq![spec_hex_digit(d as nat)],
{
    proof {
        reveal_strlit("a");
        reveal_strlit("b");
        reveal_strlit("c");
        reveal_strlit("d");
        reveal_strlit("e");
        reveal_strlit("f");
    }
    if d < 10 {
        dec_digit_str(d)
    } else {
        match d {
            10u32 => "a",
            11u32 => "b",
            12u32 => "c",
            13u32 => "d",
            14u32 => "e",
            _ => "f",
        }
    }
}

/// Renders a number in lowercase hexadecimal, exactly as
/// [`spec_hex_chars`] describes.
pub fn hex_string(n: u16) -> (s: String)
    ensures
        s@ == spec_hex_chars(n as nat),
    decreases n,
{
    if n < 16 {
        String::from_str(hex_digit_str(n as u32))
    } else {
        let mut s = hex_string(n / 16);
        s.append(hex_digit_str((n % 16) as u32));
        proof {
            assert(s@ =~= spec_hex_chars(n as nat));
        }
        s
    }
}

} // verus!
