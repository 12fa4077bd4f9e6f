//! Percent coding of paths in request targets.
use crate::text;
use crate::text::utf8_text;
use vstd::prelude::*;
use vstd::string::*;
use vstd::utf8::*;

verus! {

/// The value of a hexadecimal digit.
pub open spec fn hex_value(digit: u8) -> Option<u8> {
    if 48 <= digit <= 57 {
        Some((digit - 48) as u8)
    } else if 65 <= digit <= 70 {
        Some((digit - 55) as u8)
    } else if 97 <= digit <= 102 {
        Some((digit - 87) as u8)
    } else {
        None
    }
}

fn hex_digit_value(digit: u8) -> (value: Option<u8>)
    ensures
        value == hex_value(digit),
{
    if 48 <= digit && digit <= 57 {
        Some(digit - 48)
    } else if 65 <= digit && digit <= 70 {
        Some(digit - 55)
    } else if 97 <= digit && digit <= 102 {
        Some(digit - 87)
    } else {
        None
    }
}

/// Whether the bytes start with a percent sign and two hexadecimal digits.
pub open spec fn starts_with_escape(bytes: Seq<u8>) -> bool {
    bytes.len() >= 3 && bytes[0] == 37 && hex_value(bytes[1]) is Some && hex_value(bytes[2]) is Some
}

/// The bytes with every escape replaced by the byte that it stands for.
pub open spec fn percent_decoded(bytes: Seq<u8>) -> Seq<u8>
    decreases bytes.len(),
{
    if bytes.len() == 0 {
        Seq::empty()
    } else if starts_with_escape(bytes) {
        seq![(hex_value(bytes[1])->0 * 16 + hex_value(bytes[2])->0) as u8] + percent_decoded(
            bytes.subrange(3, bytes.len() as int),
        )
    } else {
        seq![bytes[0]] + percent_decoded(bytes.subrange(1, bytes.len() as int))
    }
}

fn percent_decode(bytes: &[u8]) -> (decoded: Vec<u8>)
    ensures
        decoded@ == percent_decoded(bytes@),
{
    let mut decoded: Vec<u8> = Vec::new();
    let mut index: usize = 0;
    assert(bytes@.subrange(0, bytes@.len() as int) =~= bytes@);
    assert(Seq::<u8>::empty() + percent_decoded(bytes@) =~= percent_decoded(bytes@));
    while index < bytes.len()
        invariant
            index <= bytes@.len(),
            decoded@ + percent_decoded(bytes@.subrange(index as int, bytes@.len() as int))
                == percent_decoded(bytes@),
        decreases bytes@.len() - index,
    {
        let ghost rest = bytes@.subrange(index as int, bytes@.len() as int);
        let ghost before = decoded@;
        if bytes.len() - index >= 3 && bytes[index] == 37 {
            if let (Some(high), Some(low)) = (
                hex_digit_value(bytes[index + 1]),
                hex_digit_value(bytes[index + 2]),
            ) {
                assert(starts_with_escape(rest));
                decoded.push(high * 16 + low);
                index += 3;
                assert(rest.subrange(3, rest.len() as int) =~= bytes@.subrange(
                    index as int,
                    bytes@.len() as int,
                ));
                assert(decoded@ + percent_decoded(rest.subrange(3, rest.len() as int)) =~= before
                    + percent_decoded(rest));
                continue ;
            }
        }
        assert(!starts_with_escape(rest));
        decoded.push(bytes[index]);
        index += 1;
        assert(rest.subrange(1, rest.len() as int) =~= bytes@.subrange(
            index as int,
            bytes@.len() as int,
        ));
        assert(decoded@ + percent_decoded(rest.subrange(1, rest.len() as int)) =~= before
            + percent_decoded(rest));
    }
    assert(bytes@.subrange(bytes@.len() as int, bytes@.len() as int) =~= Seq::empty());
    assert(decoded@ + Seq::empty() =~= decoded@);
    decoded
}

/// The text that a request target stands for, if its bytes are valid UTF-8.
pub open spec fn decoded_uri(raw: Seq<char>) -> Option<Seq<char>> {
    let bytes = percent_decoded(encode_utf8(raw));
    if valid_utf8(bytes) {
        Some(decode_utf8(bytes))
    } else {
        None
    }
}

/// Decodes a request target.
pub fn decode_uri(raw: &str) -> (decoded: Option<String>)
    ensures
        decoded is Some <==> decoded_uri(raw@) is Some,
        decoded matches Some(decoded) ==> decoded_uri(raw@) == Some(decoded@),
{
    let bytes = percent_decode(raw.as_bytes());
    utf8_text(bytes.as_slice())
}

/// The bytes that stand for themselves in an encoded path.
pub open spec fn is_plain_byte(byte: u8) -> bool {
    ||| 48 <= byte <= 57
    ||| 65 <= byte <= 90
    ||| 97 <= byte <= 122
    ||| byte == 45
    ||| byte == 46
    ||| byte == 47
    ||| byte == 95
    ||| byte == 126
}

pub open spec fn upper_hex(number: u8) -> char {
    if number < 10 {
        (48 + number) as char
    } else {
        (55 + number) as char
    }
}

pub open spec fn encoded_byte(byte: u8) -> Seq<char> {
    if is_plain_byte(byte) {
        seq![byte as char]
    } else {
        seq!['%', upper_hex((byte / 16) as u8), upper_hex((byte % 16) as u8)]
    }
}

/// The canonical encoding of a path: slashes and unreserved characters as they
/// are, everything else escaped in upper case.
pub open spec fn percent_encoded(bytes: Seq<u8>) -> Seq<char>
    decreases bytes.len(),
{
    if bytes.len() == 0 {
        Seq::empty()
    } else {
        percent_encoded(bytes.drop_last()) + encoded_byte(bytes.last())
    }
}

/// The upper-case hexadecimal digit of a number below sixteen.
pub fn upper_hex_character(number: u8) -> (digit: char)
    requires
        number < 16,
    ensures
        digit == upper_hex(number),
{
    if number < 10 {
        (48u8 + number) as char
    } else {
        (55u8 + number) as char
    }
}

/// Encodes a path canonically.
pub fn encode_uri(path: &str) -> (encoded: String)
    ensures
        encoded@ == percent_encoded(encode_utf8(path@)),
{
    let bytes = path.as_bytes();
    let mut encoded = String::new();
    let mut index: usize = 0;
    while index < bytes.len()
        invariant
            index <= bytes@.len(),
            encoded@ == percent_encoded(bytes@.subrange(0, index as int)),
        decreases bytes@.len() - index,
    {
        let ghost longer = bytes@.subrange(0, index + 1);
        assert(longer.drop_last() =~= bytes@.subrange(0, index as int));
        let byte = bytes[index];
        if (48 <= byte && byte <= 57) || (65 <= byte && byte <= 90) || (97 <= byte && byte <= 122)
            || byte == 45 || byte == 46 || byte == 47 || byte == 95 || byte == 126 {
            encoded.push(byte as char);
        } else {
            encoded.push('%');
            encoded.push(upper_hex_character(byte / 16));
            encoded.push(upper_hex_character(byte % 16));
        }
        index += 1;
        assert(encoded@ =~= percent_encoded(longer));
    }
    assert(bytes@.subrange(0, bytes@.len() as int) =~= bytes@);
    encoded
}

/// The bytes of a text of ASCII characters.
spec fn ascii_bytes(text: Seq<char>) -> Seq<u8> {
    Seq::new(text.len(), |i: int| text[i] as u8)
}

proof fn lemma_encoding_is_ascii(bytes: Seq<u8>)
    ensures
        is_ascii_chars(percent_encoded(bytes)),
    decreases bytes.len(),
{
    if bytes.len() > 0 {
        lemma_encoding_is_ascii(bytes.drop_last());
        assert(is_ascii_chars(encoded_byte(bytes.last())));
        let front = percent_encoded(bytes.drop_last());
        let whole = percent_encoded(bytes);
        assert forall|i: int| 0 <= i < whole.len() implies 0 <= (#[trigger] whole[i]) as nat
            && (whole[i] as nat) < 128 by {
            if i < front.len() {
                assert(whole[i] == front[i]);
            } else {
                assert(whole[i] == encoded_byte(bytes.last())[i - front.len()]);
            }
        }
    }
}

proof fn lemma_encoding_from_the_front(bytes: Seq<u8>)
    requires
        bytes.len() > 0,
    ensures
        percent_encoded(bytes) == encoded_byte(bytes[0]) + percent_encoded(bytes.drop_first()),
    decreases bytes.len(),
{
    if bytes.len() == 1 {
        assert(bytes.drop_last() =~= Seq::empty());
        assert(bytes.drop_first() =~= Seq::empty());
        assert(percent_encoded(bytes) =~= encoded_byte(bytes[0]) + percent_encoded(
            bytes.drop_first(),
        ));
    } else {
        lemma_encoding_from_the_front(bytes.drop_last());
        assert(bytes.drop_last().drop_first() =~= bytes.drop_first().drop_last());
        assert(bytes.drop_first().last() == bytes.last());
        assert(percent_encoded(bytes) =~= encoded_byte(bytes[0]) + percent_encoded(
            bytes.drop_first(),
        ));
    }
}

proof fn lemma_escape_of_a_byte(byte: u8)
    requires
        !is_plain_byte(byte),
    ensures
        ({
            let escape = ascii_bytes(encoded_byte(byte));
            &&& escape.len() == 3
            &&& starts_with_escape(escape)
            &&& hex_value(escape[1])->0 * 16 + hex_value(escape[2])->0 == byte
        }),
{
}

proof fn lemma_decoding_undoes_encoding(bytes: Seq<u8>)
    ensures
        percent_decoded(ascii_bytes(percent_encoded(bytes))) == bytes,
    decreases bytes.len(),
{
    let encoded = ascii_bytes(percent_encoded(bytes));
    if bytes.len() == 0 {
        assert(percent_decoded(encoded) =~= bytes);
    } else {
        lemma_encoding_from_the_front(bytes);
        lemma_decoding_undoes_encoding(bytes.drop_first());
        let rest = ascii_bytes(percent_encoded(bytes.drop_first()));
        let first = ascii_bytes(encoded_byte(bytes[0]));
        assert(encoded =~= first + rest);
        if is_plain_byte(bytes[0]) {
            assert(first[0] == bytes[0]);
            assert(!starts_with_escape(encoded));
            assert(encoded.subrange(1, encoded.len() as int) =~= rest);
        } else {
            lemma_escape_of_a_byte(bytes[0]);
            assert(encoded[0] == first[0] && encoded[1] == first[1] && encoded[2] == first[2]);
            assert(starts_with_escape(encoded));
            assert(encoded.subrange(3, encoded.len() as int) =~= rest);
        }
        assert(percent_decoded(encoded) =~= bytes);
    }
}

/// Decoding the canonical encoding of a path, behind a slash, gives back the
/// path behind a slash.
pub proof fn law_decoding_undoes_encoding(path: Seq<char>)
    ensures
        decoded_uri("/"@ + percent_encoded(encode_utf8(path))) == Some("/"@ + path),
{
    let bytes = encode_utf8(path);
    let slashed = "/"@ + path;
    reveal_strlit("/");
    encode_utf8_valid_utf8(slashed);
    encode_utf8_decode_utf8(slashed);
    assert(encode_utf8(slashed) =~= seq![47u8] + bytes) by {
        assert(slashed.drop_first() =~= path);
        reveal_with_fuel(encode_utf8, 2);
        assert(encode_scalar('/' as u32) =~= seq![47u8]) by {
            assert(((47u32 & 0x7F) as u8) == 47u8) by (bit_vector);
        }
    }
    let encoded = "/"@ + percent_encoded(bytes);
    lemma_encoding_from_the_front(encode_utf8(slashed));
    assert(encode_utf8(slashed).drop_first() =~= bytes);
    assert(encoded =~= percent_encoded(encode_utf8(slashed)));
    lemma_encoding_is_ascii(encode_utf8(slashed));
    is_ascii_chars_encode_utf8(encoded);
    assert(encode_utf8(encoded) =~= ascii_bytes(encoded));
    lemma_decoding_undoes_encoding(encode_utf8(slashed));
}

/// The digits of an escape are those of a hexadecimal number, in either case.
pub proof fn law_escapes_have_hexadecimal_digits(digit: u8)
    ensures
        48 <= digit <= 57 ==> hex_value(digit) == Some((digit - 48) as u8),
        65 <= digit <= 70 ==> hex_value(digit) == Some((digit - 65 + 10) as u8),
        97 <= digit <= 102 ==> hex_value(digit) == Some((digit - 97 + 10) as u8),
        !(48 <= digit <= 57 || 65 <= digit <= 70 || 97 <= digit <= 102) ==> hex_value(digit)
            is None,
{
}

/// Each escape stands for one byte, wherever it stands; every other byte stands for
/// itself, a percent sign without two digits behind it too.
pub proof fn law_escapes_stand_for_bytes(before: Seq<u8>, high: u8, low: u8, after: Seq<u8>)
    requires
        !before.contains(37u8),
    ensures
        percent_decoded(before) == before,
        hex_value(high) is Some && hex_value(low) is Some ==> percent_decoded(
            before + seq![37u8, high, low] + after,
        ) == before + seq![(hex_value(high)->0 * 16 + hex_value(low)->0) as u8]
            + percent_decoded(after),
        hex_value(high) is None || hex_value(low) is None ==> percent_decoded(
            before + seq![37u8, high, low] + after,
        ) == before + seq![37u8] + percent_decoded(seq![high, low] + after),
        percent_decoded(before + after) == before + percent_decoded(after),
    decreases before.len(),
{
    let escape = seq![37u8, high, low];
    let text = before + escape + after;
    if before.len() == 0 {
        assert(text =~= escape + after);
        assert(before + after =~= after);
        assert(before + percent_decoded(after) =~= percent_decoded(after));
        assert(text[0] == 37u8 && text[1] == high && text[2] == low);
        if starts_with_escape(text) {
            assert(text.subrange(3, text.len() as int) =~= after);
            assert(percent_decoded(text) =~= before + seq![
                (hex_value(high)->0 * 16 + hex_value(low)->0) as u8,
            ] + percent_decoded(after));
        } else {
            assert(text.subrange(1, text.len() as int) =~= seq![high, low] + after);
            assert(percent_decoded(text) =~= before + seq![37u8] + percent_decoded(
                seq![high, low] + after,
            ));
        }
    } else {
        let rest = before.drop_first();
        assert(before.contains(before[0]));
        assert forall|i: int| 0 <= i < rest.len() implies rest[i] != 37u8 by {
            assert(before.contains(before[i + 1]));
        }
        law_escapes_stand_for_bytes(rest, high, low, after);
        assert(before.subrange(1, before.len() as int) =~= rest);
        assert(text.subrange(1, text.len() as int) =~= rest + escape + after);
        assert((before + after).subrange(1, (before + after).len() as int) =~= rest + after);
        assert(seq![before[0]] + rest =~= before);
        assert(percent_decoded(before + after) =~= before + percent_decoded(after));
        if hex_value(high) is Some && hex_value(low) is Some {
            assert(percent_decoded(text) =~= before + seq![
                (hex_value(high)->0 * 16 + hex_value(low)->0) as u8,
            ] + percent_decoded(after));
        } else {
            assert(percent_decoded(text) =~= before + seq![37u8] + percent_decoded(
                seq![high, low] + after,
            ));
        }
    }
}

/// Paths are encoded byte by byte: letters, digits, slashes and four signs stay, and
/// every other byte is a percent sign and two hexadecimal digits in upper case.
pub proof fn law_bytes_are_encoded_one_by_one(left: Seq<u8>, right: Seq<u8>, byte: u8)
    ensures
        percent_encoded(left + right) == percent_encoded(left) + percent_encoded(right),
        percent_encoded(seq![byte]) == encoded_byte(byte),
        'a' as int <= byte <= 'z' as int || 'A' as int <= byte <= 'Z' as int || '0' as int <= byte
            <= '9' as int || byte == '-' as int || byte == '.' as int || byte == '_' as int || byte
            == '~' as int || byte == '/' as int ==> encoded_byte(byte) == seq![byte as char],
        !('a' as int <= byte <= 'z' as int || 'A' as int <= byte <= 'Z' as int || '0' as int
            <= byte <= '9' as int || byte == '-' as int || byte == '.' as int || byte
            == '_' as int || byte == '~' as int || byte == '/' as int) ==> encoded_byte(byte).len()
            == 3 && encoded_byte(byte)[0] == '%' && !('a' <= encoded_byte(byte)[1] <= 'z') && !('a'
            <= encoded_byte(byte)[2] <= 'z'),
    decreases right.len(),
{
    assert(seq![byte].drop_last() =~= Seq::empty());
    assert(percent_encoded(seq![byte].drop_last()) =~= Seq::empty());
    assert(percent_encoded(seq![byte]) =~= encoded_byte(byte));
    if right.len() == 0 {
        assert(left + right =~= left);
        assert(percent_encoded(left) + percent_encoded(right) =~= percent_encoded(left));
    } else {
        law_bytes_are_encoded_one_by_one(left, right.drop_last(), byte);
        assert((left + right).drop_last() =~= left + right.drop_last());
        assert(percent_encoded(left + right) =~= percent_encoded(left) + percent_encoded(right));
    }
}

} // verus!
