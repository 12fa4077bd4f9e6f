//! Canonical identifiers and digests.
use crate::text::str_eq;
use vstd::arithmetic::div_mod::*;
use vstd::arithmetic::mul::*;
use vstd::arithmetic::power::*;
use vstd::prelude::*;
use vstd::string::*;

verus! {

/// The lowercase hexadecimal digit of a number below sixteen.
pub open spec fn hex_digit(number: int) -> char {
    if number < 10 {
        ('0' as int + number) as char
    } else {
        ('a' as int + number - 10) as char
    }
}

/// The places of the hyphens in the hyphenated notation.
pub open spec fn is_hyphen_place(place: int) -> bool {
    place == 8 || place == 13 || place == 18 || place == 23
}

/// The hexadecimal digits that stand before a place of the hyphenated notation.
pub open spec fn digits_before(place: int) -> int {
    if place <= 8 {
        place
    } else if place <= 13 {
        place - 1
    } else if place <= 18 {
        place - 2
    } else if place <= 23 {
        place - 3
    } else {
        place - 4
    }
}

/// The hyphenated notation of an identifier: thirty-two hexadecimal digits,
/// most significant first, in groups of eight, four, four, four and twelve.
pub open spec fn hyphenated(id: u128) -> Seq<char> {
    Seq::new(
        36,
        |place: int|
            if is_hyphen_place(place) {
                '-'
            } else {
                hex_digit((id as int / pow(16, (31 - digits_before(place)) as nat)) % 16)
            },
    )
}

/// Digits that print alike are equal.
pub proof fn lemma_hex_digit_is_injective(left: int, right: int)
    requires
        0 <= left < 16,
        0 <= right < 16,
        hex_digit(left) == hex_digit(right),
    ensures
        left == right,
{
}

proof fn lemma_low_digits(left: u128, right: u128, count: nat)
    requires
        count <= 32,
        hyphenated(left) == hyphenated(right),
    ensures
        left as int % pow(16, count) == right as int % pow(16, count),
    decreases count,
{
    if count == 0 {
        lemma_pow0(16);
    } else {
        let lower = (count - 1) as nat;
        lemma_low_digits(left, right, lower);
        let digit = 31 - lower;
        let place = if digit < 8 {
            digit
        } else if digit < 12 {
            digit + 1
        } else if digit < 16 {
            digit + 2
        } else if digit < 20 {
            digit + 3
        } else {
            digit + 4
        };
        assert(digits_before(place) == digit && !is_hyphen_place(place) && 0 <= place < 36);
        let weight = pow(16, lower);
        assert((31 - digits_before(place)) as nat == lower);
        assert(hyphenated(left)[place] == hex_digit((left as int / weight) % 16));
        assert(hyphenated(right)[place] == hex_digit((right as int / weight) % 16));
        lemma_hex_digit_is_injective(
            (left as int / weight) % 16,
            (right as int / weight) % 16,
        );
        lemma_pow_positive(16, lower);
        lemma_mod_breakdown(left as int, weight, 16);
        lemma_mod_breakdown(right as int, weight, 16);
        reveal(pow);
        lemma_mul_is_commutative(16, weight);
    }
}

/// No two identifiers have the same notation.
pub proof fn law_notations_are_unique(left: u128, right: u128)
    requires
        hyphenated(left) == hyphenated(right),
    ensures
        left == right,
{
    lemma_low_digits(left, right, 32);
    assert(pow(16, 32) == u128::MAX + 1) by {
        reveal(pow);
        reveal_with_fuel(pow, 33);
    }
    lemma_small_mod(left as nat, pow(16, 32) as nat);
    lemma_small_mod(right as nat, pow(16, 32) as nat);
}

/// The identifier that `uuid::Uuid::parse_str` reads from a text, if any.
pub uninterp spec fn parsed_uuid(notation: Seq<char>) -> Option<u128>;

/// `uuid::Uuid::parse_str`: the identifier that the text denotes in one of the
/// notations that the parser knows.
#[verifier::external_body]
fn parse_uuid(notation: &str) -> (id: Option<u128>)
    ensures
        id == parsed_uuid(notation@),
{
    uuid::Uuid::parse_str(notation).ok().map(|id| id.as_u128())
}

/// `uuid::Uuid::hyphenated`: the lowercase hyphenated notation, which
/// `uuid::Uuid::parse_str` reads back as the same identifier.
#[verifier::external_body]
pub(crate) fn hyphenated_text(id: u128) -> (notation: String)
    ensures
        notation@ == hyphenated(id),
        parsed_uuid(notation@) == Some(id),
{
    uuid::Uuid::from_u128(id).hyphenated().to_string()
}

/// The identifier that a text denotes in its canonical notation.
pub open spec fn canonical_id(notation: Seq<char>) -> Option<u128> {
    match parsed_uuid(notation) {
        Some(id) => if hyphenated(id) == notation {
            Some(id)
        } else {
            None
        },
        None => None,
    }
}

/// Reads an identifier, which must be in its canonical notation.
pub fn parse_canonical_operation_id(notation: &str) -> (id: Option<u128>)
    ensures
        id == canonical_id(notation@),
{
    match parse_uuid(notation) {
        Some(id) => {
            if str_eq(hyphenated_text(id).as_str(), notation) {
                Some(id)
            } else {
                None
            }
        },
        None => None,
    }
}

/// What `sha2::Sha256` computes of a byte string.
pub uninterp spec fn sha256(data: Seq<u8>) -> Seq<u8>;

/// `sha2::Sha256::digest` (the one-shot form of `new`, `update` and
/// `finalize`): the SHA-256 digest, thirty-two bytes.
#[verifier::external_body]
pub(crate) fn sha256_digest(data: &[u8]) -> (digest: [u8; 32])
    ensures
        digest@ == sha256(data@),
{

    <sha2::Sha256 as sha2::Digest>::digest(data).into()
}

/// The big-endian bytes of a number.
#[verifier::opaque]
pub open spec fn big_endian(number: u64) -> Seq<u8> {
    seq![
        (number as int / 0x100_0000_0000_0000 % 256) as u8,
        (number as int / 0x1_0000_0000_0000 % 256) as u8,
        (number as int / 0x100_0000_0000 % 256) as u8,
        (number as int / 0x1_0000_0000 % 256) as u8,
        (number as int / 0x100_0000 % 256) as u8,
        (number as int / 0x1_0000 % 256) as u8,
        (number as int / 0x100 % 256) as u8,
        (number as int % 256) as u8,
    ]
}

pub proof fn lemma_big_endian_length(number: u64)
    ensures
        big_endian(number).len() == 8,
{
    reveal(big_endian);
}

pub proof fn lemma_big_endian_half_length(number: u32)
    ensures
        big_endian_half(number).len() == 4,
{
    reveal(big_endian_half);
}

/// A number is the sum of its bytes, each at its weight.
proof fn lemma_big_endian_sum(number: u64)
    ensures
        ({
            let bytes = big_endian(number);
            number == bytes[0] * 0x100_0000_0000_0000 + bytes[1] * 0x1_0000_0000_0000 + bytes[2]
                * 0x100_0000_0000 + bytes[3] * 0x1_0000_0000 + bytes[4] * 0x100_0000 + bytes[5]
                * 0x1_0000 + bytes[6] * 0x100 + bytes[7]
        }),
{
    reveal(big_endian);
    let n = number as int;
    let a = n / 256;
    let b = a / 256;
    let c = b / 256;
    let d = c / 256;
    let e = d / 256;
    let f = e / 256;
    let g = f / 256;
    assert(n / 0x1_0000 == b);
    assert(n / 0x100_0000 == c);
    assert(n / 0x1_0000_0000 == d);
    assert(n / 0x100_0000_0000 == e);
    assert(n / 0x1_0000_0000_0000 == f);
    assert(n / 0x100_0000_0000_0000 == g);
}

/// Distinct numbers have distinct bytes.
pub proof fn lemma_big_endian_is_injective(left: u64, right: u64)
    requires
        big_endian(left) == big_endian(right),
    ensures
        left == right,
{
    lemma_big_endian_sum(left);
    lemma_big_endian_sum(right);
}

/// Appends the big-endian bytes of a number.
pub fn push_big_endian(output: &mut Vec<u8>, number: u64)
    ensures
        final(output)@ == old(output)@ + big_endian(number),
{
    output.push((number / 0x100_0000_0000_0000 % 256) as u8);
    output.push((number / 0x1_0000_0000_0000 % 256) as u8);
    output.push((number / 0x100_0000_0000 % 256) as u8);
    output.push((number / 0x1_0000_0000 % 256) as u8);
    output.push((number / 0x100_0000 % 256) as u8);
    output.push((number / 0x1_0000 % 256) as u8);
    output.push((number / 0x100 % 256) as u8);
    output.push((number % 256) as u8);
    assert(output@ =~= old(output)@ + big_endian(number)) by {
        reveal(big_endian);
    }
}

/// The big-endian bytes of a half-width number.
#[verifier::opaque]
pub open spec fn big_endian_half(number: u32) -> Seq<u8> {
    seq![
        (number as int / 0x100_0000 % 256) as u8,
        (number as int / 0x1_0000 % 256) as u8,
        (number as int / 0x100 % 256) as u8,
        (number as int % 256) as u8,
    ]
}

pub proof fn lemma_big_endian_half_is_injective(left: u32, right: u32)
    requires
        big_endian_half(left) == big_endian_half(right),
    ensures
        left == right,
{
    lemma_big_endian_half_sum(left);
    lemma_big_endian_half_sum(right);
}

proof fn lemma_big_endian_half_sum(number: u32)
    ensures
        ({
            let bytes = big_endian_half(number);
            number == bytes[0] * 0x100_0000 + bytes[1] * 0x1_0000 + bytes[2] * 0x100 + bytes[3]
        }),
{
    reveal(big_endian_half);
    let n = number as int;
    let a = n / 256;
    let b = a / 256;
    let c = b / 256;
    assert(n / 0x1_0000 == b);
    assert(n / 0x100_0000 == c);
}

/// Appends the big-endian bytes of a half-width number.
pub fn push_big_endian_half(output: &mut Vec<u8>, number: u32)
    ensures
        final(output)@ == old(output)@ + big_endian_half(number),
{
    output.push((number / 0x100_0000 % 256) as u8);
    output.push((number / 0x1_0000 % 256) as u8);
    output.push((number / 0x100 % 256) as u8);
    output.push((number % 256) as u8);
    assert(output@ =~= old(output)@ + big_endian_half(number)) by {
        reveal(big_endian_half);
    }
}

/// The bits of a signed number.
pub open spec fn bits_of(number: i64) -> u64 {
    number as u64
}

pub proof fn lemma_bits_are_injective(left: i64, right: i64)
    requires
        bits_of(left) == bits_of(right),
    ensures
        left == right,
{
    assert(left as u64 == right as u64 ==> left == right) by (bit_vector);
}

/// Appends the big-endian two's complement bytes of a signed number.
pub fn push_big_endian_signed(output: &mut Vec<u8>, number: i64)
    ensures
        final(output)@ == old(output)@ + big_endian(bits_of(number)),
{
    push_big_endian(output, number as u64);
}

/// Hexadecimal digits are the ten digits and the first six letters, in lower case.
pub proof fn law_hexadecimal_digits(number: int)
    ensures
        0 <= number < 10 ==> hex_digit(number) as int == '0' as int + number,
        10 <= number < 16 ==> hex_digit(number) as int == 'a' as int + (number - 10),
{
}

/// An identifier is read only from its own canonical notation, and from that wherever
/// the notation can be read as the identifier at all.
pub proof fn law_canonical_notations_are_their_own(notation: Seq<char>, id: u128)
    ensures
        canonical_id(notation) == Some(id) ==> notation == hyphenated(id),
        notation == hyphenated(id) && parsed_uuid(notation) == Some(id) ==> canonical_id(notation)
            == Some(id),
        parsed_uuid(notation) is None ==> canonical_id(notation) is None,
{
}

} // verus!
