//! Identifiers and points in time that the outside world provides.

use vstd::arithmetic::div_mod::{lemma_basic_div, lemma_div_denominator};
use vstd::arithmetic::power::{
    lemma_pow0, lemma_pow1, lemma_pow_adds, lemma_pow_multiplies, lemma_pow_positive, pow,
};
use vstd::arithmetic::power2::{lemma2_to64, lemma2_to64_rest, lemma_pow2, lemma_pow2_adds};
use vstd::prelude::*;

verus! {

/// A hexadecimal digit in lower case.
pub open spec fn hex_digit(digit: int) -> char {
    if digit < 10 {
        (48 + digit) as u8 as char
    } else {
        (87 + digit) as u8 as char
    }
}

/// The number of hyphens in front of a place in the text of a UUID.
pub open spec fn hyphens_before(place: int) -> int {
    if place < 8 {
        0
    } else if place < 13 {
        1
    } else if place < 18 {
        2
    } else if place < 23 {
        3
    } else {
        4
    }
}

/// The text of a UUID: its 32 hexadecimal digits, the most significant one first, in groups of 8,
/// 4, 4, 4 and 12 digits with hyphens in between.
pub open spec fn uuid_text(uuid: u128) -> Seq<char> {
    Seq::new(
        36,
        |place: int|
            if place == 8 || place == 13 || place == 18 || place == 23 {
                '-'
            } else {
                hex_digit(
                    (uuid as int / pow(16, (31 - (place - hyphens_before(place))) as nat)) % 16,
                )
            },
    )
}

/// The number is that of a random UUID: its version is 4 and its variant is that of RFC 9562.
pub open spec fn is_random_uuid(uuid: u128) -> bool {
    &&& (uuid as int / pow(2, 76)) % 16 == 4
    &&& (uuid as int / pow(2, 62)) % 4 == 2
}

/// Draws a random UUID with `uuid::Uuid::new_v4` and gives its 128 bits. Of the outcome only the
/// version and the variant are known.
#[verifier::external_body]
pub(crate) fn new_uuid() -> (uuid: u128)
    ensures
        is_random_uuid(uuid),
{
    uuid::Uuid::new_v4().as_u128()
}

/// The text of a UUID that is given by its 128 bits, as the `Display` of `uuid::Uuid` writes it:
/// hyphenated and in lower case.
#[verifier::external_body]
pub(crate) fn uuid_to_string(uuid: u128) -> (text: String)
    ensures
        text@ == uuid_text(uuid),
{
    uuid::Uuid::from_u128(uuid).to_string()
}

/// The text of a random UUID.
pub open spec fn is_random_uuid_text(text: Seq<char>) -> bool {
    exists|uuid: u128| #[trigger] uuid_text(uuid) == text && is_random_uuid(uuid)
}

/// Draws a random UUID and gives its text.
pub fn new_uuid_text() -> (text: String)
    ensures
        is_random_uuid_text(text@),
{
    let uuid: u128 = new_uuid();
    uuid_to_string(uuid)
}

/// A point in time, in UTC.
#[derive(Clone, Copy, Debug, PartialEq, Eq)]
pub struct Timestamp {
    pub seconds: i64,
    pub nanoseconds: u32,
}

/// The current time from `chrono::Utc::now`, which is counted from the Unix epoch. The clock of the
/// machine must not be set to a time before that, for which `now` panics.
#[verifier::external_body]
pub(crate) fn utc_now() -> (now: Timestamp)
    ensures
        now.seconds >= 0,
        now.nanoseconds < 1_000_000_000,
{
    let now = chrono::Utc::now();
    Timestamp { seconds: now.timestamp(), nanoseconds: now.timestamp_subsec_nanos() }
}

/// The text of a UUID has 36 characters, of which four are hyphens. The others are its hexadecimal digits
/// in lower case, and the first one is the most significant one.
pub proof fn law_texts_of_uuids(uuid: u128, digit: int)
    requires
        0 <= digit < 32,
    ensures
        ({
            let text = uuid_text(uuid);
            let place = if digit < 8 {
                digit
            } else if digit < 12 {
                digit + 1
            } else if digit < 16 {
                digit + 2
            } else if digit < 20 {
                digit + 3
            } else {
                digit + 4
            };
            let value = (uuid as int / pow(16, (31 - digit) as nat)) % 16;
            &&& text.len() == 36
            &&& text[8] == '-' && text[13] == '-' && text[18] == '-' && text[23] == '-'
            &&& 0 <= value < 16
            &&& value < 10 ==> text[place] as int == 48 + value
            &&& value >= 10 ==> text[place] as int == 87 + value
        }),
{
    lemma_pow_positive(16, (31 - digit) as nat);
}

/// Two UUIDs are never written in the same way.
pub proof fn law_texts_tell_uuids_apart(a: u128, b: u128)
    requires
        uuid_text(a) == uuid_text(b),
    ensures
        a == b,
{
    lemma_same_front(a, b, 32);
    lemma_pow0(16);
}

/// The first digits of two UUIDs with the same text.
proof fn lemma_same_front(a: u128, b: u128, digits: int)
    requires
        0 <= digits <= 32,
        uuid_text(a) == uuid_text(b),
    ensures
        a as int / pow(16, (32 - digits) as nat) == b as int / pow(16, (32 - digits) as nat),
    decreases digits,
{
    let rest = (32 - digits) as nat;
    lemma_pow_positive(16, rest);
    if digits == 0 {
        lemma_pow_multiplies(2, 4, 32);
        reveal_with_fuel(pow, 5);
        assert(pow(2, 4) == 16);
        lemma_pow2(128);
        lemma2_to64();
        lemma2_to64_rest();
        lemma_pow2_adds(64, 64);
        assert(pow(16, 32) == 0x1_0000_0000_0000_0000int * 0x1_0000_0000_0000_0000int);
        lemma_basic_div(a as int, pow(16, 32));
        lemma_basic_div(b as int, pow(16, 32));
    } else {
        lemma_same_front(a, b, digits - 1);
        law_texts_of_uuids(a, digits - 1);
        law_texts_of_uuids(b, digits - 1);
        let x = a as int / pow(16, rest);
        let y = b as int / pow(16, rest);
        lemma_pow_adds(16, rest, 1);
        lemma_pow1(16);
        lemma_div_denominator(a as int, pow(16, rest), 16);
        lemma_div_denominator(b as int, pow(16, rest), 16);
        assert(x / 16 == y / 16);
        assert(x % 16 == y % 16);
    }
}

/// In the text of a random UUID the first digit of the third group is the version, and the first one of
/// the fourth group is one of the four that stand for the variant.
pub proof fn law_texts_of_random_uuids(text: Seq<char>)
    requires
        is_random_uuid_text(text),
    ensures
        text.len() == 36,
        text[14] == '4',
        text[19] == '8' || text[19] == '9' || text[19] == 'a' || text[19] == 'b',
{
    let uuid = choose|uuid: u128| #[trigger] uuid_text(uuid) == text && is_random_uuid(uuid);
    law_texts_of_uuids(uuid, 12);
    law_texts_of_uuids(uuid, 16);
    assert(pow(2, 4) == 16) by {
        reveal_with_fuel(pow, 5);
    }
    assert(pow(2, 2) == 4) by {
        reveal_with_fuel(pow, 3);
    }
    lemma_pow_multiplies(2, 4, 19);
    lemma_pow_multiplies(2, 4, 15);
    lemma_pow_adds(2, 60, 2);
    lemma_pow_positive(2, 60);
    lemma_div_denominator(uuid as int, pow(2, 60), 4);
    let x = uuid as int / pow(2, 60);
    assert((x / 4) % 4 == 2);
    assert((x % 16) / 4 == 2) by {
        assert(x == 16 * (x / 16) + x % 16);
        assert(x / 4 == 4 * (x / 16) + (x % 16) / 4);
    }
    assert(8 <= x % 16 < 12);
}

} // verus!
