//! Identifiers of media files: UUIDs, read from requests and written into keys and messages.

use vstd::prelude::*;
use crate::text;

verus! {

/// The error of `uuid::Uuid::parse_str`.
#[verifier::external_type_specification]
#[verifier::external_body]
pub struct ExUuidError(uuid::Error);

/// The identifier of a media file, as the number that the hexadecimal digits of its UUID write.
#[derive(Debug, Clone, Copy)]
pub struct FileId {
    pub value: u128,
}

pub open spec fn is_hex(c: char) -> bool {
    '0' <= c <= '9' || 'a' <= c <= 'f' || 'A' <= c <= 'F'
}

/// The value of a hexadecimal digit of either case.
pub open spec fn hex_value(c: char) -> int {
    if '0' <= c <= '9' {
        c as int - '0' as int
    } else if 'a' <= c <= 'f' {
        c as int - 'a' as int + 10
    } else {
        c as int - 'A' as int + 10
    }
}

/// The number that a sequence of hexadecimal digits writes.
pub open spec fn hex_number(s: Seq<char>) -> int
    decreases s.len(),
{
    if s.len() == 0 {
        0
    } else {
        hex_number(s.drop_last()) * 16 + hex_value(s.last())
    }
}

/// The 32 digits of a UUID in the form 8-4-4-4-12, where the four hyphens are in place.
pub open spec fn hyphenated_digits(s: Seq<char>) -> Option<Seq<char>> {
    if s.len() == 36 && s[8] == '-' && s[13] == '-' && s[18] == '-' && s[23] == '-' {
        Some(
            s.subrange(0, 8) + s.subrange(9, 13) + s.subrange(14, 18) + s.subrange(19, 23)
                + s.subrange(24, 36),
        )
    } else {
        None
    }
}

/// The 32 characters that stand for digits in one of the four forms of a UUID: bare, with
/// hyphens, with hyphens in braces, and with hyphens after `urn:uuid:`.
pub open spec fn uuid_digits(s: Seq<char>) -> Option<Seq<char>> {
    if s.len() == 32 {
        Some(s)
    } else if s.len() == 38 && s[0] == '{' && s[37] == '}' {
        hyphenated_digits(s.subrange(1, 37))
    } else if s.len() == 45 && text::same_ignoring_case(s.take(9), "urn:uuid:"@) {
        hyphenated_digits(s.skip(9))
    } else {
        hyphenated_digits(s)
    }
}

/// The number of the UUID that `s` writes, where it writes one.
pub open spec fn uuid_number(s: Seq<char>) -> Option<int> {
    match uuid_digits(s) {
        Some(digits) => if forall|i: int| 0 <= i < digits.len() ==> is_hex(#[trigger] digits[i]) {
            Some(hex_number(digits))
        } else {
            None
        },
        None => None,
    }
}

/// The lower-case hexadecimal digit of a value below sixteen.
pub open spec fn hex_char(d: int) -> char {
    if d < 10 {
        ('0' as int + d) as char
    } else {
        ('a' as int + d - 10) as char
    }
}

/// The digit at place `j` of the 32 hexadecimal digits of `v`.
pub open spec fn uuid_digit(v: u128, j: int) -> char {
    hex_char((v as int / vstd::arithmetic::power::pow(16, (31 - j) as nat)) % 16)
}

/// The text of a UUID: its 32 lower-case digits in groups of 8-4-4-4-12, between hyphens.
pub open spec fn uuid_text(v: u128) -> Seq<char> {
    Seq::new(
        36,
        |i: int|
            if i == 8 || i == 13 || i == 18 || i == 23 {
                '-'
            } else if i < 8 {
                uuid_digit(v, i)
            } else if i < 13 {
                uuid_digit(v, i - 1)
            } else if i < 18 {
                uuid_digit(v, i - 2)
            } else if i < 23 {
                uuid_digit(v, i - 3)
            } else {
                uuid_digit(v, i - 4)
            },
    )
}

/// Whether the version field of a UUID says four and its variant field that of RFC 9562.
pub open spec fn is_version_4(v: u128) -> bool {
    &&& v as int / vstd::arithmetic::power::pow(2, 76) % 16 == 4
    &&& v as int / vstd::arithmetic::power::pow(2, 62) % 4 == 2
}

/// `uuid::Uuid::parse_str`, with the UUID as a number. It accepts exactly the four forms that
/// `uuid_digits` lists, with digits of either case, and the number of the UUID is the one that
/// the digits write.
#[verifier::external_body]
fn parse_uuid(s: &str) -> (r: Result<u128, uuid::Error>)
    ensures
        r is Ok <==> uuid_number(s@) is Some,
        r matches Ok(v) ==> uuid_number(s@) == Some(v as int),
{
    uuid::Uuid::parse_str(s).map(|id| id.as_u128())
}

/// The `Display` form of `uuid::Uuid`: 32 lower-case hexadecimal digits in groups of
/// 8-4-4-4-12, between hyphens.
#[verifier::external_body]
fn display_uuid(v: u128) -> (r: String)
    ensures
        r@ == uuid_text(v),
{
    uuid::Uuid::from_u128(v).to_string()
}

/// `uuid::Uuid::new_v4`: a random UUID. Every outcome has the version and the variant of a
/// random UUID; the other bits are left open. The call panics where the machine has no source of
/// random numbers.
#[verifier::external_body]
fn random_uuid() -> (v: u128)
    ensures
        is_version_4(v),
{
    uuid::Uuid::new_v4().as_u128()
}

impl FileId {
    /// The identifier that `s` writes.
    pub fn parse(s: &str) -> (r: Result<FileId, uuid::Error>)
        ensures
            r is Ok <==> uuid_number(s@) is Some,
            r matches Ok(id) ==> uuid_number(s@) == Some(id.value as int),
    {
        match parse_uuid(s) {
            Ok(value) => Ok(FileId { value }),
            Err(error) => Err(error),
        }
    }

    /// The identifier as text, with hyphens and lower-case digits.
    pub fn text(&self) -> (r: String)
        ensures
            r@ == uuid_text(self.value),
    {
        display_uuid(self.value)
    }

    /// A random identifier.
    pub fn random() -> (id: FileId)
        ensures
            is_version_4(id.value),
    {
        FileId { value: random_uuid() }
    }
}

/// The first `k` digits of a number write its quotient by a power of sixteen.
proof fn lemma_digits_prefix(v: u128, digits: Seq<char>, k: nat)
    requires
        digits.len() == 32,
        forall|j: int| 0 <= j < 32 ==> #[trigger] digits[j] == uuid_digit(v, j),
        k <= 32,
    ensures
        hex_number(digits.take(k as int)) == v as int / vstd::arithmetic::power::pow(
            16,
            (32 - k) as nat,
        ),
    decreases k,
{
    lemma_number_of_uuids();
    let v = v as int;
    if k == 0 {
        assert(v / vstd::arithmetic::power::pow(16, 32) == 0);
    } else {
        lemma_digits_prefix(v as u128, digits, (k - 1) as nat);
        let small = vstd::arithmetic::power::pow(16, (32 - k) as nat);
        assert(vstd::arithmetic::power::pow(16, (33 - k) as nat) == 16 * small) by {
            reveal(vstd::arithmetic::power::pow);
        }
        vstd::arithmetic::power::lemma_pow_positive(16, (32 - k) as nat);
        assert(digits.take(k as int).drop_last() == digits.take(k - 1));
        let d = (v / small) % 16;
        assert(digits[k - 1] == hex_char(d));
        assert(hex_value(hex_char(d)) == d);
        vstd::arithmetic::div_mod::lemma_div_denominator(v, small, 16);
        assert(small * 16 == 16 * small);
    }
}

/// Sixteen to the power of 32 is the number of UUIDs.
proof fn lemma_number_of_uuids()
    ensures
        vstd::arithmetic::power::pow(16, 32) == u128::MAX + 1,
{
    assert(vstd::arithmetic::power::pow(16, 32) == u128::MAX + 1) by {
        reveal_with_fuel(vstd::arithmetic::power::pow, 33);
    }
}

/// Reading the text of an identifier gives the identifier back.
pub proof fn law_text_reads_back(id: FileId)
    ensures
        uuid_number(uuid_text(id.value)) == Some(id.value as int),
{
    let s = uuid_text(id.value);
    let digits = hyphenated_digits(s)->0;
    assert forall|j: int| 0 <= j < 32 implies #[trigger] digits[j] == uuid_digit(id.value, j) by {}
    assert forall|j: int| 0 <= j < 32 implies is_hex(#[trigger] digits[j]) by {
        let d = (id.value as int / vstd::arithmetic::power::pow(16, (31 - j) as nat)) % 16;
        assert(0 <= d < 16);
    }
    lemma_digits_prefix(id.value, digits, 32);
    assert(digits.take(32) == digits);
    assert(vstd::arithmetic::power::pow(16, 0) == 1) by {
        reveal(vstd::arithmetic::power::pow);
    }
}

/// Two different identifiers have different texts.
pub proof fn law_different_ids_have_different_texts(a: FileId, b: FileId)
    requires
        a.value != b.value,
    ensures
        uuid_text(a.value) != uuid_text(b.value),
{
    law_text_reads_back(a);
    law_text_reads_back(b);
}

/// The text of an identifier is made of 32 lower-case hexadecimal digits in groups of 8, 4, 4, 4
/// and 12 between hyphens.
pub proof fn law_text_has_five_groups(id: FileId)
    ensures
        uuid_text(id.value).len() == 36,
        forall|i: int|
            0 <= i < 36 ==> if i == 8 || i == 13 || i == 18 || i == 23 {
                #[trigger] uuid_text(id.value)[i] == '-'
            } else {
                '0' <= uuid_text(id.value)[i] <= '9' || 'a' <= uuid_text(id.value)[i] <= 'f'
            },
{
    assert forall|i: int| 0 <= i < 36 implies if i == 8 || i == 13 || i == 18 || i == 23 {
        #[trigger] uuid_text(id.value)[i] == '-'
    } else {
        '0' <= uuid_text(id.value)[i] <= '9' || 'a' <= uuid_text(id.value)[i] <= 'f'
    } by {
        let j = if i < 8 {
            i
        } else if i < 13 {
            i - 1
        } else if i < 18 {
            i - 2
        } else if i < 23 {
            i - 3
        } else {
            i - 4
        };
        let d = (id.value as int / vstd::arithmetic::power::pow(16, (31 - j) as nat)) % 16;
        assert(0 <= d < 16);
    }
}

/// A UUID is the same with hyphens or without, in braces and behind `urn:uuid:`.
pub proof fn law_four_forms_are_one(id: FileId)
    ensures
        ({
            let text = uuid_text(id.value);
            let bare = text.subrange(0, 8) + text.subrange(9, 13) + text.subrange(14, 18)
                + text.subrange(19, 23) + text.subrange(24, 36);
            &&& uuid_number(text) == Some(id.value as int)
            &&& uuid_number(bare) == Some(id.value as int)
            &&& uuid_number(seq!['{'] + text + seq!['}']) == Some(id.value as int)
            &&& uuid_number("urn:uuid:"@ + text) == Some(id.value as int)
        }),
{
    reveal_strlit("urn:uuid:");
    law_text_reads_back(id);
    let text = uuid_text(id.value);
    assert((seq!['{'] + text + seq!['}']).subrange(1, 37) == text);
    assert(("urn:uuid:"@ + text).skip(9) == text);
    assert(("urn:uuid:"@ + text).take(9) == "urn:uuid:"@);
}

} // verus!
