//! Model ids: UUIDs, held as the 128 bit number they are.
//!
//! The `uuid` crate draws, reads and writes them. What is read and written is
//! stated here character by character, so that an id the service hands out is
//! known to be one it accepts.

use vstd::prelude::*;

verus! {

// -------------------------------------------------------------- hexadecimal

/// The value of a hexadecimal digit, in either case.
pub open spec fn hex_digit(character: char) -> Option<nat> {
    if '0' <= character <= '9' {
        Some((character as nat - '0' as nat) as nat)
    } else if 'a' <= character <= 'f' {
        Some((character as nat - 'a' as nat + 10) as nat)
    } else if 'A' <= character <= 'F' {
        Some((character as nat - 'A' as nat + 10) as nat)
    } else {
        None
    }
}

/// The number that hexadecimal digits spell, if they all are digits.
pub open spec fn hex_value(digits: Seq<char>) -> Option<nat>
    decreases digits.len(),
{
    if digits.len() == 0 {
        Some(0)
    } else {
        match (hex_value(digits.drop_last()), hex_digit(digits.last())) {
            (Some(high), Some(low)) => Some(high * 16 + low),
            _ => None,
        }
    }
}

/// The lower case character of a hexadecimal digit.
pub open spec fn hex_char(digit: nat) -> char {
    if digit < 10 {
        ('0' as nat + digit) as char
    } else {
        ('a' as nat + (digit - 10)) as char
    }
}

/// The last `count` hexadecimal digits of `value`, lower case.
pub open spec fn hex_text(value: nat, count: nat) -> Seq<char>
    decreases count,
{
    if count == 0 {
        Seq::empty()
    } else {
        hex_text(value / 16, (count - 1) as nat).push(hex_char(value % 16))
    }
}

// ---------------------------------------------------------------- the forms

/// Where the hyphens of the hyphenated form stand.
pub open spec fn hyphen_at(index: int) -> bool {
    index == 8 || index == 13 || index == 18 || index == 23
}

/// The id that the hyphenated form spells: 36 characters, four of them
/// hyphens and the others hexadecimal digits.
pub open spec fn hyphenated(text: Seq<char>) -> Option<nat> {
    if text.len() == 36 && (forall|i: int|
        0 <= i < 36 && hyphen_at(i) ==> #[trigger] text[i] == '-') {
        hex_value(
            text.subrange(0, 8) + text.subrange(9, 13) + text.subrange(14, 18) + text.subrange(
                19,
                23,
            ) + text.subrange(24, 36),
        )
    } else {
        None
    }
}

/// Equal up to the case of ASCII letters.
pub open spec fn same_but_for_case(left: char, right: char) -> bool {
    ||| left == right
    ||| 'A' <= left <= 'Z' && left as nat + 32 == right as nat
    ||| 'A' <= right <= 'Z' && right as nat + 32 == left as nat
}

/// The id that `text` spells: 32 digits, the hyphenated form, that form in
/// braces, or that form behind `urn:uuid:`.
pub open spec fn read_id(text: Seq<char>) -> Option<nat> {
    if text.len() == 32 {
        hex_value(text)
    } else if text.len() == 36 {
        hyphenated(text)
    } else if text.len() == 38 && text.first() == '{' && text.last() == '}' {
        hyphenated(text.subrange(1, 37))
    } else if text.len() == 45 && (forall|i: int|
        0 <= i < 9 ==> same_but_for_case(#[trigger] text[i], "urn:uuid:"@[i])) {
        hyphenated(text.subrange(9, 45))
    } else {
        None
    }
}

/// An id in the hyphenated form, lower case.
pub open spec fn written_id(id: u128) -> Seq<char> {
    let digits = hex_text(id as nat, 32);
    digits.subrange(0, 8).push('-') + digits.subrange(8, 12).push('-') + digits.subrange(
        12,
        16,
    ).push('-') + digits.subrange(16, 20).push('-') + digits.subrange(20, 32)
}

// ------------------------------------------------------------ the uuid crate

/// Why `uuid` could not read an id. The service does not pass it on.
#[verifier::external_type_specification]
#[verifier::external_body]
pub struct ExUuidError(uuid::Error);

/// `Uuid::parse_str`: reads an id in any of the forms that [`read_id`] lists,
/// and fails on everything else.
#[verifier::external_body]
pub(crate) fn parse_uuid(text: &str) -> (id: Result<u128, uuid::Error>)
    ensures
        match id {
            Ok(id) => read_id(text@) == Some(id as nat),
            Err(_) => read_id(text@) is None,
        },
{
    match uuid::Uuid::parse_str(text) {
        Ok(id) => Ok(id.as_u128()),
        Err(error) => Err(error),
    }
}

/// `Uuid`'s `Display`: the hyphenated form, lower case.
#[verifier::external_body]
pub(crate) fn uuid_text(id: u128) -> (text: String)
    ensures
        text@ == written_id(id),
{
    uuid::Uuid::from_u128(id).to_string()
}

/// A version 4 id: its version and variant fields say so, every other bit is
/// random.
pub open spec fn version_4(id: u128) -> bool {
    &&& (id as nat / 0x1000_0000_0000_0000_0000) % 16 == 4
    &&& (id as nat / 0x4000_0000_0000_0000) % 4 == 2
}

/// `Uuid::new_v4`: an id from the system's randomness. Which one is chance;
/// the version and variant fields are set on all of them.
#[verifier::external_body]
pub(crate) fn new_uuid() -> (id: u128)
    ensures
        version_4(id),
{
    uuid::Uuid::new_v4().as_u128()
}

// --------------------------------------------------------------------- laws

/// 16 to the power of `count`.
pub open spec fn sixteen_to_the(count: nat) -> nat
    decreases count,
{
    if count == 0 {
        1
    } else {
        16 * sixteen_to_the((count - 1) as nat)
    }
}

/// A number that fits in `count` hexadecimal digits is spelled by them, and
/// there are `count` of them.
pub proof fn hex_text_spells(value: nat, count: nat)
    requires
        value < sixteen_to_the(count),
    ensures
        hex_text(value, count).len() == count,
        hex_value(hex_text(value, count)) == Some(value),
    decreases count,
{
    if count > 0 {
        let digits = hex_text(value, count);
        let high = hex_text(value / 16, (count - 1) as nat);
        hex_text_spells(value / 16, (count - 1) as nat);
        assert(digits.drop_last() =~= high);
        assert(digits.last() == hex_char(value % 16));
        assert(hex_digit(hex_char(value % 16)) == Some(value % 16));
    }
}

/// An id the service writes is an id it reads, and the same one.
pub proof fn written_id_is_read_back(id: u128)
    ensures
        read_id(written_id(id)) == Some(id as nat),
{
    let digits = hex_text(id as nat, 32);
    let text = written_id(id);
    reveal_with_fuel(sixteen_to_the, 33);
    hex_text_spells(id as nat, 32);
    assert(text.len() == 36);
    assert(text.subrange(0, 8) + text.subrange(9, 13) + text.subrange(14, 18) + text.subrange(
        19,
        23,
    ) + text.subrange(24, 36) =~= digits);
}

} // verus!
