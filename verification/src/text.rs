//! Text: what names and messages are read by and put together from.

use vstd::prelude::*;

verus! {

/// `String::push` appends one character to the end of the string.
pub assume_specification[ String::push ](text: &mut String, character: char)
    ensures
        final(text)@ == old(text)@.push(character),
;

// ------------------------------------------------------------------ numbers

/// The character of one decimal digit.
pub open spec fn digit_char(digit: nat) -> char {
    (('0' as nat) + digit) as char
}

/// `number` in decimal, without leading zeros.
pub open spec fn decimal(number: nat) -> Seq<char>
    decreases number,
{
    if number < 10 {
        seq![digit_char(number)]
    } else {
        decimal(number / 10).push(digit_char(number % 10))
    }
}

/// Appends `number` in decimal.
pub fn push_decimal(text: &mut String, number: u64)
    ensures
        final(text)@ == old(text)@ + decimal(number as nat),
    decreases number,
{
    if number >= 10 {
        push_decimal(text, number / 10);
    }
    text.push((48 + ((number % 10) as u8)) as char);
    assert(text@ == old(text)@ + decimal(number as nat));
}

/// Appends `number` in decimal.
pub fn push_count(text: &mut String, number: usize)
    ensures
        final(text)@ == old(text)@ + decimal(number as nat),
{
    push_decimal(text, number as u64);
}

/// A number is written in one way only, and no two numbers in the same way.
pub proof fn decimals_differ(one: nat, other: nat)
    ensures
        decimal(one) == decimal(other) ==> one == other,
    decreases one,
{
    if decimal(one) == decimal(other) {
        assert(decimal(one).last() == digit_char(one % 10));
        assert(decimal(other).last() == digit_char(other % 10));
        decimal_is_written(one);
        decimal_is_written(other);
        if one >= 10 && other >= 10 {
            assert(decimal(one).drop_last() =~= decimal(one / 10));
            assert(decimal(other).drop_last() =~= decimal(other / 10));
            decimals_differ(one / 10, other / 10);
        } else if one >= 10 {
            decimal_is_written(one / 10);
            assert(decimal(one).len() == decimal(one / 10).len() + 1);
        } else if other >= 10 {
            decimal_is_written(other / 10);
            assert(decimal(other).len() == decimal(other / 10).len() + 1);
        }
    }
}

/// Every number takes at least one digit.
pub proof fn decimal_is_written(number: nat)
    ensures
        decimal(number).len() > 0,
{
}

// --------------------------------------------------------------- characters

/// Whether two texts are the same, character by character.
pub fn same(left: &str, right: &str) -> (equal: bool)
    ensures
        equal == (left@ == right@),
{
    left.to_owned() == right.to_owned()
}

/// Texts taken by their views.
pub open spec fn texts_view(texts: Seq<String>) -> Seq<Seq<char>> {
    texts.map_values(|text: String| text@)
}

/// Whether `text` is among `texts`.
pub fn is_among(text: &str, texts: &Vec<String>) -> (found: bool)
    ensures
        found == texts_view(texts@).contains(text@),
{
    let mut index: usize = 0;
    while index < texts.len()
        invariant
            index <= texts@.len(),
            forall|i: int| 0 <= i < index ==> #[trigger] texts_view(texts@)[i] != text@,
        decreases texts@.len() - index,
    {
        assert(texts_view(texts@)[index as int] == texts@[index as int]@);
        if same(texts[index].as_str(), text) {
            return true;
        }
        index += 1;
    }
    false
}

/// The characters of `text`.
pub fn chars_of(text: &str) -> (characters: Vec<char>)
    ensures
        characters@ == text@,
{
    let mut characters: Vec<char> = Vec::new();
    for character in walk: text.chars()
        invariant
            characters@ == walk.seq().take(walk.index()),
            walk.seq() == text@,
    {
        characters.push(character);
    }
    characters
}

/// Unicode's `White_Space` property.
pub open spec fn white_space(character: char) -> bool {
    let code = character as u32;
    ||| 0x9 <= code <= 0xd
    ||| code == 0x20
    ||| code == 0x85
    ||| code == 0xa0
    ||| code == 0x1680
    ||| 0x2000 <= code <= 0x200a
    ||| code == 0x2028
    ||| code == 0x2029
    ||| code == 0x202f
    ||| code == 0x205f
    ||| code == 0x3000
}

/// `char::is_whitespace`: the characters with Unicode's `White_Space` property.
pub assume_specification[ char::is_whitespace ](character: char) -> (white: bool)
    ensures
        white == white_space(character),
;

/// Nothing but white space, or nothing at all.
pub open spec fn blank(text: Seq<char>) -> bool {
    forall|i: int| 0 <= i < text.len() ==> white_space(#[trigger] text[i])
}

/// Whether nothing is left of `text` once white space is trimmed off it.
pub fn is_blank(text: &str) -> (result: bool)
    ensures
        result == blank(text@),
{
    let characters = chars_of(text);
    let mut i: usize = 0;
    while i < characters.len()
        invariant
            i <= characters.len(),
            characters@ == text@,
            forall|j: int| 0 <= j < i ==> white_space(#[trigger] characters@[j]),
        decreases characters.len() - i,
    {
        if !characters[i].is_whitespace() {
            return false;
        }
        i += 1;
    }
    true
}

// --------------------------------------------------------------------- laws

/// Nothing at all is blank, one character is where it is white space, and a text
/// is where all its parts are.
pub proof fn a_text_is_blank_where_its_parts_are(front: Seq<char>, back: Seq<char>, character: char)
    ensures
        blank(Seq::<char>::empty()),
        blank(seq![character]) <==> white_space(character),
        blank(front + back) <==> blank(front) && blank(back),
{
    let whole = front + back;
    if blank(whole) {
        assert forall|i: int| 0 <= i < front.len() implies white_space(#[trigger] front[i]) by {
            assert(whole[i] == front[i]);
        }
        assert forall|i: int| 0 <= i < back.len() implies white_space(#[trigger] back[i]) by {
            assert(whole[front.len() + i] == back[i]);
        }
    }
    if !white_space(character) {
        assert(!white_space(seq![character][0]));
    }
}

} // verus!
