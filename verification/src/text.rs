//! Text primitives shared by the rest of the library.
use vstd::prelude::*;

verus! {

/// `String::push` appends one character to the end of the text.
pub assume_specification[ String::push ](s: &mut String, character: char)
    ensures
        final(s)@ == old(s)@.push(character),
;

/// Whether two texts hold the same characters.
pub fn same_text(left: &str, right: &str) -> (same: bool)
    ensures
        same == (left@ == right@),
{
    let left: String = left.to_owned();
    let right: String = right.to_owned();
    left == right
}

/// The view of an optional text.
pub open spec fn opt_view(text: Option<String>) -> Option<Seq<char>> {
    match text {
        Some(text) => Some(text@),
        None => None,
    }
}

/// The view of an optional reference to a text.
pub open spec fn opt_ref_view(text: Option<&String>) -> Option<Seq<char>> {
    match text {
        Some(text) => Some(text@),
        None => None,
    }
}

/// The texts of a list.
pub open spec fn texts_view(texts: Seq<String>) -> Seq<Seq<char>> {
    Seq::new(texts.len(), |i: int| texts[i]@)
}

/// The decimal digits of a number, without leading zeros.
pub open spec fn decimal(number: nat) -> Seq<char>
    decreases number,
{
    if number < 10 {
        seq![digit_char(number)]
    } else {
        decimal(number / 10).push(digit_char(number % 10))
    }
}

/// The character of one decimal digit.
pub open spec fn digit_char(digit: nat) -> char {
    (48 + digit) as u8 as char
}

fn digit(value: u8) -> (character: char)
    requires
        value < 10,
    ensures
        character == digit_char(value as nat),
{
    (48u8 + value) as char
}

/// The number written in decimal.
pub fn decimal_text(number: u64) -> (text: String)
    ensures
        text@ == decimal(number as nat),
    decreases number,
{
    if number < 10 {
        let mut text = String::new();
        text.push(digit(number as u8));
        assert(text@ =~= decimal(number as nat));
        text
    } else {
        let mut text = decimal_text(number / 10);
        text.push(digit((number % 10) as u8));
        text
    }
}

/// The two texts, one after the other.
pub fn joined(left: &str, right: &str) -> (text: String)
    ensures
        text@ == left@ + right@,
{
    left.to_owned().concat(right)
}

/// The two texts with a colon between them.
pub open spec fn colon_pair(left: Seq<char>, right: Seq<char>) -> Seq<char> {
    left + ":"@ + right
}

pub fn colon_joined(left: &str, right: &str) -> (text: String)
    ensures
        text@ == colon_pair(left@, right@),
{
    left.to_owned().concat(":").concat(right)
}

/// The characters of a text.
pub fn characters(text: &str) -> (found: Vec<char>)
    ensures
        found@ == text@,
{
    broadcast use vstd::string::axiom_spec_iter;

    let mut found: Vec<char> = Vec::new();
    for character in iter: text.chars()
        invariant
            iter.seq() == text@,
            found@ == text@.take(iter.index()),
    {
        found.push(character);
        assert(found@ =~= text@.take(iter.index() + 1));
    }
    assert(text@.take(text@.len() as int) =~= text@);
    found
}

/// The text made of `characters`.
pub fn text_of(characters: &Vec<char>) -> (text: String)
    ensures
        text@ == characters@,
{
    let mut text = String::new();
    let mut at: usize = 0;
    while at < characters.len()
        invariant
            at <= characters@.len(),
            text@ == characters@.take(at as int),
        decreases characters@.len() - at,
    {
        text.push(characters[at]);
        at = at + 1;
        assert(text@ =~= characters@.take(at as int));
    }
    assert(characters@.take(at as int) =~= characters@);
    text
}

/// Whether `left` comes strictly before `right` in the order of texts: by the first character in
/// which they differ, a proper prefix before what it begins.
pub open spec fn precedes(left: Seq<char>, right: Seq<char>) -> bool
    decreases left.len(),
{
    if right.len() == 0 {
        false
    } else if left.len() == 0 {
        true
    } else if left[0] == right[0] {
        precedes(left.skip(1), right.skip(1))
    } else {
        left[0] < right[0]
    }
}

/// Whether `left` comes strictly before `right`.
pub fn text_precedes(left: &str, right: &str) -> (before: bool)
    ensures
        before == precedes(left@, right@),
{
    let left_characters = characters(left);
    let right_characters = characters(right);
    let mut at: usize = 0;
    assert(left@.skip(0) =~= left@);
    assert(right@.skip(0) =~= right@);
    while at < left_characters.len() && at < right_characters.len()
        invariant
            left_characters@ == left@,
            right_characters@ == right@,
            at <= left@.len(),
            at <= right@.len(),
            precedes(left@, right@) == precedes(left@.skip(at as int), right@.skip(at as int)),
        decreases left@.len() - at,
    {
        assert(left@.skip(at as int).skip(1) =~= left@.skip(at + 1));
        assert(right@.skip(at as int).skip(1) =~= right@.skip(at + 1));
        if left_characters[at] != right_characters[at] {
            return left_characters[at] < right_characters[at];
        }
        at = at + 1;
    }
    at < right_characters.len()
}

/// No text comes before itself.
pub proof fn precedes_irreflexive(text: Seq<char>)
    ensures
        !precedes(text, text),
    decreases text.len(),
{
    if text.len() > 0 {
        precedes_irreflexive(text.skip(1));
    }
}

/// Of two different texts one comes before the other.
pub proof fn precedes_total(left: Seq<char>, right: Seq<char>)
    ensures
        precedes(left, right) || precedes(right, left) || left == right,
    decreases left.len(),
{
    if left.len() > 0 && right.len() > 0 {
        if left[0] == right[0] {
            precedes_total(left.skip(1), right.skip(1));
            if left.skip(1) == right.skip(1) {
                assert(left =~= seq![left[0]] + left.skip(1));
                assert(right =~= seq![right[0]] + right.skip(1));
            }
        }
    } else {
        if left.len() == 0 && right.len() == 0 {
            assert(left =~= right);
        }
    }
}

/// The order of texts is transitive.
pub proof fn precedes_transitive(first: Seq<char>, second: Seq<char>, third: Seq<char>)
    requires
        precedes(first, second),
        precedes(second, third),
    ensures
        precedes(first, third),
    decreases first.len(),
{
    if first.len() > 0 && first[0] == second[0] && second[0] == third[0] {
        precedes_transitive(first.skip(1), second.skip(1), third.skip(1));
    }
}

/// Not coming before is transitive too.
pub proof fn precedes_not_transitive(first: Seq<char>, second: Seq<char>, third: Seq<char>)
    requires
        !precedes(first, second),
        !precedes(second, third),
    ensures
        !precedes(first, third),
{
    if precedes(first, third) {
        precedes_total(first, second);
        precedes_total(second, third);
        if first != second {
            precedes_transitive(second, first, third);
        }
    }
}

/// Whether a character has the Unicode property `White_Space`.
pub open spec fn is_space(character: char) -> bool {
    let code = character as u32;
    9 <= code <= 13 || code == 32 || code == 0x85 || code == 0xa0 || code == 0x1680 || 0x2000
        <= code <= 0x200a || code == 0x2028 || code == 0x2029 || code == 0x202f || code == 0x205f
        || code == 0x3000
}

pub fn space(character: char) -> (found: bool)
    ensures
        found == is_space(character),
{
    let code: u32 = character as u32;
    (9 <= code && code <= 13) || code == 32 || code == 0x85 || code == 0xa0 || code == 0x1680 || (
    0x2000 <= code && code <= 0x200a) || code == 0x2028 || code == 0x2029 || code == 0x202f
        || code == 0x205f || code == 0x3000
}

/// Whether a character is a control code (Unicode category `Cc`).
pub open spec fn is_control(character: char) -> bool {
    let code = character as u32;
    code < 0x20 || 0x7f <= code < 0xa0
}

pub fn control(character: char) -> (found: bool)
    ensures
        found == is_control(character),
{
    let code: u32 = character as u32;
    code < 0x20 || (0x7f <= code && code < 0xa0)
}

/// Whether a text holds nothing but white space.
pub open spec fn is_blank(text: Seq<char>) -> bool {
    forall|i: int| 0 <= i < text.len() ==> is_space(#[trigger] text[i])
}

/// Whether a text holds a control code.
pub open spec fn holds_control(text: Seq<char>) -> bool {
    exists|i: int| 0 <= i < text.len() && is_control(#[trigger] text[i])
}

pub fn blank(text: &str) -> (found: bool)
    ensures
        found == is_blank(text@),
{
    let letters = characters(text);
    let mut at: usize = 0;
    while at < letters.len()
        invariant
            letters@ == text@,
            at <= text@.len(),
            forall|i: int| 0 <= i < at ==> is_space(#[trigger] text@[i]),
        decreases text@.len() - at,
    {
        if !space(letters[at]) {
            assert(!is_space(text@[at as int]));
            return false;
        }
        at = at + 1;
    }
    true
}

pub fn has_control(text: &str) -> (found: bool)
    ensures
        found == holds_control(text@),
{
    let letters = characters(text);
    let mut at: usize = 0;
    while at < letters.len()
        invariant
            letters@ == text@,
            at <= text@.len(),
            forall|i: int| 0 <= i < at ==> !is_control(#[trigger] text@[i]),
        decreases text@.len() - at,
    {
        if control(letters[at]) {
            assert(is_control(text@[at as int]));
            return true;
        }
        at = at + 1;
    }
    false
}

/// A text without the white space at its beginning.
pub open spec fn trimmed_start(text: Seq<char>) -> Seq<char>
    decreases text.len(),
{
    if text.len() > 0 && is_space(text[0]) {
        trimmed_start(text.skip(1))
    } else {
        text
    }
}

/// A text without the white space at its end.
pub open spec fn trimmed_end(text: Seq<char>) -> Seq<char>
    decreases text.len(),
{
    if text.len() > 0 && is_space(text.last()) {
        trimmed_end(text.drop_last())
    } else {
        text
    }
}

/// A text without the white space at both ends.
pub open spec fn trimmed(text: Seq<char>) -> Seq<char> {
    trimmed_end(trimmed_start(text))
}

/// Whether a text is neither empty nor padded with white space.
pub open spec fn is_unpadded(text: Seq<char>) -> bool {
    text.len() > 0 && !is_space(text[0]) && !is_space(text.last())
}

proof fn start_is_trimmed(text: Seq<char>)
    ensures
        trimmed_start(text).len() > 0 ==> !is_space(trimmed_start(text)[0]),
    decreases text.len(),
{
    if text.len() > 0 && is_space(text[0]) {
        start_is_trimmed(text.skip(1));
    }
}

proof fn end_is_trimmed(text: Seq<char>)
    ensures
        trimmed_end(text).len() > 0 ==> !is_space(trimmed_end(text).last()) && trimmed_end(text)[0]
            == text[0],
    decreases text.len(),
{
    if text.len() > 0 && is_space(text.last()) {
        end_is_trimmed(text.drop_last());
    }
}

/// What is left of a trimmed text is not padded.
pub proof fn trimmed_is_unpadded(text: Seq<char>)
    ensures
        trimmed(text).len() > 0 ==> is_unpadded(trimmed(text)),
{
    start_is_trimmed(text);
    end_is_trimmed(trimmed_start(text));
}

/// Removes the white space at both ends.
pub fn trim(text: &str) -> (found: String)
    ensures
        found@ == trimmed(text@),
{
    let letters = characters(text);
    let mut start: usize = 0;
    assert(text@.skip(0) =~= text@);
    while start < letters.len() && space(letters[start])
        invariant
            letters@ == text@,
            start <= text@.len(),
            trimmed_start(text@) == trimmed_start(text@.skip(start as int)),
        decreases text@.len() - start,
    {
        assert(text@.skip(start as int).skip(1) =~= text@.skip(start + 1));
        start = start + 1;
    }
    let ghost kept = text@.skip(start as int);
    assert(trimmed_start(text@) == kept);
    let mut end: usize = letters.len();
    assert(kept =~= text@.subrange(start as int, end as int));
    while end > start && space(letters[end - 1])
        invariant
            letters@ == text@,
            start <= end <= text@.len(),
            trimmed_end(kept) == trimmed_end(text@.subrange(start as int, end as int)),
        decreases end,
    {
        let ghost now = text@.subrange(start as int, end as int);
        assert(now.drop_last() =~= text@.subrange(start as int, end - 1));
        assert(now.last() == text@[end - 1]);
        end = end - 1;
    }
    let ghost wanted = text@.subrange(start as int, end as int);
    assert(trimmed_end(wanted) == wanted) by {
        if wanted.len() > 0 {
            assert(wanted.last() == text@[end - 1]);
        }
    }
    let mut found: Vec<char> = Vec::new();
    let mut at: usize = start;
    while at < end
        invariant
            letters@ == text@,
            start <= at <= end <= text@.len(),
            found@ == text@.subrange(start as int, at as int),
        decreases end - at,
    {
        found.push(letters[at]);
        at = at + 1;
        assert(found@ =~= text@.subrange(start as int, at as int));
    }
    text_of(&found)
}

/// The words of a text, with one space between neighbours.
pub open spec fn squeezed(text: Seq<char>) -> Seq<char>
    decreases text.len(),
{
    if text.len() == 0 {
        Seq::empty()
    } else {
        let before = squeezed(text.drop_last());
        if is_space(text.last()) {
            before
        } else if before.len() > 0 && is_space(text[text.len() - 2]) {
            before.push(' ').push(text.last())
        } else {
            before.push(text.last())
        }
    }
}

/// Joins the words of a text with single spaces.
pub fn squeeze(text: &str) -> (found: String)
    ensures
        found@ == squeezed(text@),
{
    let letters = characters(text);
    let mut found = String::new();
    let mut any: bool = false;
    let mut gap: bool = false;
    let mut at: usize = 0;
    assert(text@.take(0) =~= Seq::<char>::empty());
    assert(found@ =~= Seq::<char>::empty());
    while at < letters.len()
        invariant
            letters@ == text@,
            at <= text@.len(),
            found@ == squeezed(text@.take(at as int)),
            any == (found@.len() > 0),
            gap == (at > 0 && is_space(text@[at - 1])),
        decreases text@.len() - at,
    {
        let letter: char = letters[at];
        assert(text@.take(at + 1).drop_last() =~= text@.take(at as int));
        assert(text@.take(at + 1).last() == letter);
        if at > 0 {
            assert(text@.take(at + 1)[at - 1] == text@[at - 1]);
        }
        if space(letter) {
            gap = true;
        } else {
            if any && gap {
                found.push(' ');
            }
            found.push(letter);
            any = true;
            gap = false;
        }
        at = at + 1;
    }
    assert(text@.take(at as int) =~= text@);
    found
}

/// No white space at either end, and inside only single plain spaces.
pub open spec fn is_tidy(text: Seq<char>) -> bool {
    &&& text.len() > 0 ==> !is_space(text[0]) && !is_space(text.last())
    &&& forall|i: int| 0 <= i < text.len() && is_space(#[trigger] text[i]) ==> text[i] == ' '
    &&& forall|i: int|
        0 < i < text.len() && is_space(#[trigger] text[i]) ==> !is_space(text[i - 1])
}

/// Joining words leaves a tidy text.
pub proof fn squeezed_is_tidy(text: Seq<char>)
    ensures
        is_tidy(squeezed(text)),
    decreases text.len(),
{
    if text.len() > 0 {
        squeezed_is_tidy(text.drop_last());
    }
}

/// A tidy text stays as it is.
pub proof fn tidy_stays(text: Seq<char>)
    requires
        is_tidy(text),
    ensures
        squeezed(text) == text,
    decreases text.len(),
{
    if text.len() > 0 {
        let start = text.drop_last();
        if start.len() > 0 && is_space(start.last()) {
            let shorter = start.drop_last();
            assert(text[text.len() - 2] == start.last());
            assert(!is_space(text[text.len() - 3]));
            assert(is_tidy(shorter)) by {
                assert(shorter.last() == text[text.len() - 3]);
            }
            tidy_stays(shorter);
            assert(squeezed(start) == shorter);
            assert(text =~= shorter.push(' ').push(text.last()));
        } else {
            assert(is_tidy(start));
            tidy_stays(start);
            assert(text =~= start.push(text.last()));
        }
    } else {
        assert(text =~= Seq::<char>::empty());
    }
}

/// Joining words twice is the same as joining them once.
pub proof fn squeezing_is_idempotent(text: Seq<char>)
    ensures
        squeezed(squeezed(text)) == squeezed(text),
{
    squeezed_is_tidy(text);
    tidy_stays(squeezed(text));
}

/// The lower-case form of an ASCII letter; other characters stay.
pub open spec fn lower_char(character: char) -> char {
    if 'A' <= character <= 'Z' {
        (character as u8 + 32) as u8 as char
    } else {
        character
    }
}

/// A text with its ASCII letters in lower case.
pub open spec fn ascii_lowered(text: Seq<char>) -> Seq<char> {
    Seq::new(text.len(), |i: int| lower_char(text[i]))
}

pub fn lower(character: char) -> (found: char)
    ensures
        found == lower_char(character),
{
    if 'A' <= character && character <= 'Z' {
        (character as u8 + 32) as char
    } else {
        character
    }
}

/// Writes the ASCII letters of a text in lower case.
pub fn ascii_lower(text: &str) -> (found: String)
    ensures
        found@ == ascii_lowered(text@),
{
    let letters = characters(text);
    let mut found = String::new();
    let mut at: usize = 0;
    assert(found@ =~= ascii_lowered(text@.take(0)));
    while at < letters.len()
        invariant
            letters@ == text@,
            at <= text@.len(),
            found@ == ascii_lowered(text@.take(at as int)),
        decreases text@.len() - at,
    {
        found.push(lower(letters[at]));
        at = at + 1;
        assert(found@ =~= ascii_lowered(text@.take(at as int)));
    }
    assert(text@.take(at as int) =~= text@);
    found
}

/// Whether a text begins with another.
pub open spec fn begins_with(text: Seq<char>, start: Seq<char>) -> bool {
    start.len() <= text.len() && text.take(start.len() as int) == start
}

pub fn starts_with(text: &str, start: &str) -> (found: bool)
    ensures
        found == begins_with(text@, start@),
{
    let letters = characters(text);
    let wanted = characters(start);
    if wanted.len() > letters.len() {
        return false;
    }
    let mut at: usize = 0;
    while at < wanted.len()
        invariant
            letters@ == text@,
            wanted@ == start@,
            at <= start@.len() <= text@.len(),
            forall|i: int| 0 <= i < at ==> text@[i] == start@[i],
        decreases start@.len() - at,
    {
        if letters[at] != wanted[at] {
            assert(text@.take(start@.len() as int)[at as int] != start@[at as int]);
            return false;
        }
        at = at + 1;
    }
    assert(text@.take(start@.len() as int) =~= start@);
    true
}

/// A text without any `unwanted` characters at its end.
pub open spec fn without_end(text: Seq<char>, unwanted: char) -> Seq<char>
    decreases text.len(),
{
    if text.len() > 0 && text.last() == unwanted {
        without_end(text.drop_last(), unwanted)
    } else {
        text
    }
}

/// Removes every `unwanted` character at the end of a text.
pub fn strip_end(text: &str, unwanted: char) -> (found: String)
    ensures
        found@ == without_end(text@, unwanted),
{
    let mut letters = characters(text);
    while letters.len() > 0 && letters[letters.len() - 1] == unwanted
        invariant
            without_end(text@, unwanted) == without_end(letters@, unwanted),
        decreases letters@.len(),
    {
        let ghost before = letters@;
        letters.pop();
        assert(letters@ =~= before.drop_last());
    }
    text_of(&letters)
}

/// The texts of a list with `separator` between each two.
pub open spec fn joined_with(texts: Seq<Seq<char>>, separator: Seq<char>) -> Seq<char>
    decreases texts.len(),
{
    if texts.len() == 0 {
        Seq::empty()
    } else if texts.len() == 1 {
        texts[0]
    } else {
        joined_with(texts.drop_last(), separator) + separator + texts.last()
    }
}

/// Joins texts with a separator.
pub fn join(texts: &Vec<String>, separator: &str) -> (text: String)
    ensures
        text@ == joined_with(texts_view(texts@), separator@),
{
    let ghost content = texts_view(texts@);
    let mut text = String::new();
    let mut at: usize = 0;
    assert(content.take(0) =~= Seq::empty());
    while at < texts.len()
        invariant
            at <= texts@.len(),
            content == texts_view(texts@),
            text@ == joined_with(content.take(at as int), separator@),
        decreases texts@.len() - at,
    {
        let ghost more = content.take(at + 1);
        assert(more.drop_last() =~= content.take(at as int));
        assert(more.last() == texts@[at as int]@);
        if at == 0 {
            text = texts[at].clone();
        } else {
            text = text.concat(separator).concat(texts[at].as_str());
        }
        at = at + 1;
    }
    assert(content.take(at as int) =~= content);
    text
}

/// Whether a character is a decimal digit.
pub open spec fn is_digit(character: char) -> bool {
    '0' <= character <= '9'
}

/// The number that some digits stand for.
pub open spec fn digits_value(digits: Seq<char>) -> nat
    decreases digits.len(),
{
    if digits.len() == 0 {
        0
    } else {
        10 * digits_value(digits.drop_last()) + (digits.last() as nat - 48) as nat
    }
}

/// The text behind its plus sign, if it begins with one.
pub open spec fn behind_plus(text: Seq<char>) -> Seq<char> {
    if text.len() > 0 && text[0] == '+' {
        text.skip(1)
    } else {
        text
    }
}

/// The number that a text writes in decimal digits, with a plus sign before them or none.
pub open spec fn number_in(text: Seq<char>) -> Option<nat> {
    let digits = behind_plus(text);
    if digits.len() > 0 && forall|i: int| 0 <= i < digits.len() ==> is_digit(#[trigger] digits[i]) {
        Some(digits_value(digits))
    } else {
        None
    }
}

/// A number in decimal is a nonempty run of digits that stand for it.
pub proof fn decimal_digits(number: nat)
    ensures
        decimal(number).len() > 0,
        forall|i: int| 0 <= i < decimal(number).len() ==> is_digit(#[trigger] decimal(number)[i]),
        digits_value(decimal(number)) == number,
    decreases number,
{
    reveal_with_fuel(digits_value, 2);
    if number < 10 {
        assert(decimal(number).drop_last() =~= Seq::empty());
        assert(decimal(number).last() == digit_char(number));
    } else {
        decimal_digits(number / 10);
        assert(decimal(number).drop_last() =~= decimal(number / 10));
        assert(decimal(number).last() == digit_char(number % 10));
        assert forall|i: int| 0 <= i < decimal(number).len() implies is_digit(
            #[trigger] decimal(number)[i],
        ) by {
            if i < decimal(number / 10).len() {
                assert(decimal(number)[i] == decimal(number / 10)[i]);
            }
        }
    }
}

/// Whether a text is not empty and does not hold a character.
pub open spec fn is_word_without(text: Seq<char>, separator: char) -> bool {
    text.len() > 0 && !text.contains(separator)
}

/// Words that are joined with a character that none of them holds can be told apart again.
pub proof fn joining_is_injective(left: Seq<Seq<char>>, right: Seq<Seq<char>>, separator: char)
    requires
        joined_with(left, seq![separator]) == joined_with(right, seq![separator]),
        forall|i: int| 0 <= i < left.len() ==> is_word_without(#[trigger] left[i], separator),
        forall|i: int| 0 <= i < right.len() ==> is_word_without(#[trigger] right[i], separator),
    ensures
        left == right,
    decreases left.len(),
{
    let whole = joined_with(left, seq![separator]);
    if left.len() >= 1 {
        assert(is_word_without(left.last(), separator));
    }
    if right.len() >= 1 {
        assert(is_word_without(right.last(), separator));
    }
    if left.len() >= 2 && right.len() >= 2 {
        let (l, r) = (left.last().len(), right.last().len());
        let l_start = joined_with(left.drop_last(), seq![separator]);
        let r_start = joined_with(right.drop_last(), seq![separator]);
        assert(whole[whole.len() - 1 - l] == separator);
        assert(whole[whole.len() - 1 - r] == separator);
        if l < r {
            assert(whole[whole.len() - 1 - l] == right.last()[r - 1 - l]);
        } else if r < l {
            assert(whole[whole.len() - 1 - r] == left.last()[l - 1 - r]);
        }
        assert(left.last() =~= whole.skip(whole.len() - l));
        assert(right.last() =~= whole.skip(whole.len() - r));
        assert(l_start =~= whole.take(whole.len() - l - 1));
        assert(r_start =~= whole.take(whole.len() - r - 1));
        joining_is_injective(left.drop_last(), right.drop_last(), separator);
        assert(left =~= left.drop_last().push(left.last()));
        assert(right =~= right.drop_last().push(right.last()));
    } else if left.len() >= 2 {
        let l = left.last().len();
        assert(whole[whole.len() - 1 - l] == separator);
        if right.len() == 1 {
            assert(right[0].contains(separator));
        }
    } else if right.len() >= 2 {
        let r = right.last().len();
        assert(whole[whole.len() - 1 - r] == separator);
        if left.len() == 1 {
            assert(left[0].contains(separator));
        }
    } else {
        assert(left =~= right);
    }
}

proof fn digits_value_grows(digits: Seq<char>, end: int)
    requires
        0 <= end <= digits.len(),
        forall|i: int| 0 <= i < digits.len() ==> is_digit(#[trigger] digits[i]),
    ensures
        digits_value(digits.take(end)) <= digits_value(digits),
    decreases digits.len() - end,
{
    if end < digits.len() {
        digits_value_grows(digits, end + 1);
        assert(digits.take(end + 1).drop_last() =~= digits.take(end));
    } else {
        assert(digits.take(end) =~= digits);
    }
}

/// Reads a decimal number that fits in 64 bits.
pub fn read_number(text: &str) -> (number: Option<u64>)
    ensures
        match number {
            Some(number) => number_in(text@) == Some(number as nat),
            None => match number_in(text@) {
                Some(number) => number > u64::MAX,
                None => true,
            },
        },
{
    let found = characters(text);
    let start: usize = if found.len() > 0 && found[0] == '+' {
        1
    } else {
        0
    };
    let ghost digits = found@.skip(start as int);
    assert(digits =~= behind_plus(text@));
    if found.len() == start {
        return None;
    }
    let mut at: usize = start;
    while at < found.len()
        invariant
            start <= at <= found@.len(),
            digits == found@.skip(start as int),
            digits == behind_plus(text@),
            forall|i: int| 0 <= i < at - start ==> is_digit(#[trigger] digits[i]),
        decreases found@.len() - at,
    {
        if !('0' <= found[at] && found[at] <= '9') {
            assert(!is_digit(digits[at - start]));
            return None;
        }
        at = at + 1;
    }
    let mut number: u64 = 0;
    at = start;
    assert(digits.take(0) =~= Seq::empty());
    while at < found.len()
        invariant
            start <= at <= found@.len(),
            digits == found@.skip(start as int),
            number_in(text@) == Some(digits_value(digits)),
            forall|i: int| 0 <= i < digits.len() ==> is_digit(#[trigger] digits[i]),
            number == digits_value(digits.take(at - start)),
        decreases found@.len() - at,
    {
        assert(is_digit(digits[at - start]));
        let digit: u64 = found[at] as u64 - 48;
        assert(digits.take(at - start + 1).drop_last() =~= digits.take(at - start));
        assert(digits_value(digits.take(at - start + 1)) == 10 * number + digit);
        proof {
            digits_value_grows(digits, at - start + 1);
        }
        number = match number.checked_mul(10) {
            Some(tens) => match tens.checked_add(digit) {
                Some(sum) => sum,
                None => return None,
            },
            None => return None,
        };
        at = at + 1;
    }
    assert(digits.take(at - start) =~= digits);
    Some(number)
}

} // verus!
