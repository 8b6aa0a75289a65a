//! Identities: UUIDs as 128-bit values and as text.
use vstd::prelude::*;

verus! {

/// The lower-case hexadecimal character of a value below sixteen.
pub open spec fn hex_char(value: int) -> char {
    if value < 10 {
        (48 + value) as u8 as char
    } else {
        (87 + value) as u8 as char
    }
}

/// The hexadecimal digit of `id` at `position`, counted from the most significant of its 32.
pub open spec fn id_digit(id: u128, position: int) -> int {
    (id as int / vstd::arithmetic::power::pow(16, (31 - position) as nat)) % 16
}

/// Whether the hyphenated form has a hyphen at `at`.
pub open spec fn hyphen_at(at: int) -> bool {
    at == 8 || at == 13 || at == 18 || at == 23
}

/// How many hyphens the hyphenated form has before `at`.
pub open spec fn hyphens_before(at: int) -> int {
    (if at > 8 { 1int } else { 0 }) + (if at > 13 { 1int } else { 0 }) + (if at > 18 {
        1int
    } else {
        0
    }) + (if at > 23 { 1int } else { 0 })
}

/// The hyphenated lower-case text of an identity: 8-4-4-4-12 hexadecimal digits.
pub open spec fn id_text_of(id: u128) -> Seq<char> {
    Seq::new(
        36,
        |at: int|
            if hyphen_at(at) {
                '-'
            } else {
                hex_char(id_digit(id, at - hyphens_before(at)))
            },
    )
}

/// `uuid::Uuid`'s `Display`: the hyphenated lower-case form of the 128-bit value.
#[verifier::external_body]
pub(crate) fn id_text(id: u128) -> (text: String)
    ensures
        text@ == id_text_of(id),
{
    uuid::Uuid::from_u128(id).to_string()
}

/// The identity that `uuid::Uuid::parse_str` reads from a text in another of its accepted forms.
pub uninterp spec fn other_form(text: Seq<char>) -> Option<u128>;

/// `uuid::Uuid::parse_str`: it reads the hyphenated lower-case form of an identity as that
/// identity. What it makes of any other text is a function of the text alone.
#[verifier::external_body]
fn parse_id(text: &str) -> (id: Option<u128>)
    ensures
        forall|written: u128| text@ == #[trigger] id_text_of(written) ==> id == Some(written),
        (forall|written: u128| text@ != #[trigger] id_text_of(written)) ==> id == other_form(text@),
{
    uuid::Uuid::parse_str(text).ok().map(|id| id.as_u128())
}

/// The identity that a text stands for, if it stands for one.
pub open spec fn parsed_id(text: Seq<char>) -> Option<u128> {
    if exists|written: u128| text == #[trigger] id_text_of(written) {
        Some(choose|written: u128| text == #[trigger] id_text_of(written))
    } else {
        other_form(text)
    }
}

proof fn hex_chars_differ(left: int, right: int)
    requires
        0 <= left < 16,
        0 <= right < 16,
        hex_char(left) == hex_char(right),
    ensures
        left == right,
{
}

/// Two identities with the same leading digits agree down to the last of these.
proof fn same_digits(left: u128, right: u128, count: int)
    requires
        0 <= count <= 32,
        forall|k: int| 0 <= k < count ==> #[trigger] id_digit(left, k) == id_digit(right, k),
    ensures
        left as int / vstd::arithmetic::power::pow(16, (32 - count) as nat) == right as int
            / vstd::arithmetic::power::pow(16, (32 - count) as nat),
    decreases count,
{
    let whole = vstd::arithmetic::power::pow(16, (32 - count) as nat);
    if count == 0 {
        assert(vstd::arithmetic::power::pow(16, 32) == 0x1_0000_0000_0000_0000_0000_0000_0000_0000)
            by {
            reveal_with_fuel(vstd::arithmetic::power::pow, 33);
        }
        vstd::arithmetic::div_mod::lemma_basic_div(left as int, whole);
        vstd::arithmetic::div_mod::lemma_basic_div(right as int, whole);
    } else {
        same_digits(left, right, count - 1);
        vstd::arithmetic::power::lemma_pow_positive(16, (32 - count) as nat);
        vstd::arithmetic::power::lemma_pow_adds(16, (32 - count) as nat, 1);
        vstd::arithmetic::power::lemma_pow1(16);
        vstd::arithmetic::div_mod::lemma_div_denominator(left as int, whole, 16);
        vstd::arithmetic::div_mod::lemma_div_denominator(right as int, whole, 16);
        assert(id_digit(left, count - 1) == id_digit(right, count - 1));
    }
}

/// Different identities have different texts.
pub proof fn id_text_is_injective(left: u128, right: u128)
    requires
        id_text_of(left) == id_text_of(right),
    ensures
        left == right,
{
    assert forall|k: int| 0 <= k < 32 implies #[trigger] id_digit(left, k) == id_digit(
        right,
        k,
    ) by {
        let at = if k < 8 {
            k
        } else if k < 12 {
            k + 1
        } else if k < 16 {
            k + 2
        } else if k < 20 {
            k + 3
        } else {
            k + 4
        };
        assert(id_text_of(left)[at] == hex_char(id_digit(left, k)));
        assert(id_text_of(right)[at] == hex_char(id_digit(right, k)));
        hex_chars_differ(id_digit(left, k), id_digit(right, k));
    }
    same_digits(left, right, 32);
    vstd::arithmetic::power::lemma_pow0(16);
}

/// The text of an identity stands for that identity.
pub proof fn written_ids_are_read(id: u128)
    ensures
        parsed_id(id_text_of(id)) == Some(id),
{
    let read = choose|written: u128| id_text_of(id) == #[trigger] id_text_of(written);
    id_text_is_injective(id, read);
}

/// `uuid::Uuid::new_v4`: a random identity with the version and variant bits of RFC 4122 set.
#[verifier::external_body]
fn random_id() -> (id: u128)
    ensures
        (id / 0x1000_0000_0000_0000_0000) % 16 == 4,
        (id / 0x4000_0000_0000_0000) % 4 == 2,
{
    uuid::Uuid::new_v4().as_u128()
}

/// Whether `id` carries the version and variant bits of a random identity.
pub open spec fn is_random_id(id: u128) -> bool {
    (id / 0x1000_0000_0000_0000_0000) % 16 == 4 && (id / 0x4000_0000_0000_0000) % 4 == 2
}

/// A fresh random identity.
pub fn fresh_id() -> (id: u128)
    ensures
        is_random_id(id),
{
    random_id()
}

/// Fresh random identities.
pub fn fresh_ids(count: usize) -> (ids: Vec<u128>)
    ensures
        ids@.len() == count,
        forall|i: int| 0 <= i < count ==> is_random_id(#[trigger] ids@[i]),
{
    let mut ids: Vec<u128> = Vec::new();
    while ids.len() < count
        invariant
            ids@.len() <= count,
            forall|i: int| 0 <= i < ids@.len() ==> is_random_id(#[trigger] ids@[i]),
        decreases count - ids@.len(),
    {
        ids.push(random_id());
    }
    ids
}

/// The canonical text of an identity.
pub fn format_id(id: u128) -> (text: String)
    ensures
        text@ == id_text_of(id),
{
    id_text(id)
}

/// Reads an identity.
pub fn read_id(text: &str) -> (id: Option<u128>)
    ensures
        id == parsed_id(text@),
{
    parse_id(text)
}

} // verus!
