//! Prompt identifiers: 128-bit values with a canonical textual form.

use vstd::prelude::*;

verus! {

/// Hexadecimal digit `position` of `value`, counting from the least
/// significant digit.
pub open spec fn hex_digit_of(value: nat, position: nat) -> nat
    decreases position,
{
    if position == 0 {
        value % 16
    } else {
        hex_digit_of(value / 16, (position - 1) as nat)
    }
}

/// The lower-case character that stands for a hexadecimal digit.
pub open spec fn hex_char(digit: nat) -> char {
    seq![
        '0', '1', '2', '3', '4', '5', '6', '7', '8', '9', 'a', 'b', 'c', 'd', 'e', 'f',
    ][digit as int]
}

/// Whether a hyphen stands at `index` of the canonical text.
pub open spec fn is_hyphen_position(index: int) -> bool {
    index == 8 || index == 13 || index == 18 || index == 23
}

/// The number of hexadecimal digits that stand before `index` in the
/// canonical text.
pub open spec fn digits_before(index: int) -> int {
    if index < 8 {
        index
    } else if index < 13 {
        index - 1
    } else if index < 18 {
        index - 2
    } else if index < 23 {
        index - 3
    } else {
        index - 4
    }
}

/// The character at `index` of the canonical text of `bits`.
pub open spec fn canonical_char(bits: u128, index: int) -> char {
    if is_hyphen_position(index) {
        '-'
    } else {
        hex_char(hex_digit_of(bits as nat, (31 - digits_before(index)) as nat))
    }
}

/// The canonical text of an identifier: its 32 hexadecimal digits, most
/// significant first, in lower case and in groups of 8, 4, 4, 4 and 12
/// separated by hyphens.
pub open spec fn canonical_text(bits: u128) -> Seq<char> {
    Seq::new(36, |index: int| canonical_char(bits, index))
}

/// `value` without its `count` least significant hexadecimal digits.
pub open spec fn without_low_digits(value: nat, count: nat) -> nat
    decreases count,
{
    if count == 0 {
        value
    } else {
        without_low_digits(value / 16, (count - 1) as nat)
    }
}

/// Sixteen to the power of `exponent`.
pub open spec fn sixteen_to(exponent: nat) -> nat
    decreases exponent,
{
    if exponent == 0 {
        1
    } else {
        16 * sixteen_to((exponent - 1) as nat)
    }
}

/// Two numbers that agree in their `count` lowest digits and in what is
/// left above them are the same number.
proof fn lemma_digits_determine(a: nat, b: nat, count: nat)
    requires
        forall|position: nat| position < count ==> hex_digit_of(a, position) == hex_digit_of(b, position),
        without_low_digits(a, count) == without_low_digits(b, count),
    ensures
        a == b,
    decreases count,
{
    if count > 0 {
        let upper_a = a / 16;
        let upper_b = b / 16;
        assert forall|position: nat| position < count - 1 implies #[trigger] hex_digit_of(
            upper_a,
            position,
        ) == hex_digit_of(upper_b, position) by {
            assert(hex_digit_of(a, position + 1) == hex_digit_of(upper_a, position));
            assert(hex_digit_of(b, position + 1) == hex_digit_of(upper_b, position));
        }
        lemma_digits_determine(upper_a, upper_b, (count - 1) as nat);
        assert(hex_digit_of(a, 0) == hex_digit_of(b, 0));
    }
}

/// A number below sixteen to the `count` has nothing above its `count`
/// lowest digits.
proof fn lemma_small_numbers_end(value: nat, count: nat)
    requires
        value < sixteen_to(count),
    ensures
        without_low_digits(value, count) == 0,
    decreases count,
{
    if count > 0 {
        lemma_small_numbers_end(value / 16, (count - 1) as nat);
    }
}

/// Every hexadecimal digit is below sixteen.
proof fn lemma_digit_range(value: nat, position: nat)
    ensures
        hex_digit_of(value, position) < 16,
    decreases position,
{
    if position > 0 {
        lemma_digit_range(value / 16, (position - 1) as nat);
    }
}

/// Distinct digits are written with distinct characters.
proof fn lemma_hex_char_injective(a: nat, b: nat)
    requires
        a < 16,
        b < 16,
        hex_char(a) == hex_char(b),
    ensures
        a == b,
{
    assert(hex_char(0) == '0' && hex_char(1) == '1' && hex_char(2) == '2' && hex_char(3) == '3');
    assert(hex_char(4) == '4' && hex_char(5) == '5' && hex_char(6) == '6' && hex_char(7) == '7');
    assert(hex_char(8) == '8' && hex_char(9) == '9' && hex_char(10) == 'a' && hex_char(11) == 'b');
    assert(hex_char(12) == 'c' && hex_char(13) == 'd' && hex_char(14) == 'e' && hex_char(15) == 'f');
}

/// The index in the canonical text at which digit number `digit` stands,
/// the most significant digit being number 0.
pub open spec fn index_of_digit(digit: int) -> int {
    if digit < 8 {
        digit
    } else if digit < 12 {
        digit + 1
    } else if digit < 16 {
        digit + 2
    } else if digit < 20 {
        digit + 3
    } else {
        digit + 4
    }
}

/// Two identifiers with the same canonical text are the same identifier.
pub proof fn lemma_canonical_text_injective(a: u128, b: u128)
    requires
        canonical_text(a) == canonical_text(b),
    ensures
        a == b,
{
    assert forall|position: nat| position < 32 implies hex_digit_of(a as nat, position)
        == hex_digit_of(b as nat, position) by {
        let index = index_of_digit(31 - position);
        assert(!is_hyphen_position(index));
        assert(digits_before(index) == 31 - position);
        assert(canonical_text(a)[index] == canonical_char(a, index));
        assert(canonical_text(b)[index] == canonical_char(b, index));
        lemma_digit_range(a as nat, position);
        lemma_digit_range(b as nat, position);
        lemma_hex_char_injective(hex_digit_of(a as nat, position), hex_digit_of(b as nat, position));
    }
    assert(sixteen_to(32) == 0x1_0000_0000_0000_0000_0000_0000_0000_0000) by {
        reveal_with_fuel(sixteen_to, 33);
    }
    lemma_small_numbers_end(a as nat, 32);
    lemma_small_numbers_end(b as nat, 32);
    lemma_digits_determine(a as nat, b as nat, 32);
}

/// The identifier whose canonical text `text` is, if there is one.
pub open spec fn canonical_id(text: Seq<char>) -> Option<PromptId> {
    if exists|bits: u128| canonical_text(bits) == text {
        Some(PromptId { bits: choose|bits: u128| canonical_text(bits) == text })
    } else {
        None
    }
}

/// The canonical text of an identifier names that identifier and no other.
pub proof fn lemma_canonical_id_of_text(id: PromptId)
    ensures
        canonical_id(canonical_text(id.bits)) == Some(id),
{
    let text = canonical_text(id.bits);
    assert(canonical_text(id.bits) == text);
    let chosen = choose|bits: u128| canonical_text(bits) == text;
    lemma_canonical_text_injective(chosen, id.bits);
}

/// The identifier that `uuid::Uuid::parse_str` reads from a text, if it
/// accepts the text.
pub uninterp spec fn uuid_of_text(text: Seq<char>) -> Option<u128>;

/// `uuid::Uuid::parse_str`, with the identifier handed back as its 128-bit
/// value. Believed of it: the result depends on the text alone, and the
/// canonical text of an identifier is read back as that identifier.
#[verifier::external_body]
fn uuid_from_text(text: &str) -> (bits: Option<u128>)
    ensures
        bits == uuid_of_text(text@),
        forall|b: u128| text@ == canonical_text(b) ==> bits == Some(b),
{
    match uuid::Uuid::parse_str(text) {
        Ok(id) => Some(id.as_u128()),
        Err(_) => None,
    }
}

/// `uuid::Uuid`'s `Display`, applied to the identifier with the given
/// 128-bit value. Believed of it: the text is the canonical text.
#[verifier::external_body]
fn uuid_to_text(bits: u128) -> (text: String)
    ensures
        text@ == canonical_text(bits),
{
    uuid::Uuid::from_u128(bits).to_string()
}

/// `uuid::Uuid::new_v4`, handed back as its 128-bit value. Believed of it:
/// whatever is drawn, hexadecimal digit 19 (counted from the least
/// significant) is the version, 4, and digit 15 carries the variant, so it is
/// 8, 9, 10 or 11.
#[verifier::external_body]
pub(crate) fn random_bits() -> (bits: u128)
    ensures
        hex_digit_of(bits as nat, 19) == 4,
        8 <= hex_digit_of(bits as nat, 15) <= 11,
{
    uuid::Uuid::new_v4().as_u128()
}

/// The identifier of a prompt.
#[derive(Clone, Copy, Debug, PartialEq, Eq, Hash, Structural)]
pub struct PromptId {
    pub bits: u128,
}

impl PromptId {
    /// The canonical text of this identifier.
    pub fn to_text(&self) -> (text: String)
        ensures
            text@ == canonical_text(self.bits),
    {
        uuid_to_text(self.bits)
    }

    /// Reads an identifier from any of the textual forms that the `uuid`
    /// crate accepts. The canonical text of an identifier is always read
    /// back as that identifier.
    pub fn parse(text: &str) -> (id: Option<PromptId>)
        ensures
            id == match uuid_of_text(text@) {
                Some(bits) => Some(PromptId { bits }),
                None => None,
            },
            forall|b: u128| text@ == canonical_text(b) ==> id == Some(PromptId { bits: b }),
    {
        match uuid_from_text(text) {
            Some(bits) => Some(PromptId { bits }),
            None => None,
        }
    }

    /// Reads an identifier from its canonical text, and from nothing else.
    pub fn from_canonical(text: &str) -> (id: Option<PromptId>)
        ensures
            id == canonical_id(text@),
    {
        match uuid_from_text(text) {
            Some(bits) => {
                let written = uuid_to_text(bits);
                let given = text.to_owned();
                if written == given {
                    proof {
                        lemma_canonical_id_of_text(PromptId { bits });
                    }
                    Some(PromptId { bits })
                } else {
                    None
                }
            },
            None => None,
        }
    }
}

} // verus!
