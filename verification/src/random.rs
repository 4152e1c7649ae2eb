//! Random numbers, and identifiers made of them.

use vstd::prelude::*;

use crate::text;

verus! {

/// Whether a number is marked as one that was drawn at random: its thirteenth hexadecimal digit
/// is a four, and the two bits at the top of its seventeenth are one and zero.
pub open spec fn is_marked_random(key: u128) -> bool {
    &&& (key / 0x1000_0000_0000_0000_0000) % 16 == 4
    &&& (key / 0x4000_0000_0000_0000) % 4 == 2
}

/// A random number, from `uuid::Uuid::new_v4` and its `as_u128`. Which one it is rests on
/// chance; all that is claimed of it is the mark that every such identifier bears.
#[verifier::external_body]
pub(crate) fn random_key() -> (r: u128)
    ensures
        is_marked_random(r),
{
    uuid::Uuid::new_v4().as_u128()
}

/// The hexadecimal digit of value `d`, in lower case.
pub open spec fn hex_digit(d: int) -> char {
    "0123456789abcdef"@[d]
}

/// The last `width` hexadecimal digits of `n`.
pub open spec fn hex(n: nat, width: nat) -> Seq<char>
    decreases width,
{
    if width == 0 {
        Seq::empty()
    } else {
        hex(n / 16, (width - 1) as nat).push(hex_digit((n % 16) as int))
    }
}

/// A number in the hyphenated form of an identifier: groups of eight, four, four, four and
/// twelve hexadecimal digits.
pub open spec fn hyphenated(key: u128) -> Seq<char> {
    let digits = hex(key as nat, 32);
    digits.subrange(0, 8) + "-"@ + digits.subrange(8, 12) + "-"@ + digits.subrange(12, 16) + "-"@
        + digits.subrange(16, 20) + "-"@ + digits.subrange(20, 32)
}

/// An identifier's text, from `uuid::Uuid::from_u128` and `Uuid::to_string`: the thirty-two
/// lower-case hexadecimal digits of the number, most significant first, in five hyphenated
/// groups.
#[verifier::external_body]
pub(crate) fn identifier_text(key: u128) -> (r: String)
    ensures
        r@ == hyphenated(key),
{
    uuid::Uuid::from_u128(key).to_string()
}

/// A fresh random identifier.
pub fn fresh_identifier() -> (r: String)
    ensures
        exists|key: u128| is_marked_random(key) && r@ == #[trigger] hyphenated(key),
{
    let key = random_key();
    identifier_text(key)
}

/// There are as many digits as asked for.
pub proof fn lemma_hex_len(n: nat, width: nat)
    ensures
        hex(n, width).len() == width,
    decreases width,
{
    if width > 0 {
        lemma_hex_len(n / 16, (width - 1) as nat);
    }
}

/// No digit is white space.
pub proof fn lemma_hex_is_not_space(n: nat, width: nat, i: int)
    requires
        0 <= i < width,
    ensures
        !text::is_space(hex(n, width)[i]),
    decreases width,
{
    lemma_hex_len(n, width);
    lemma_hex_len(n / 16, (width - 1) as nat);
    if i == width - 1 {
        reveal_strlit("0123456789abcdef");
        let d = (n % 16) as int;
        assert(0 <= d < 16);
        assert(!text::is_space(hex_digit(d)));
    } else {
        lemma_hex_is_not_space(n / 16, (width - 1) as nat, i);
    }
}

/// An identifier is thirty-two digits in five groups, each digit saying its sixteenth part of the
/// key.
pub proof fn law_an_identifier_writes_the_key(key: u128)
    ensures
        hyphenated(key).len() == 36,
        hyphenated(key)[8] == '-',
        hyphenated(key)[13] == '-',
        hyphenated(key)[18] == '-',
        hyphenated(key)[23] == '-',
        hyphenated(key)[35] == "0123456789abcdef"@[(key % 16) as int],
        hyphenated(key)[34] == "0123456789abcdef"@[(key / 16 % 16) as int],
{
    reveal_strlit("-");
    lemma_hex_len(key as nat, 32);
    lemma_hex_len(key as nat / 16, 31);
    let digits = hex(key as nat, 32);
    let shorter = hex(key as nat / 16, 31);
    assert(digits == shorter.push(hex_digit((key as nat % 16) as int)));
    lemma_hex_len(key as nat / 16 / 16, 30);
    assert(shorter == hex(key as nat / 16 / 16, 30).push(
        hex_digit((key as nat / 16 % 16) as int),
    ));
    assert(hyphenated(key)[35] == digits[31]);
    assert(hyphenated(key)[34] == digits[30]);
}

} // verus!
