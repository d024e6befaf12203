//! Identifiers of the sources that count their strips: `#` and a number.

use crate::text::{
    all_digits, chars_of, decimal, decimal_text, digit_char, digits_value, is_digit, join2,
    parse_u32, parsed_u32, text_of, unsigned_body,
};
use vstd::prelude::*;

verus! {

/// The identifier of strip number `n`.
pub open spec fn number_tag(n: nat) -> Seq<char> {
    seq!['#'] + decimal(n)
}

/// `s` without the one `#` that may lead it.
pub open spec fn without_hash(s: Seq<char>) -> Seq<char> {
    if s.len() > 0 && s[0] == '#' {
        s.drop_first()
    } else {
        s
    }
}

/// The number that an identifier names: what the standard parser reads in
/// the identifier without its `#`.
pub open spec fn tagged_number(identifier: Seq<char>) -> Option<u32> {
    parsed_u32(without_hash(identifier))
}

/// The number before `n`, where strips are counted from 1.
pub open spec fn predecessor(n: nat) -> Option<nat> {
    if n > 1 {
        Some((n - 1) as nat)
    } else {
        None
    }
}

/// The number after `n`.
pub open spec fn successor(n: nat) -> nat {
    n + 1
}

/// The identifier of strip number `n`.
pub fn tag_of(n: u64) -> (r: String)
    ensures
        r@ == number_tag(n as nat),
{
    let digits = decimal_text(n);
    proof {
        reveal_strlit("#");
        assert("#"@ =~= seq!['#']);
    }
    join2("#", digits.as_str())
}

/// The number that an identifier names.
pub fn number_of(identifier: &str) -> (r: Option<u32>)
    ensures
        r == tagged_number(identifier@),
{
    let chars = chars_of(identifier);
    if chars.len() > 0 && chars[0] == '#' {
        let rest = text_of(&chars, 1, chars.len());
        assert(chars@.subrange(1, chars@.len() as int) =~= chars@.drop_first());
        parse_u32(rest.as_str())
    } else {
        parse_u32(identifier)
    }
}

/// A number in decimal notation is made of digits, at least one, and is
/// worth the number.
pub proof fn lemma_decimal_is_read_back(n: nat)
    ensures
        decimal(n).len() > 0,
        all_digits(decimal(n)),
        digits_value(decimal(n)) == n,
    decreases n,
{
    if n < 10 {
        let s = decimal(n);
        assert(s.len() == 1);
        assert(s[0] == digit_char(n as int));
        assert(s.drop_last() =~= Seq::<char>::empty());
        assert(digits_value(s.drop_last()) == 0);
    } else {
        lemma_decimal_is_read_back(n / 10);
        let s = decimal(n);
        let head = decimal(n / 10);
        assert(s.drop_last() =~= head);
        assert(s.last() == digit_char((n % 10) as int));
        assert forall|i: int| 0 <= i < s.len() implies is_digit(#[trigger] s[i]) by {
            if i < head.len() {
                assert(s[i] == head[i]);
            }
        }
    }
}

/// The identifier of a strip names that strip's number.
pub proof fn lemma_tag_names_its_number(n: u32)
    ensures
        tagged_number(number_tag(n as nat)) == Some(n),
{
    lemma_decimal_is_read_back(n as nat);
    let tag = number_tag(n as nat);
    assert(tag[0] == '#');
    assert(without_hash(tag) =~= decimal(n as nat));
    let digits = decimal(n as nat);
    assert(is_digit(digits[0]));
    assert(unsigned_body(digits) == digits);
}

/// Among counted strips, the one before lies before and the one after lies
/// after, and only the first strip has none before it.
pub proof fn lemma_neighbours_are_ordered(n: nat)
    requires
        n >= 1,
    ensures
        n < successor(n),
        predecessor(n) matches Some(p) ==> p < n,
        predecessor(n) is None <==> n == 1,
{
}

} // verus!
