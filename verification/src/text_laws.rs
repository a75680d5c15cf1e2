//! What holds of texts that are trimmed, joined and made of numbers.

use vstd::prelude::*;

use crate::text;

verus! {

/// All of the text is white space.
pub open spec fn is_blank(s: Seq<char>) -> bool {
    forall|i: int| 0 <= i < s.len() ==> text::is_white_space(#[trigger] s[i])
}

/// The text is the other with only white space around it.
pub open spec fn stands_in(s: Seq<char>, inner: Seq<char>, before: int) -> bool {
    &&& 0 <= before
    &&& before + inner.len() <= s.len()
    &&& s.subrange(before, before + inner.len()) == inner
    &&& is_blank(s.take(before))
    &&& is_blank(s.skip(before + inner.len()))
}

/// Trimming takes white space from both ends, and nothing else: what is left stands in the
/// text, has no white space at its ends, and all around it is white space.
pub proof fn law_trimming_takes_white_space_only(s: Seq<char>)
    ensures
        exists|before: int| stands_in(s, text::trimmed(s), before),
        text::trimmed(s).len() > 0 ==> !text::is_white_space(text::trimmed(s)[0])
            && !text::is_white_space(text::trimmed(s).last()),
        text::trimmed(text::trimmed(s)) == text::trimmed(s),
    decreases s.len(),
{
    let left = text::trimmed(s);
    if s.len() > 0 && text::is_white_space(s[0]) {
        let rest = s.drop_first();
        law_trimming_takes_white_space_only(rest);
        let at = choose|before: int| stands_in(rest, left, before);
        assert(s.subrange(at + 1, at + 1 + left.len()) =~= rest.subrange(at, at + left.len()));
        assert(s.skip(at + 1 + left.len()) =~= rest.skip(at + left.len()));
        assert forall|i: int| 0 <= i < at + 1 implies text::is_white_space(
            #[trigger] s.take(at + 1)[i],
        ) by {
            if i > 0 {
                assert(rest.take(at)[i - 1] == s.take(at + 1)[i]);
            }
        }
        assert(stands_in(s, left, at + 1));
    } else if s.len() > 0 && text::is_white_space(s.last()) {
        let rest = s.drop_last();
        law_trimming_takes_white_space_only(rest);
        let at = choose|before: int| stands_in(rest, left, before);
        assert(s.subrange(at, at + left.len()) =~= rest.subrange(at, at + left.len()));
        assert(s.take(at) =~= rest.take(at));
        let behind = s.skip(at + left.len());
        assert forall|i: int| 0 <= i < behind.len() implies text::is_white_space(
            #[trigger] behind[i],
        ) by {
            if i < behind.len() - 1 {
                assert(rest.skip(at + left.len())[i] == behind[i]);
            } else {
                assert(behind[i] == s.last());
            }
        }
        assert(stands_in(s, left, at));
    } else {
        assert(s.subrange(0, s.len() as int) =~= s);
        assert(stands_in(s, left, 0));
    }
}

/// The number that decimal digits stand for.
pub open spec fn value(s: Seq<char>) -> int
    decreases s.len(),
{
    if s.len() == 0 {
        0
    } else {
        10 * value(s.drop_last()) + (s.last() as int - '0' as int)
    }
}

/// The decimal text of a number is made of digits that stand for it, and does not start with
/// a zero that could be left out.
pub proof fn law_decimals_stand_for_their_number(n: nat)
    ensures
        value(text::decimal(n)) == n,
        forall|i: int|
            0 <= i < text::decimal(n).len() ==> '0' <= #[trigger] text::decimal(n)[i] <= '9',
        text::decimal(n).len() >= 1,
        n > 0 ==> text::decimal(n)[0] != '0',
    decreases n,
{
    reveal_with_fuel(value, 2);
    if n < 10 {
        assert(seq![text::digit(n)].drop_last() =~= Seq::empty());
        assert(seq![text::digit(n)].last() == text::digit(n));
    } else {
        law_decimals_stand_for_their_number(n / 10);
        let front = text::decimal(n / 10);
        let s = text::decimal(n);
        assert(s == front.push(text::digit(n % 10)));
        assert(s.drop_last() =~= front);
        assert(s.last() == text::digit(n % 10));
        assert(s[0] == front[0]);
        assert forall|i: int| 0 <= i < s.len() implies '0' <= #[trigger] s[i] <= '9' by {
            if i < front.len() {
                assert(s[i] == front[i]);
            }
        }
    }
}

/// A negative number is written with a minus sign before the digits.
pub proof fn law_signs_are_written(n: int)
    ensures
        n >= 0 ==> text::signed_decimal(n) == text::decimal(n as nat),
        n < 0 ==> text::signed_decimal(n).len() > 1 && text::signed_decimal(n)[0] == '-'
            && text::signed_decimal(n).skip(1) == text::decimal((-n) as nat),
{
    if n < 0 {
        law_decimals_stand_for_their_number((-n) as nat);
        assert(text::signed_decimal(n).skip(1) =~= text::decimal((-n) as nat));
    }
}

/// Texts are joined in their order, with the separator between neighbours and nowhere else.
pub proof fn law_separators_stand_between(parts: Seq<Seq<char>>, part: Seq<char>, sep: Seq<char>)
    ensures
        text::joined(Seq::empty(), sep) == Seq::<char>::empty(),
        text::joined(seq![part], sep) == part,
        parts.len() > 0 ==> text::joined(parts.push(part), sep) == text::joined(parts, sep) + sep
            + part,
{
    assert(parts.push(part).drop_last() =~= parts);
}

} // verus!
