//! Numbers and names as text.
use crate::text::{
    all_digits, digit_text, digits_value, i64_of, int_text, is_digit, joined, nat_text,
    number_or_zero, without_underscores,
};
use vstd::prelude::*;

verus! {

/// A digit is its sign.
pub proof fn digits(d: nat)
    requires
        d < 10,
    ensures
        digit_text(d).len() == 1,
        digit_text(d)[0] as int == '0' as int + d,
        is_digit(digit_text(d)[0]),
{
    reveal_strlit("0");
    reveal_strlit("1");
    reveal_strlit("2");
    reveal_strlit("3");
    reveal_strlit("4");
    reveal_strlit("5");
    reveal_strlit("6");
    reveal_strlit("7");
    reveal_strlit("8");
    reveal_strlit("9");
}

/// A number in decimal is made of digits, without a sign, and stands for that number.
pub proof fn numbers_in_decimal(n: nat)
    ensures
        nat_text(n).len() > 0,
        all_digits(nat_text(n)),
        digits_value(nat_text(n)) == n,
        n > 9 ==> nat_text(n)[0] != '0',
        n > 0 ==> nat_text(n)[0] != '0',
    decreases n,
{
    let s = nat_text(n);
    if n < 10 {
        digits(n);
        assert(s.drop_last() =~= Seq::<char>::empty());
        assert(digits_value(s.drop_last()) == 0);
        assert(s.last() == s[0]);
    } else {
        numbers_in_decimal(n / 10);
        digits(n % 10);
        let head = nat_text(n / 10);
        assert(s.drop_last() =~= head);
        assert(s.last() == digit_text(n % 10)[0]);
        assert forall|i: int| 0 <= i < s.len() implies #[trigger] is_digit(s[i]) by {
            if i < head.len() {
                assert(is_digit(head[i]));
                assert(s[i] == head[i]);
            } else {
                assert(s[i] == digit_text(n % 10)[0]);
            }
        }
        assert(s[0] == head[0]);
        assert(digits_value(s) == 10 * (n / 10) + n % 10);
    }
}

/// What is written for a number is read as that number.
pub proof fn numbers_are_read_back(n: u64, i: i64)
    ensures
        number_or_zero(nat_text(n as nat)) == n,
        i64_of(int_text(i as int)) == Some(i),
{
    numbers_in_decimal(n as nat);
    let s = nat_text(n as nat);
    assert(is_digit(s[0]));
    if i < 0 {
        let d = (-(i as int)) as nat;
        numbers_in_decimal(d);
        reveal_strlit("-");
        let t = int_text(i as int);
        assert(t[0] == '-');
        assert(t.skip(1) =~= nat_text(d));
    } else {
        numbers_in_decimal(i as nat);
        let t = int_text(i as int);
        assert(is_digit(t[0]));
    }
}

/// A `+` in front changes nothing; a text that holds anything but digits behind it, or none, or
/// too many, stands for no number.
pub proof fn texts_that_are_no_numbers(s: Seq<char>, i: int)
    ensures
        s.len() > 0 && s[0] != '+' ==> number_or_zero(seq!['+'] + s) == number_or_zero(s),
        s.len() == 0 ==> number_or_zero(s) == 0 && i64_of(s) is None,
        1 <= i < s.len() && !is_digit(s[i]) ==> number_or_zero(s) == 0 && i64_of(s) is None,
        s.len() > 0 && !is_digit(s[0]) && s[0] != '+' ==> number_or_zero(s) == 0,
        s.len() > 0 && !is_digit(s[0]) && s[0] != '+' && s[0] != '-' ==> i64_of(s) is None,
        all_digits(s) && s.len() > 0 && digits_value(s) > u64::MAX ==> number_or_zero(s) == 0,
        all_digits(s) && s.len() > 0 && digits_value(s) > i64::MAX ==> i64_of(s) is None,
        all_digits(s) && s.len() > 0 && digits_value(s) <= i64::MAX ==> i64_of(s) == Some(
            digits_value(s) as i64,
        ),
{
    assert((seq!['+'] + s).skip(1) =~= s);
    assert((seq!['+'] + s)[0] == '+');
    if 1 <= i < s.len() && !is_digit(s[i]) {
        assert(s.skip(1)[i - 1] == s[i]);
        assert(!all_digits(s));
        assert(!all_digits(s.skip(1)));
    }
    if s.len() > 0 && !is_digit(s[0]) {
        assert(!all_digits(s));
    }
    if all_digits(s) && s.len() > 0 {
        assert(is_digit(s[0]));
    }
}

/// Underscores are left out, and nothing else is.
pub proof fn underscores_are_left_out(s: Seq<char>, c: char)
    ensures
        without_underscores(seq![]) == Seq::<char>::empty(),
        c == '_' ==> without_underscores(s.push(c)) == without_underscores(s),
        c != '_' ==> without_underscores(s.push(c)) == without_underscores(s).push(c),
{
    reveal(Seq::filter);
    assert(s.push(c).drop_last() =~= s);
}

/// Names are joined in their order, with `::` between each two.
pub proof fn names_are_joined(parts: Seq<Seq<char>>, name: Seq<char>)
    ensures
        joined(seq![name]) == name,
        parts.len() > 0 ==> joined(parts.push(name)) == joined(parts) + "::"@ + name,
{
    if parts.len() > 0 {
        assert(parts.push(name).drop_last() =~= parts);
    }
}

} // verus!
