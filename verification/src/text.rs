//! Building text: decimal numbers written into a `String`.

use vstd::prelude::*;
use vstd::string::StrSliceExecFns;

verus! {

/// The character of a decimal digit.
pub open spec fn digit_char(d: nat) -> char
    recommends
        d < 10,
{
    ((48 + d) as u8) as char
}

/// The decimal notation of `n`, without leading zeros.
pub open spec fn decimal(n: nat) -> Seq<char>
    decreases n,
{
    if n < 10 {
        seq![digit_char(n)]
    } else {
        decimal(n / 10).push(digit_char(n % 10))
    }
}

/// The decimal notation of `n`, with a leading zero where it has one digit.
pub open spec fn decimal_two(n: nat) -> Seq<char> {
    if n < 10 {
        seq!['0'].add(decimal(n))
    } else {
        decimal(n)
    }
}

/// Calls `String::push`. Trusted: the string grows by the one character at
/// its end.
#[verifier::external_body]
pub(crate) fn push_char(s: &mut String, c: char)
    ensures
        final(s)@ == old(s)@.push(c),
{
    s.push(c)
}

/// Appends the decimal notation of `n`.
pub fn push_decimal(s: &mut String, n: u64)
    ensures
        final(s)@ == old(s)@.add(decimal(n as nat)),
    decreases n,
{
    if n >= 10 {
        push_decimal(s, n / 10);
    }
    let d: u8 = (n % 10) as u8;
    let c: char = (48u8 + d) as char;
    push_char(s, c);
    proof {
        if n < 10 {
            assert(old(s)@.push(c) =~= old(s)@.add(decimal(n as nat)));
        } else {
            assert(old(s)@.add(decimal((n / 10) as nat)).push(c) =~= old(s)@.add(
                decimal(n as nat),
            ));
        }
    }
}

/// Appends the decimal notation of `n`, at least two digits wide.
pub fn push_decimal_two(s: &mut String, n: u64)
    ensures
        final(s)@ == old(s)@.add(decimal_two(n as nat)),
{
    if n < 10 {
        push_char(s, '0');
        push_decimal(s, n);
        assert(old(s)@.push('0').add(decimal(n as nat)) =~= old(s)@.add(decimal_two(n as nat)));
    } else {
        push_decimal(s, n);
    }
}

/// Whether a character is white space: a tab, a line feed, a vertical tab, a
/// form feed, a carriage return, a space, a next-line mark, a no-break
/// space, the ogham space mark, one of the spaces from the en quad to the
/// hair space, a line or paragraph separator, a narrow no-break space, a
/// medium mathematical space or an ideographic space.
pub open spec fn is_blank(c: char) -> bool {
    let u = c as u32;
    ||| 0x09 <= u <= 0x0d
    ||| u == 0x20
    ||| u == 0x85
    ||| u == 0xa0
    ||| u == 0x1680
    ||| 0x2000 <= u <= 0x200a
    ||| u == 0x2028
    ||| u == 0x2029
    ||| u == 0x202f
    ||| u == 0x205f
    ||| u == 0x3000
}

/// The number of white-space characters that a text begins with.
pub open spec fn blanks_before(text: Seq<char>) -> nat
    decreases text.len(),
{
    if text.len() > 0 && is_blank(text[0]) {
        1 + blanks_before(text.drop_first())
    } else {
        0
    }
}

/// The number of white-space characters that a text ends with.
pub open spec fn blanks_after(text: Seq<char>) -> nat
    decreases text.len(),
{
    if text.len() > 0 && is_blank(text.last()) {
        1 + blanks_after(text.drop_last())
    } else {
        0
    }
}

/// A text without the white space that it begins with and ends with.
pub open spec fn trimmed(text: Seq<char>) -> Seq<char> {
    let rest = text.skip(blanks_before(text) as int);
    rest.take(rest.len() - blanks_after(rest))
}

/// A text does not begin or end with more white space than it has
/// characters.
pub proof fn lemma_blanks_bound(text: Seq<char>)
    ensures
        blanks_before(text) <= text.len(),
        blanks_after(text) <= text.len(),
    decreases text.len(),
{
    if text.len() > 0 {
        lemma_blanks_bound(text.drop_first());
        lemma_blanks_bound(text.drop_last());
    }
}

/// Tells whether a character is white space.
pub fn is_blank_char(c: char) -> (blank: bool)
    ensures
        blank == is_blank(c),
{
    let u: u32 = c as u32;
    (0x09 <= u && u <= 0x0d) || u == 0x20 || u == 0x85 || u == 0xa0 || u == 0x1680 || (0x2000 <= u
        && u <= 0x200a) || u == 0x2028 || u == 0x2029 || u == 0x202f || u == 0x205f || u == 0x3000
}

/// Cuts the white space off both ends of a text.
pub fn trim<'a>(text: &'a str) -> (cut: &'a str)
    ensures
        cut@ == trimmed(text@),
{
    let n = text.unicode_len();
    let mut a: usize = 0;
    assert(text@.skip(0) =~= text@);
    while a < n && is_blank_char(text.get_char(a))
        invariant
            a <= n == text@.len(),
            blanks_before(text@) == a + blanks_before(text@.skip(a as int)),
        decreases n - a,
    {
        assert(text@.skip(a as int).drop_first() =~= text@.skip(a + 1));
        a += 1;
    }
    let ghost rest = text@.skip(a as int);
    assert(blanks_before(rest) == 0);
    let mut b: usize = n;
    assert(rest.take(n - a) =~= rest);
    while b > a && is_blank_char(text.get_char(b - 1))
        invariant
            a <= b <= n == text@.len(),
            rest == text@.skip(a as int),
            blanks_after(rest) == (n - b) + blanks_after(rest.take(b - a)),
        decreases b,
    {
        assert(rest.take(b - a).last() == text@[b - 1]);
        assert(rest.take(b - a).drop_last() =~= rest.take(b - a - 1));
        b -= 1;
    }
    proof {
        if b > a {
            assert(rest.take(b - a).last() == text@[b - 1]);
        }
        assert(blanks_after(rest.take(b - a)) == 0);
        assert(text@.subrange(a as int, b as int) =~= rest.take(b - a));
    }
    text.substring_char(a, b)
}

} // verus!
