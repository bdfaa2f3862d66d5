//! Text helpers: decimal numbers, prefixes and comparison of strings.
use vstd::prelude::*;
use vstd::string::*;

verus! {

/// The standard library's comparison of two string slices: they are equal
/// exactly when they hold the same characters.
pub assume_specification[ <str as PartialEq>::eq ](a: &str, b: &str) -> (r: bool)
    ensures
        r == (a@ == b@),
;

/// Whether two strings hold the same characters.
pub fn same_text(a: &str, b: &str) -> (r: bool)
    ensures
        r == (a@ == b@),
{
    str::eq(a, b)
}

/// The character of a decimal digit.
pub open spec fn digit(d: nat) -> char {
    (d + '0' as nat) as char
}

/// The decimal digits of a number, without leading zeros.
pub open spec fn decimal(n: nat) -> Seq<char>
    decreases n,
{
    if n < 10 {
        seq![digit(n)]
    } else {
        decimal(n / 10).push(digit(n % 10))
    }
}

/// The text of one decimal digit.
fn digit_text(d: usize) -> (r: String)
    requires
        d < 10,
    ensures
        r@ == seq![digit(d as nat)],
{
    let digits = "0123456789";
    proof {
        reveal_strlit("0123456789");
    }
    let one = digits.substring_char(d, d + 1).to_owned();
    assert(one@ =~= seq![digit(d as nat)]);
    one
}

/// The decimal text of a number.
pub fn decimal_text(n: usize) -> (r: String)
    ensures
        r@ == decimal(n as nat),
    decreases n,
{
    let last = digit_text(n % 10);
    if n < 10 {
        last
    } else {
        let mut text = decimal_text(n / 10);
        text.append(last.as_str());
        assert(text@ =~= decimal(n as nat));
        text
    }
}

/// The first `n` characters, or all of them where there are fewer.
pub open spec fn prefix(s: Seq<char>, n: nat) -> Seq<char> {
    if n < s.len() {
        s.take(n as int)
    } else {
        s
    }
}

/// Returns at most the first `n` characters of `s`; a multi-byte character is
/// never split.
pub fn first_chars(s: &str, n: usize) -> (r: String)
    ensures
        r@ == prefix(s@, n as nat),
        r@.len() <= n,
        r@.is_prefix_of(s@),
{
    if n < s.unicode_len() {
        let head = s.substring_char(0, n).to_owned();
        assert(head@ =~= s@.take(n as int));
        head
    } else {
        s.to_owned()
    }
}

} // verus!
