//! Laws of texts.
use vstd::prelude::*;

use crate::text::{decimal_text, first_chars, same_text};
#[allow(unused_imports)]
use crate::text::{decimal, digit};

verus! {

/// The number that digits stand for, the last of which counts ones.
pub open spec fn number_of(digits: Seq<char>) -> int
    decreases digits.len(),
{
    if digits.len() == 0 {
        0
    } else {
        10 * number_of(digits.drop_last()) + (digits.last() as int - '0' as int)
    }
}

/// The decimal text of a number is made of digits, without a leading zero but for
/// zero itself, and stands for that number.
proof fn lemma_decimal(n: nat)
    ensures
        decimal(n).len() > 0,
        forall|i: int| 0 <= i < decimal(n).len() ==> '0' <= #[trigger] decimal(n)[i] <= '9',
        n > 0 ==> decimal(n)[0] != '0',
        n == 0 ==> decimal(n).len() == 1,
        number_of(decimal(n)) == n,
    decreases n,
{
    reveal_with_fuel(number_of, 2);
    if n < 10 {
        assert(decimal(n).drop_last() =~= Seq::empty());
        assert(decimal(n)[0] == digit(n));
    } else {
        lemma_decimal(n / 10);
        let front = decimal(n / 10);
        assert(decimal(n).drop_last() =~= front);
        assert(decimal(n)[0] == front[0]);
        assert forall|i: int| 0 <= i < decimal(n).len() implies '0' <= #[trigger] decimal(n)[i]
            <= '9' by {
            if i < front.len() {
                assert(decimal(n)[i] == front[i]);
            }
        }
    }
}

/// A number is written in decimal digits, without a leading zero but for zero
/// itself, and reading them gives the number.
pub proof fn lemma_number_written(n: usize, r: String)
    requires
        call_ensures(decimal_text, (n,), r),
    ensures
        r@.len() > 0,
        forall|i: int| 0 <= i < r@.len() ==> '0' <= #[trigger] r@[i] <= '9',
        n > 0 ==> r@[0] != '0',
        n == 0 ==> r@.len() == 1,
        number_of(r@) == n,
{
    lemma_decimal(n as nat);
}

/// The first characters of a text are its own, as many as were asked for or as
/// there are.
pub proof fn lemma_first_chars(s: &str, n: usize, r: String)
    requires
        call_ensures(first_chars, (s, n), r),
    ensures
        n <= s@.len() ==> r@.len() == n,
        n >= s@.len() ==> r@.len() == s@.len(),
        forall|i: int| 0 <= i < r@.len() ==> #[trigger] r@[i] == s@[i],
{
}

/// Two texts are the same exactly where they hold the same characters.
pub proof fn lemma_same_text(a: &str, b: &str, r: bool)
    requires
        call_ensures(same_text, (a, b), r),
    ensures
        r <==> a@ == b@,
{
}

} // verus!
