//! What operators and comparisons make of numbers.

use vstd::arithmetic::power::pow;
use vstd::prelude::*;
use crate::laws::numbers::{
    choice_text, is_set, law_kicked_numbers, lemma_choice, lemma_not_a_number, lemma_number_chars,
    lemma_parts_from, lemma_starts, player_of,
};
use crate::laws::turns::{lemma_first_none, lemma_lacks, lemma_no_dot};
use crate::spell::AbilityView;
use crate::game::GameState;
use crate::svar::eval::{
    after_math, count_value, formed, numeric, value_hops, MAX_SVAR_RESOLUTION_DEPTH,
};
use crate::svar::math::{
    half_down, half_up, law_division, operated, power_of, quotient, remainder, third_down, third_up,
};
use crate::svar::scene::SceneView;
use crate::svar::simple::{compared, simple_value};
use crate::text::{
    has_prefix, int_value, lemma_pieces_joined, lowered, occurs_at, pieces, same_ignoring_case,
    trimmed,
};
use crate::types::CardId;

verus! {

/// Whether a number fits.
pub open spec fn fits(n: int) -> bool {
    i32::MIN <= n <= i32::MAX
}

proof fn lemma_plus(n: i32, k: i32)
    ensures
        operated(n, "Plus"@, k) == n.wrapping_add(k),
{
    let w = "Plus"@;
    reveal_strlit("Plus");
    assert(w.subrange(0, w.len() as int) =~= w);
    assert(occurs_at(w, w, 0));
}

proof fn lemma_nminus(n: i32, k: i32)
    ensures
        operated(n, "NMinus"@, k) == k.wrapping_sub(n),
{
    let w = "NMinus"@;
    reveal_strlit("NMinus");
    reveal_strlit("Plus");
    lemma_lacks(w, "Plus"@, 0);
    assert(w.subrange(0, w.len() as int) =~= w);
    assert(occurs_at(w, w, 0));
}

proof fn lemma_minus(n: i32, k: i32)
    ensures
        operated(n, "Minus"@, k) == n.wrapping_sub(k),
{
    let w = "Minus"@;
    reveal_strlit("Minus");
    reveal_strlit("Plus");
    lemma_lacks(w, "Plus"@, 0);
    reveal_strlit("NMinus");
    lemma_lacks(w, "NMinus"@, 0);
    assert(w.subrange(0, w.len() as int) =~= w);
    assert(occurs_at(w, w, 0));
}

proof fn lemma_twice(n: i32, k: i32)
    ensures
        operated(n, "Twice"@, k) == n.wrapping_mul(2),
{
    let w = "Twice"@;
    reveal_strlit("Twice");
    reveal_strlit("Plus");
    lemma_lacks(w, "Plus"@, 0);
    reveal_strlit("NMinus");
    lemma_lacks(w, "NMinus"@, 0);
    reveal_strlit("Minus");
    lemma_lacks(w, "Minus"@, 0);
    assert(w.subrange(0, w.len() as int) =~= w);
    assert(occurs_at(w, w, 0));
}

proof fn lemma_thrice(n: i32, k: i32)
    ensures
        operated(n, "Thrice"@, k) == n.wrapping_mul(3),
{
    let w = "Thrice"@;
    reveal_strlit("Thrice");
    reveal_strlit("Plus");
    lemma_lacks(w, "Plus"@, 0);
    reveal_strlit("NMinus");
    lemma_lacks(w, "NMinus"@, 0);
    reveal_strlit("Minus");
    lemma_lacks(w, "Minus"@, 0);
    reveal_strlit("Twice");
    lemma_lacks(w, "Twice"@, 1);
    assert(w.subrange(0, w.len() as int) =~= w);
    assert(occurs_at(w, w, 0));
}

proof fn lemma_halfup(n: i32, k: i32)
    ensures
        operated(n, "HalfUp"@, k) == half_up(n),
{
    let w = "HalfUp"@;
    reveal_strlit("HalfUp");
    reveal_strlit("Plus");
    lemma_lacks(w, "Plus"@, 0);
    reveal_strlit("NMinus");
    lemma_lacks(w, "NMinus"@, 0);
    reveal_strlit("Minus");
    lemma_lacks(w, "Minus"@, 0);
    reveal_strlit("Twice");
    lemma_lacks(w, "Twice"@, 0);
    reveal_strlit("Thrice");
    lemma_lacks(w, "Thrice"@, 0);
    assert(w.subrange(0, w.len() as int) =~= w);
    assert(occurs_at(w, w, 0));
}

proof fn lemma_halfdown(n: i32, k: i32)
    ensures
        operated(n, "HalfDown"@, k) == half_down(n),
{
    let w = "HalfDown"@;
    reveal_strlit("HalfDown");
    reveal_strlit("Plus");
    lemma_lacks(w, "Plus"@, 0);
    reveal_strlit("NMinus");
    lemma_lacks(w, "NMinus"@, 0);
    reveal_strlit("Minus");
    lemma_lacks(w, "Minus"@, 0);
    reveal_strlit("Twice");
    lemma_lacks(w, "Twice"@, 0);
    reveal_strlit("Thrice");
    lemma_lacks(w, "Thrice"@, 0);
    reveal_strlit("HalfUp");
    lemma_lacks(w, "HalfUp"@, 4);
    assert(w.subrange(0, w.len() as int) =~= w);
    assert(occurs_at(w, w, 0));
}

proof fn lemma_thirdup(n: i32, k: i32)
    ensures
        operated(n, "ThirdUp"@, k) == third_up(n),
{
    let w = "ThirdUp"@;
    reveal_strlit("ThirdUp");
    reveal_strlit("Plus");
    lemma_lacks(w, "Plus"@, 0);
    reveal_strlit("NMinus");
    lemma_lacks(w, "NMinus"@, 0);
    reveal_strlit("Minus");
    lemma_lacks(w, "Minus"@, 0);
    reveal_strlit("Twice");
    lemma_lacks(w, "Twice"@, 1);
    reveal_strlit("Thrice");
    lemma_lacks(w, "Thrice"@, 4);
    reveal_strlit("HalfUp");
    lemma_lacks(w, "HalfUp"@, 0);
    reveal_strlit("HalfDown");
    lemma_lacks(w, "HalfDown"@, 0);
    assert(w.subrange(0, w.len() as int) =~= w);
    assert(occurs_at(w, w, 0));
}

proof fn lemma_thirddown(n: i32, k: i32)
    ensures
        operated(n, "ThirdDown"@, k) == third_down(n),
{
    let w = "ThirdDown"@;
    reveal_strlit("ThirdDown");
    reveal_strlit("Plus");
    lemma_lacks(w, "Plus"@, 0);
    reveal_strlit("NMinus");
    lemma_lacks(w, "NMinus"@, 0);
    reveal_strlit("Minus");
    lemma_lacks(w, "Minus"@, 0);
    reveal_strlit("Twice");
    lemma_lacks(w, "Twice"@, 3);
    reveal_strlit("Thrice");
    lemma_lacks(w, "Thrice"@, 4);
    reveal_strlit("HalfUp");
    lemma_lacks(w, "HalfUp"@, 0);
    reveal_strlit("HalfDown");
    lemma_lacks(w, "HalfDown"@, 0);
    reveal_strlit("ThirdUp");
    lemma_lacks(w, "ThirdUp"@, 5);
    assert(w.subrange(0, w.len() as int) =~= w);
    assert(occurs_at(w, w, 0));
}

proof fn lemma_negative(n: i32, k: i32)
    ensures
        operated(n, "Negative"@, k) == 0i32.wrapping_sub(n),
{
    let w = "Negative"@;
    reveal_strlit("Negative");
    reveal_strlit("Plus");
    lemma_lacks(w, "Plus"@, 0);
    reveal_strlit("NMinus");
    lemma_lacks(w, "NMinus"@, 1);
    reveal_strlit("Minus");
    lemma_lacks(w, "Minus"@, 0);
    reveal_strlit("Twice");
    lemma_lacks(w, "Twice"@, 0);
    reveal_strlit("Thrice");
    lemma_lacks(w, "Thrice"@, 0);
    reveal_strlit("HalfUp");
    lemma_lacks(w, "HalfUp"@, 0);
    reveal_strlit("HalfDown");
    lemma_lacks(w, "HalfDown"@, 0);
    reveal_strlit("ThirdUp");
    lemma_lacks(w, "ThirdUp"@, 0);
    reveal_strlit("ThirdDown");
    lemma_lacks(w, "ThirdDown"@, 0);
    assert(w.subrange(0, w.len() as int) =~= w);
    assert(occurs_at(w, w, 0));
}

proof fn lemma_times(n: i32, k: i32)
    ensures
        operated(n, "Times"@, k) == n.wrapping_mul(k),
{
    let w = "Times"@;
    reveal_strlit("Times");
    reveal_strlit("Plus");
    lemma_lacks(w, "Plus"@, 0);
    reveal_strlit("NMinus");
    lemma_lacks(w, "NMinus"@, 0);
    reveal_strlit("Minus");
    lemma_lacks(w, "Minus"@, 0);
    reveal_strlit("Twice");
    lemma_lacks(w, "Twice"@, 1);
    reveal_strlit("Thrice");
    lemma_lacks(w, "Thrice"@, 1);
    reveal_strlit("HalfUp");
    lemma_lacks(w, "HalfUp"@, 0);
    reveal_strlit("HalfDown");
    lemma_lacks(w, "HalfDown"@, 0);
    reveal_strlit("ThirdUp");
    lemma_lacks(w, "ThirdUp"@, 1);
    reveal_strlit("ThirdDown");
    lemma_lacks(w, "ThirdDown"@, 1);
    reveal_strlit("Negative");
    lemma_lacks(w, "Negative"@, 0);
    assert(w.subrange(0, w.len() as int) =~= w);
    assert(occurs_at(w, w, 0));
}

proof fn lemma_pow(n: i32, k: i32)
    ensures
        operated(n, "Pow"@, k) == power_of(n, k),
{
    let w = "Pow"@;
    reveal_strlit("Pow");
    reveal_strlit("Plus");
    lemma_lacks(w, "Plus"@, 1);
    reveal_strlit("NMinus");
    lemma_lacks(w, "NMinus"@, 0);
    reveal_strlit("Minus");
    lemma_lacks(w, "Minus"@, 0);
    reveal_strlit("Twice");
    lemma_lacks(w, "Twice"@, 0);
    reveal_strlit("Thrice");
    lemma_lacks(w, "Thrice"@, 0);
    reveal_strlit("HalfUp");
    lemma_lacks(w, "HalfUp"@, 0);
    reveal_strlit("HalfDown");
    lemma_lacks(w, "HalfDown"@, 0);
    reveal_strlit("ThirdUp");
    lemma_lacks(w, "ThirdUp"@, 0);
    reveal_strlit("ThirdDown");
    lemma_lacks(w, "ThirdDown"@, 0);
    reveal_strlit("Negative");
    lemma_lacks(w, "Negative"@, 0);
    reveal_strlit("Times");
    lemma_lacks(w, "Times"@, 0);
    assert(w.subrange(0, w.len() as int) =~= w);
    assert(occurs_at(w, w, 0));
}

proof fn lemma_divideevenlyup(n: i32, k: i32)
    ensures
        operated(n, "DivideEvenlyUp"@, k) == if k == 0 {
            0
        } else if remainder(n, k) != 0 {
            quotient(n, k).wrapping_add(1)
        } else {
            quotient(n, k)
        },
{
    let w = "DivideEvenlyUp"@;
    reveal_strlit("DivideEvenlyUp");
    reveal_strlit("Plus");
    lemma_lacks(w, "Plus"@, 0);
    reveal_strlit("NMinus");
    lemma_lacks(w, "NMinus"@, 0);
    reveal_strlit("Minus");
    lemma_lacks(w, "Minus"@, 0);
    reveal_strlit("Twice");
    lemma_lacks(w, "Twice"@, 0);
    reveal_strlit("Thrice");
    lemma_lacks(w, "Thrice"@, 0);
    reveal_strlit("HalfUp");
    lemma_lacks(w, "HalfUp"@, 0);
    reveal_strlit("HalfDown");
    lemma_lacks(w, "HalfDown"@, 0);
    reveal_strlit("ThirdUp");
    lemma_lacks(w, "ThirdUp"@, 0);
    reveal_strlit("ThirdDown");
    lemma_lacks(w, "ThirdDown"@, 0);
    reveal_strlit("Negative");
    lemma_lacks(w, "Negative"@, 0);
    reveal_strlit("Times");
    lemma_lacks(w, "Times"@, 0);
    reveal_strlit("Pow");
    lemma_lacks(w, "Pow"@, 0);
    assert(w.subrange(0, w.len() as int) =~= w);
    assert(occurs_at(w, w, 0));
}

proof fn lemma_divideevenlydown(n: i32, k: i32)
    ensures
        operated(n, "DivideEvenlyDown"@, k) == quotient(n, k),
{
    let w = "DivideEvenlyDown"@;
    reveal_strlit("DivideEvenlyDown");
    reveal_strlit("Plus");
    lemma_lacks(w, "Plus"@, 0);
    reveal_strlit("NMinus");
    lemma_lacks(w, "NMinus"@, 0);
    reveal_strlit("Minus");
    lemma_lacks(w, "Minus"@, 0);
    reveal_strlit("Twice");
    lemma_lacks(w, "Twice"@, 0);
    reveal_strlit("Thrice");
    lemma_lacks(w, "Thrice"@, 0);
    reveal_strlit("HalfUp");
    lemma_lacks(w, "HalfUp"@, 0);
    reveal_strlit("HalfDown");
    lemma_lacks(w, "HalfDown"@, 0);
    reveal_strlit("ThirdUp");
    lemma_lacks(w, "ThirdUp"@, 0);
    reveal_strlit("ThirdDown");
    lemma_lacks(w, "ThirdDown"@, 0);
    reveal_strlit("Negative");
    lemma_lacks(w, "Negative"@, 0);
    reveal_strlit("Times");
    lemma_lacks(w, "Times"@, 0);
    reveal_strlit("Pow");
    lemma_lacks(w, "Pow"@, 0);
    reveal_strlit("DivideEvenlyUp");
    lemma_lacks(w, "DivideEvenlyUp"@, 12);
    assert(w.subrange(0, w.len() as int) =~= w);
    assert(occurs_at(w, w, 0));
}

proof fn lemma_mod(n: i32, k: i32)
    ensures
        operated(n, "Mod"@, k) == remainder(n, k),
{
    let w = "Mod"@;
    reveal_strlit("Mod");
    reveal_strlit("Plus");
    lemma_lacks(w, "Plus"@, 0);
    reveal_strlit("NMinus");
    lemma_lacks(w, "NMinus"@, 0);
    reveal_strlit("Minus");
    lemma_lacks(w, "Minus"@, 1);
    reveal_strlit("Twice");
    lemma_lacks(w, "Twice"@, 0);
    reveal_strlit("Thrice");
    lemma_lacks(w, "Thrice"@, 0);
    reveal_strlit("HalfUp");
    lemma_lacks(w, "HalfUp"@, 0);
    reveal_strlit("HalfDown");
    lemma_lacks(w, "HalfDown"@, 0);
    reveal_strlit("ThirdUp");
    lemma_lacks(w, "ThirdUp"@, 0);
    reveal_strlit("ThirdDown");
    lemma_lacks(w, "ThirdDown"@, 0);
    reveal_strlit("Negative");
    lemma_lacks(w, "Negative"@, 0);
    reveal_strlit("Times");
    lemma_lacks(w, "Times"@, 0);
    reveal_strlit("Pow");
    lemma_lacks(w, "Pow"@, 0);
    reveal_strlit("DivideEvenlyUp");
    lemma_lacks(w, "DivideEvenlyUp"@, 0);
    reveal_strlit("DivideEvenlyDown");
    lemma_lacks(w, "DivideEvenlyDown"@, 0);
    assert(w.subrange(0, w.len() as int) =~= w);
    assert(occurs_at(w, w, 0));
}

proof fn lemma_abs(n: i32, k: i32)
    ensures
        operated(n, "Abs"@, k) == if n < 0 {
            0i32.wrapping_sub(n)
        } else {
            n
        },
{
    let w = "Abs"@;
    reveal_strlit("Abs");
    reveal_strlit("Plus");
    lemma_lacks(w, "Plus"@, 0);
    reveal_strlit("NMinus");
    lemma_lacks(w, "NMinus"@, 0);
    reveal_strlit("Minus");
    lemma_lacks(w, "Minus"@, 0);
    reveal_strlit("Twice");
    lemma_lacks(w, "Twice"@, 0);
    reveal_strlit("Thrice");
    lemma_lacks(w, "Thrice"@, 0);
    reveal_strlit("HalfUp");
    lemma_lacks(w, "HalfUp"@, 0);
    reveal_strlit("HalfDown");
    lemma_lacks(w, "HalfDown"@, 0);
    reveal_strlit("ThirdUp");
    lemma_lacks(w, "ThirdUp"@, 0);
    reveal_strlit("ThirdDown");
    lemma_lacks(w, "ThirdDown"@, 0);
    reveal_strlit("Negative");
    lemma_lacks(w, "Negative"@, 0);
    reveal_strlit("Times");
    lemma_lacks(w, "Times"@, 0);
    reveal_strlit("Pow");
    lemma_lacks(w, "Pow"@, 0);
    reveal_strlit("DivideEvenlyUp");
    lemma_lacks(w, "DivideEvenlyUp"@, 0);
    reveal_strlit("DivideEvenlyDown");
    lemma_lacks(w, "DivideEvenlyDown"@, 0);
    reveal_strlit("Mod");
    lemma_lacks(w, "Mod"@, 0);
    assert(w.subrange(0, w.len() as int) =~= w);
    assert(occurs_at(w, w, 0));
}

proof fn lemma_limitmax(n: i32, k: i32)
    ensures
        operated(n, "LimitMax"@, k) == if k < n {
            k
        } else {
            n
        },
{
    let w = "LimitMax"@;
    reveal_strlit("LimitMax");
    reveal_strlit("Plus");
    lemma_lacks(w, "Plus"@, 0);
    reveal_strlit("NMinus");
    lemma_lacks(w, "NMinus"@, 0);
    reveal_strlit("Minus");
    lemma_lacks(w, "Minus"@, 2);
    reveal_strlit("Twice");
    lemma_lacks(w, "Twice"@, 0);
    reveal_strlit("Thrice");
    lemma_lacks(w, "Thrice"@, 0);
    reveal_strlit("HalfUp");
    lemma_lacks(w, "HalfUp"@, 0);
    reveal_strlit("HalfDown");
    lemma_lacks(w, "HalfDown"@, 0);
    reveal_strlit("ThirdUp");
    lemma_lacks(w, "ThirdUp"@, 0);
    reveal_strlit("ThirdDown");
    lemma_lacks(w, "ThirdDown"@, 0);
    reveal_strlit("Negative");
    lemma_lacks(w, "Negative"@, 0);
    reveal_strlit("Times");
    lemma_lacks(w, "Times"@, 0);
    reveal_strlit("Pow");
    lemma_lacks(w, "Pow"@, 0);
    reveal_strlit("DivideEvenlyUp");
    lemma_lacks(w, "DivideEvenlyUp"@, 0);
    reveal_strlit("DivideEvenlyDown");
    lemma_lacks(w, "DivideEvenlyDown"@, 0);
    reveal_strlit("Mod");
    lemma_lacks(w, "Mod"@, 1);
    reveal_strlit("Abs");
    lemma_lacks(w, "Abs"@, 0);
    assert(w.subrange(0, w.len() as int) =~= w);
    assert(occurs_at(w, w, 0));
}

proof fn lemma_limitmin(n: i32, k: i32)
    ensures
        operated(n, "LimitMin"@, k) == if k > n {
            k
        } else {
            n
        },
{
    let w = "LimitMin"@;
    reveal_strlit("LimitMin");
    reveal_strlit("Plus");
    lemma_lacks(w, "Plus"@, 0);
    reveal_strlit("NMinus");
    lemma_lacks(w, "NMinus"@, 0);
    reveal_strlit("Minus");
    lemma_lacks(w, "Minus"@, 3);
    reveal_strlit("Twice");
    lemma_lacks(w, "Twice"@, 0);
    reveal_strlit("Thrice");
    lemma_lacks(w, "Thrice"@, 0);
    reveal_strlit("HalfUp");
    lemma_lacks(w, "HalfUp"@, 0);
    reveal_strlit("HalfDown");
    lemma_lacks(w, "HalfDown"@, 0);
    reveal_strlit("ThirdUp");
    lemma_lacks(w, "ThirdUp"@, 0);
    reveal_strlit("ThirdDown");
    lemma_lacks(w, "ThirdDown"@, 0);
    reveal_strlit("Negative");
    lemma_lacks(w, "Negative"@, 0);
    reveal_strlit("Times");
    lemma_lacks(w, "Times"@, 0);
    reveal_strlit("Pow");
    lemma_lacks(w, "Pow"@, 0);
    reveal_strlit("DivideEvenlyUp");
    lemma_lacks(w, "DivideEvenlyUp"@, 0);
    reveal_strlit("DivideEvenlyDown");
    lemma_lacks(w, "DivideEvenlyDown"@, 0);
    reveal_strlit("Mod");
    lemma_lacks(w, "Mod"@, 1);
    reveal_strlit("Abs");
    lemma_lacks(w, "Abs"@, 0);
    reveal_strlit("LimitMax");
    lemma_lacks(w, "LimitMax"@, 6);
    assert(w.subrange(0, w.len() as int) =~= w);
    assert(occurs_at(w, w, 0));
}

/// A product is that of the numbers, where it fits.
pub proof fn law_products(n: i32, k: i32)
    requires
        fits(n * k),
    ensures
        operated(n, "Times"@, k) == n * k,
{
    lemma_times(n, k);
}

/// Sums and differences are those of the numbers, where they fit.
pub proof fn law_sums(n: i32, k: i32)
    ensures
        fits(n + k) ==> operated(n, "Plus"@, k) == n + k,
        fits(n - k) ==> operated(n, "Minus"@, k) == n - k,
        fits(k - n) ==> operated(n, "NMinus"@, k) == k - n,
{
    lemma_plus(n, k);
    lemma_minus(n, k);
    lemma_nminus(n, k);
}

/// Twice and thrice a number is the number two or three times, where it fits.
pub proof fn law_multiples(n: i32, k: i32)
    ensures
        fits(n + n) ==> operated(n, "Twice"@, k) == n + n,
        fits(n + n + n) ==> operated(n, "Thrice"@, k) == n + n + n,
{
    lemma_twice(n, k);
    lemma_thrice(n, k);
}

/// The opposite of a number and what it is without its sign.
pub proof fn law_opposites(n: i32, k: i32)
    ensures
        n != i32::MIN ==> operated(n, "Negative"@, k) == -n,
        n >= 0 ==> operated(n, "Abs"@, k) == n,
        n < 0 && n != i32::MIN ==> operated(n, "Abs"@, k) == -n,
{
    lemma_negative(n, k);
    lemma_abs(n, k);
}

/// Halves and thirds, rounded up and down: the whole lies between so many of the one and of the other.
pub proof fn law_halves_and_thirds(n: i32, k: i32)
    ensures
        n <= 2 * operated(n, "HalfUp"@, k) <= n + 1,
        n - 1 <= 2 * operated(n, "HalfDown"@, k) <= n,
        n <= 3 * operated(n, "ThirdUp"@, k) <= n + 2,
        n - 2 <= 3 * operated(n, "ThirdDown"@, k) <= n,
{
    lemma_halfup(n, k);
    lemma_halfdown(n, k);
    lemma_thirdup(n, k);
    lemma_thirddown(n, k);
}

/// The greater and the lesser of two numbers.
pub proof fn law_limits_of_numbers(n: i32, k: i32)
    ensures
        operated(n, "LimitMax"@, k) <= k && operated(n, "LimitMax"@, k) <= n && (operated(
            n,
            "LimitMax"@,
            k,
        ) == n || operated(n, "LimitMax"@, k) == k),
        operated(n, "LimitMin"@, k) >= k && operated(n, "LimitMin"@, k) >= n && (operated(
            n,
            "LimitMin"@,
            k,
        ) == n || operated(n, "LimitMin"@, k) == k),
{
    lemma_limitmax(n, k);
    lemma_limitmin(n, k);
}

/// Shares of a number that is not negative: rounded down so many times the divisor are in it and no
/// more, rounded up it is in so many and in no less, and what is over is less than the divisor.
pub proof fn law_shares(n: i32, k: i32)
    requires
        n >= 0,
        k > 0,
    ensures
        ({
            let down = operated(n, "DivideEvenlyDown"@, k);
            let up = operated(n, "DivideEvenlyUp"@, k);
            let over = operated(n, "Mod"@, k);
            &&& down * k <= n < down * k + k
            &&& up * k - k < n <= up * k
            &&& 0 <= over < k
            &&& n == down * k + over
        }),
        operated(n, "DivideEvenlyDown"@, 0) == 0,
        operated(n, "DivideEvenlyUp"@, 0) == 0,
{
    lemma_divideevenlydown(n, k);
    lemma_divideevenlyup(n, k);
    lemma_mod(n, k);
    lemma_divideevenlydown(n, 0);
    lemma_divideevenlyup(n, 0);
    law_division(n, k);
    let q = quotient(n, k);
    let r = remainder(n, k);
    assert(q == n as int / k as int);
    vstd::arithmetic::div_mod::lemma_fundamental_div_mod(n as int, k as int);
    assert(q * k == k * q) by (nonlinear_arith);
    assert(r == n as int % k as int);
    assert(0 <= r < k);
    assert(q <= n) by (nonlinear_arith)
        requires
            q * k + r == n,
            k >= 1,
            r >= 0,
            q >= 0,
    ;
    assert((q + 1) * k == q * k + k) by (nonlinear_arith);
    if r != 0 {
        assert(q < i32::MAX) by (nonlinear_arith)
            requires
                q * k + r == n,
                k >= 1,
                r > 0,
                q >= 0,
                n <= 0x7fff_ffff,
        ;
    }
}

/// A power is so many factors.
pub proof fn law_powers(n: i32, k: i32)
    requires
        0 <= k < i32::MAX,
    ensures
        operated(n, "Pow"@, 0) == 1,
        operated(n, "Pow"@, 1) == n,
        fits(pow(n as int, k as nat)) && fits(n * pow(n as int, k as nat)) ==> operated(
            n,
            "Pow"@,
            (k + 1) as i32,
        ) == n * operated(n, "Pow"@, k),
{
    lemma_pow(n, 0);
    lemma_pow(n, 1);
    lemma_pow(n, k);
    lemma_pow(n, (k + 1) as i32);
    vstd::arithmetic::power::lemma_pow0(n as int);
    vstd::arithmetic::power::lemma_pow1(n as int);
    vstd::arithmetic::power::lemma_pow_adds(n as int, 1, k as nat);
}

/// An operator with a number behind a dot acts with that number.
pub proof fn law_operands(s: SceneView, depth: u32, n: i32, op: Seq<char>, k: Seq<char>)
    requires
        !op.contains('.'),
        int_value(k) is Some,
    ensures
        after_math(s, depth, n, op + seq!['.'] + k) == operated(n, op, int_value(k)->0 as i32),
        after_math(s, depth, n, Seq::empty()) == n,
{
    reveal_strlit(".");
    assert("."@ =~= seq!['.']);
    lemma_number_chars(k, '.');
    lemma_pieces_joined(op, '.', k);
    lemma_no_dot(op);
    lemma_no_dot(k);
    assert(pieces(op + seq!['.'] + k, "."@) =~= seq![op, k]);
}

/// An expression with an operator comes to what the operator makes of the expression without it: here
/// the life of the player, plus or minus a number.
pub proof fn law_counts_with_operators(
    s: SceneView,
    depth: u32,
    hops: u32,
    op: Seq<char>,
    k: Seq<char>,
)
    requires
        is_set(s),
        !op.contains('.'),
        int_value(k) is Some,
    ensures
        count_value(
            s,
            depth,
            hops,
            "Count$YourLifeTotal"@ + (seq!['/'] + (op + seq!['.'] + k)),
        ) == operated(player_of(s).life, op, int_value(k)->0 as i32),
{
    let w = "Count$YourLifeTotal"@;
    let rest = op + seq!['.'] + k;
    let t = w + (seq!['/'] + rest);
    reveal_strlit("Count$YourLifeTotal");
    reveal_strlit("/");
    assert("/"@ =~= seq!['/']);
    lemma_starts(w, seq!['/'] + rest);
    lemma_starts(seq!['/'], rest);
    law_operands(s, depth, player_of(s).life, op, k);
    assert(t[0] == 'C');
    assert(t[6] == 'Y');
    assert(t[10] == 'L');
    reveal_strlit("PlayerCount");
    lemma_parts_from(t, "PlayerCount"@, 0);
    reveal_strlit("TargetedObjects");
    lemma_parts_from(t, "TargetedObjects"@, 0);
    reveal_strlit("Count$xPaid");
    lemma_parts_from(t, "Count$xPaid"@, 6);
    reveal_strlit("Count$XPaid");
    lemma_parts_from(t, "Count$XPaid"@, 6);
    reveal_strlit("Count$CastTotalManaSpent ");
    lemma_parts_from(t, "Count$CastTotalManaSpent "@, 6);
    reveal_strlit("Count$CastTotalManaSpent");
    lemma_parts_from(t, "Count$CastTotalManaSpent"@, 6);
    reveal_strlit("Count$TriggerRememberAmount");
    lemma_parts_from(t, "Count$TriggerRememberAmount"@, 6);
    reveal_strlit("Count$OptionalKeywordAmount");
    lemma_parts_from(t, "Count$OptionalKeywordAmount"@, 6);
    reveal_strlit("Count$ChosenNumber");
    lemma_parts_from(t, "Count$ChosenNumber"@, 6);
    reveal_strlit("TriggerCount$Result");
    lemma_parts_from(t, "TriggerCount$Result"@, 0);
    reveal_strlit("TriggerCountMax$Result");
    lemma_parts_from(t, "TriggerCountMax$Result"@, 0);
    reveal_strlit("Count$Converge");
    lemma_parts_from(t, "Count$Converge"@, 6);
    reveal_strlit("Count$Sunburst");
    lemma_parts_from(t, "Count$Sunburst"@, 6);
    reveal_strlit("Count$Adamant");
    lemma_parts_from(t, "Count$Adamant"@, 6);
    reveal_strlit("Count$FinalChapterNr");
    lemma_parts_from(t, "Count$FinalChapterNr"@, 6);
    reveal_strlit("Count$YourSpeed");
    lemma_parts_from(t, "Count$YourSpeed"@, 10);
    reveal_strlit("Count$DomainActivePlayer");
    lemma_parts_from(t, "Count$DomainActivePlayer"@, 6);
    reveal_strlit("Count$Domain");
    lemma_parts_from(t, "Count$Domain"@, 6);
    reveal_strlit("Count$Party");
    lemma_parts_from(t, "Count$Party"@, 6);
}

// ---- comparisons ----

/// The six ways to compare numbers, whatever the case of their letters.
pub proof fn law_comparisons(left: i32, op: Seq<char>, right: i32)
    ensures
        same_ignoring_case(op, "EQ"@) ==> (compared(left, op, right) <==> left == right),
        same_ignoring_case(op, "NE"@) ==> (compared(left, op, right) <==> left != right),
        same_ignoring_case(op, "LT"@) ==> (compared(left, op, right) <==> left < right),
        same_ignoring_case(op, "LE"@) ==> (compared(left, op, right) <==> left <= right),
        same_ignoring_case(op, "GT"@) ==> (compared(left, op, right) <==> left > right),
        same_ignoring_case(op, "GE"@) ==> (compared(left, op, right) <==> left >= right),
{
    reveal_strlit("EQ");
    reveal_strlit("NE");
    reveal_strlit("LT");
    reveal_strlit("LE");
    reveal_strlit("GT");
    reveal_strlit("GE");
    reveal_strlit("eq");
    reveal_strlit("ne");
    reveal_strlit("lt");
    reveal_strlit("le");
    reveal_strlit("gt");
    reveal_strlit("ge");
    assert(lowered("EQ"@) =~= "eq"@);
    assert(lowered("NE"@) =~= "ne"@);
    assert(lowered("LT"@) =~= "lt"@);
    assert(lowered("LE"@) =~= "le"@);
    assert(lowered("GT"@) =~= "gt"@);
    assert(lowered("GE"@) =~= "ge"@);
    assert("eq"@[0] == 'e' && "ne"@[0] == 'n' && "lt"@[0] == 'l' && "le"@[0] == 'l' && "gt"@[0]
        == 'g' && "ge"@[0] == 'g');
    assert("lt"@[1] == 't' && "le"@[1] == 'e' && "gt"@[1] == 't' && "ge"@[1] == 'e');
}

// ---- named variables ----

/// A number that an ability names as X is the value of its variable X: where that is a choice by
/// whether it was kicked, the one or the other number.
pub proof fn law_kicked_variable(
    game: GameState,
    sa: AbilityView,
    source: CardId,
    a: Seq<char>,
    b: Seq<char>,
    default: i32,
)
    requires
        sa.source == Some(source),
        game.card_at(source) is Some,
        game.player_at(sa.activating_player) is Some,
        int_value(a) is Some,
        int_value(b) is Some,
        sa.svar(game, "X"@) == Some(choice_text("Count$Kicked."@, a, b)),
    ensures
        numeric(game, sa, "X"@, default) == if sa.kicked {
            int_value(a)->0
        } else {
            int_value(b)->0
        },
{
    let s = SceneView { game, source, you: sa.activating_player, sa };
    let hops = value_hops(game, sa);
    let e = choice_text("Count$Kicked."@, a, b);
    reveal_strlit("Count$Kicked.");
    reveal_strlit("Count$");
    assert(e.subrange(0, 6) =~= "Count$"@);
    law_variable_x(game, sa, source, e, default);
    law_kicked_numbers(s, MAX_SVAR_RESOLUTION_DEPTH, hops, a, b);
}

/// A number that an ability names as X is what its variable X comes to.
pub proof fn law_variable_x(
    game: GameState,
    sa: AbilityView,
    source: CardId,
    e: Seq<char>,
    default: i32,
)
    requires
        sa.source == Some(source),
        sa.svar(game, "X"@) == Some(e),
        has_prefix(e, "Count$"@),
    ensures
        numeric(game, sa, "X"@, default) == count_value(
            SceneView { game, source, you: sa.activating_player, sa },
            MAX_SVAR_RESOLUTION_DEPTH,
            value_hops(game, sa),
            e,
        ),
{
    let s = SceneView { game, source, you: sa.activating_player, sa };
    let x = "X"@;
    reveal_strlit("X");
    reveal_strlit("Count$");
    reveal_strlit("$");
    reveal_strlit("+");
    reveal_strlit("-");
    assert(x[0] == 'X');
    assert(x.len() == 1);
    lemma_not_a_number(x);
    assert(trimmed(x) == x) by {
        assert(x.last() == 'X');
    }
    lemma_parts_from(x, "+"@, 0);
    lemma_parts_from(x, "-"@, 0);
    assert("$"@ =~= seq!['$']);
    lemma_first_none(x, '$');
    lemma_no_form(s, MAX_SVAR_RESOLUTION_DEPTH, value_hops(game, sa), x);
}

proof fn lemma_no_form(s: SceneView, depth: u32, hops: u32, t: Seq<char>)
    requires
        t.len() < 5,
    ensures
        formed(s, depth, hops, t) is None,
{
    reveal_strlit("Number$");
    reveal_strlit("Count$");
    reveal_strlit("TargetedObjects");
    reveal_strlit("PlayerCount");
    reveal_strlit("TriggerCount$");
    reveal_strlit("TriggerCountMax$");
    reveal_strlit("SVar$");
    reveal_strlit("Remembered$");
    reveal_strlit("RememberedSize");
    reveal_strlit("Discarded$Valid ");
    reveal_strlit("Sacrificed$");
    reveal_strlit("TriggeredCard$");
    reveal_strlit("Spawner>");
}

/// What can be said of an ability alone: the same choice, and how often it was kicked.
pub proof fn law_simple_kicked_numbers(sa: AbilityView, a: Seq<char>, b: Seq<char>)
    requires
        int_value(a) is Some,
        int_value(b) is Some,
    ensures
        simple_value(choice_text("Count$Kicked."@, a, b), sa) == if sa.kicked {
            int_value(a)->0
        } else {
            int_value(b)->0
        },
        simple_value(a, sa) == int_value(a)->0,
{
    let w = "Count$Kicked."@;
    let t = choice_text(w, a, b);
    reveal_strlit("Count$Kicked.");
    lemma_choice(w, a, b);
    assert(t[0] == 'C');
    assert(t[6] == 'K');
    assert(t[12] == '.');
    reveal_strlit("Count$xPaid");
    lemma_parts_from(t, "Count$xPaid"@, 6);
    reveal_strlit("Count$XPaid");
    lemma_parts_from(t, "Count$XPaid"@, 6);
    reveal_strlit("Count$Converge");
    lemma_parts_from(t, "Count$Converge"@, 6);
    reveal_strlit("Count$Sunburst");
    lemma_parts_from(t, "Count$Sunburst"@, 6);
    reveal_strlit("Count$TriggerRememberAmount");
    lemma_parts_from(t, "Count$TriggerRememberAmount"@, 6);
    reveal_strlit("TriggerCount$");
    lemma_parts_from(t, "TriggerCount$"@, 0);
    reveal_strlit("TriggerCountMax$");
    lemma_parts_from(t, "TriggerCountMax$"@, 0);
    reveal_strlit("Count$KickedCount");
    lemma_parts_from(t, "Count$KickedCount"@, 12);
    lemma_number_chars(a, 'C');
    lemma_number_chars(a, 'T');
    lemma_number_chars(a, 'N');
    assert(a[0] != 'C' && a[0] != 'T' && a[0] != 'N') by {
        assert(a.contains(a[0]));
    }
    lemma_parts_from(a, "Count$xPaid"@, 0);
    lemma_parts_from(a, "Count$XPaid"@, 0);
    lemma_parts_from(a, "Count$Converge"@, 0);
    lemma_parts_from(a, "Count$Sunburst"@, 0);
    lemma_parts_from(a, "Count$TriggerRememberAmount"@, 0);
    lemma_parts_from(a, "TriggerCount$"@, 0);
    lemma_parts_from(a, "TriggerCountMax$"@, 0);
    lemma_parts_from(a, "Count$KickedCount"@, 0);
    lemma_parts_from(a, "Count$Kicked."@, 0);
    reveal_strlit("Number$");
    lemma_parts_from(a, "Number$"@, 0);
}

} // verus!
