//! Arithmetic of script variables.

use vstd::arithmetic::power::pow;
use vstd::prelude::*;
use crate::text::{contains, has_part, occurs_at};

verus! {

/// Half of a number, rounded up.
pub open spec fn half_up(n: i32) -> i32 {
    ((n + 1) / 2) as i32
}

/// Half of a number, rounded down.
pub open spec fn half_down(n: i32) -> i32 {
    (n as int / 2) as i32
}

pub open spec fn third_up(n: i32) -> i32 {
    ((n + 2) / 3) as i32
}

pub open spec fn third_down(n: i32) -> i32 {
    (n as int / 3) as i32
}

fn halved(n: i64) -> (r: i64)
    requires
        -0x8000_0010 <= n <= 0x8000_0010,
    ensures
        r == n as int / 2,
{
    match n.checked_div_euclid(2) {
        Some(q) => q,
        None => 0,
    }
}

fn parted_by_three(n: i64) -> (r: i64)
    requires
        -0x8000_0010 <= n <= 0x8000_0010,
    ensures
        r == n as int / 3,
{
    match n.checked_div_euclid(3) {
        Some(q) => q,
        None => 0,
    }
}

/// A number as far as it fits.
pub open spec fn clamped(n: int) -> i32 {
    if n > i32::MAX {
        i32::MAX
    } else if n < i32::MIN {
        i32::MIN
    } else {
        n as i32
    }
}

/// A power, as far as it fits. A negative exponent leaves a fraction, which is cut off; a power of
/// zero with a negative exponent is beyond every number.
pub open spec fn power_of(base: i32, exponent: i32) -> i32 {
    if exponent >= 0 {
        clamped(pow(base as int, exponent as nat))
    } else if base == 0 {
        i32::MAX
    } else if base == 1 {
        1
    } else if base == -1 {
        if exponent as int % 2 == 0 { 1 } else { -1i32 }
    } else {
        0
    }
}

/// The quotient, cut towards zero; nothing is left of a division by zero.
pub open spec fn quotient(num: i32, by: i32) -> i32 {
    match num.checked_div(by) {
        Some(q) => q,
        None => if by == 0 { 0 } else { num },
    }
}

pub open spec fn remainder(num: i32, by: i32) -> i32 {
    match num.checked_rem(by) {
        Some(q) => q,
        None => 0,
    }
}

/// What an operator makes of a number and its operand.
pub open spec fn operated(num: i32, op: Seq<char>, rhs: i32) -> i32 {
    if has_part(op, "Plus"@) {
        num.wrapping_add(rhs)
    } else if has_part(op, "NMinus"@) {
        rhs.wrapping_sub(num)
    } else if has_part(op, "Minus"@) {
        num.wrapping_sub(rhs)
    } else if has_part(op, "Twice"@) {
        num.wrapping_mul(2)
    } else if has_part(op, "Thrice"@) {
        num.wrapping_mul(3)
    } else if has_part(op, "HalfUp"@) {
        half_up(num)
    } else if has_part(op, "HalfDown"@) {
        half_down(num)
    } else if has_part(op, "ThirdUp"@) {
        third_up(num)
    } else if has_part(op, "ThirdDown"@) {
        third_down(num)
    } else if has_part(op, "Negative"@) {
        0i32.wrapping_sub(num)
    } else if has_part(op, "Times"@) {
        num.wrapping_mul(rhs)
    } else if has_part(op, "Pow"@) {
        power_of(num, rhs)
    } else if has_part(op, "DivideEvenlyUp"@) {
        if rhs == 0 {
            0
        } else if remainder(num, rhs) != 0 {
            quotient(num, rhs).wrapping_add(1)
        } else {
            quotient(num, rhs)
        }
    } else if has_part(op, "DivideEvenlyDown"@) {
        quotient(num, rhs)
    } else if has_part(op, "Mod"@) {
        remainder(num, rhs)
    } else if has_part(op, "Abs"@) {
        if num < 0 { 0i32.wrapping_sub(num) } else { num }
    } else if has_part(op, "LimitMax"@) {
        if rhs < num { rhs } else { num }
    } else if has_part(op, "LimitMin"@) {
        if rhs > num { rhs } else { num }
    } else {
        num
    }
}

pub fn divide(num: i32, by: i32) -> (r: i32)
    ensures
        r == quotient(num, by),
{
    match num.checked_div(by) {
        Some(q) => q,
        None => if by == 0 { 0 } else { num },
    }
}

pub fn divide_rest(num: i32, by: i32) -> (r: i32)
    ensures
        r == remainder(num, by),
{
    match num.checked_rem(by) {
        Some(q) => q,
        None => 0,
    }
}

proof fn lemma_pow_step(b: int, e: nat)
    requires
        e > 0,
    ensures
        pow(b, e) == b * pow(b, (e - 1) as nat),
{
    reveal(pow);
}

/// A power of at least two in size grows with the exponent.
proof fn lemma_pow_grows(b: int, k: nat, e: nat)
    requires
        b >= 2 || b <= -2,
        k <= e,
        pow(b, k) >= 0x8000_0000 || pow(b, k) <= -0x8000_0001,
    ensures
        pow(b, e) >= 0x8000_0000 || pow(b, e) <= -0x8000_0001,
    decreases e,
{
    if k < e {
        lemma_pow_grows(b, k, (e - 1) as nat);
        lemma_pow_step(b, e);
        let p = pow(b, (e - 1) as nat);
        assert(b * p >= 0x8000_0000 || b * p <= -0x8000_0001) by (nonlinear_arith)
            requires
                b >= 2 || b <= -2,
                p >= 0x8000_0000 || p <= -0x8000_0001,
        ;
    }
}

proof fn lemma_pow_sign(b: int, e: nat)
    ensures
        b >= 0 ==> pow(b, e) >= 0,
        b < 0 && e % 2 == 0 ==> pow(b, e) > 0,
        b < 0 && e % 2 == 1 ==> pow(b, e) < 0,
    decreases e,
{
    if e == 0 {
        reveal(pow);
    } else {
        lemma_pow_step(b, e);
        lemma_pow_sign(b, (e - 1) as nat);
        let p = pow(b, (e - 1) as nat);
        assert(b >= 0 && p >= 0 ==> b * p >= 0) by (nonlinear_arith);
        assert(b < 0 && p > 0 ==> b * p < 0) by (nonlinear_arith);
        assert(b < 0 && p < 0 ==> b * p > 0) by (nonlinear_arith);
    }
}

proof fn lemma_pow_small(b: int, e: nat)
    ensures
        b == 0 && e > 0 ==> pow(b, e) == 0,
        b == 1 ==> pow(b, e) == 1,
        b == -1 ==> pow(b, e) == (if e % 2 == 0 { 1int } else { -1int }),
        e == 0 ==> pow(b, e) == 1,
    decreases e,
{
    reveal(pow);
    if e > 0 {
        lemma_pow_small(b, (e - 1) as nat);
    }
}

fn raise(base: i32, exponent: i32) -> (r: i32)
    ensures
        r == power_of(base, exponent),
{
    let odd = match exponent.checked_rem_euclid(2) {
        Some(m) => m != 0,
        None => false,
    };
    if exponent < 0 {
        if base == 0 {
            return i32::MAX;
        }
        if base == 1 {
            return 1;
        }
        if base == -1 {
            return if odd { -1 } else { 1 };
        }
        return 0;
    }
    let ghost e = exponent as nat;
    proof {
        lemma_pow_small(base as int, e);
        lemma_pow_sign(base as int, e);
    }
    if exponent == 0 || base == 1 {
        return 1;
    }
    if base == 0 {
        return 0;
    }
    if base == -1 {
        return if odd { -1 } else { 1 };
    }
    let mut p: i64 = 1;
    let mut k: i32 = 0;
    proof {
        lemma_pow_small(base as int, 0);
    }
    while k < exponent
        invariant
            0 <= k <= exponent,
            e == exponent,
            base >= 2 || base <= -2,
            p == pow(base as int, k as nat),
            -0x8000_0000 <= p <= 0x7fff_ffff,
            base >= 0 ==> pow(base as int, e) >= 0,
            base < 0 && e % 2 == 0 ==> pow(base as int, e) > 0,
            base < 0 && e % 2 == 1 ==> pow(base as int, e) < 0,
            odd == (e % 2 != 0),
        decreases exponent - k,
    {
        proof {
            lemma_pow_step(base as int, (k + 1) as nat);
            assert(-0x8000_0000_0000_0000 <= base * p <= 0x7fff_ffff_ffff_ffff)
                by (nonlinear_arith)
                requires
                    -0x8000_0000 <= base <= 0x7fff_ffff,
                    -0x8000_0000 <= p <= 0x7fff_ffff,
            ;
        }
        p = base as i64 * p;
        k = k + 1;
        if p > 0x7fff_ffff || p < -0x8000_0000 {
            proof {
                lemma_pow_grows(base as int, k as nat, e);
            }
            return if base < 0 && odd { i32::MIN } else { i32::MAX };
        }
    }
    p as i32
}

/// Applies an operator.
pub fn operate(num: i32, op: &str, rhs: i32) -> (r: i32)
    ensures
        r == operated(num, op@, rhs),
{
    if contains(op, "Plus") {
        num.wrapping_add(rhs)
    } else if contains(op, "NMinus") {
        rhs.wrapping_sub(num)
    } else if contains(op, "Minus") {
        num.wrapping_sub(rhs)
    } else if contains(op, "Twice") {
        num.wrapping_mul(2)
    } else if contains(op, "Thrice") {
        num.wrapping_mul(3)
    } else if contains(op, "HalfUp") {
        halved(num as i64 + 1) as i32
    } else if contains(op, "HalfDown") {
        halved(num as i64) as i32
    } else if contains(op, "ThirdUp") {
        parted_by_three(num as i64 + 2) as i32
    } else if contains(op, "ThirdDown") {
        parted_by_three(num as i64) as i32
    } else if contains(op, "Negative") {
        0i32.wrapping_sub(num)
    } else if contains(op, "Times") {
        num.wrapping_mul(rhs)
    } else if contains(op, "Pow") {
        raise(num, rhs)
    } else if contains(op, "DivideEvenlyUp") {
        if rhs == 0 {
            0
        } else if divide_rest(num, rhs) != 0 {
            divide(num, rhs).wrapping_add(1)
        } else {
            divide(num, rhs)
        }
    } else if contains(op, "DivideEvenlyDown") {
        divide(num, rhs)
    } else if contains(op, "Mod") {
        divide_rest(num, rhs)
    } else if contains(op, "Abs") {
        if num < 0 { 0i32.wrapping_sub(num) } else { num }
    } else if contains(op, "LimitMax") {
        if rhs < num { rhs } else { num }
    } else if contains(op, "LimitMin") {
        if rhs > num { rhs } else { num }
    } else {
        num
    }
}

/// A number halved up and cut towards zero.
pub open spec fn simple_half_up(n: i32) -> i32 {
    quotient(n.wrapping_add(1), 2)
}

/// One operator of a simple chain.
pub open spec fn simply_operated(value: i32, op: Seq<char>) -> i32 {
    let t = crate::text::trimmed(op);
    if crate::text::has_prefix(t, "Plus."@) {
        value.wrapping_add(crate::text::number_or(t.skip("Plus."@.len() as int), 0))
    } else if crate::text::has_prefix(t, "Minus."@) {
        value.wrapping_sub(crate::text::number_or(t.skip("Minus."@.len() as int), 0))
    } else if crate::text::has_prefix(t, "Times."@) {
        value.wrapping_mul(crate::text::number_or(t.skip("Times."@.len() as int), 1))
    } else if crate::text::has_prefix(t, "HalfUp"@) {
        simple_half_up(value)
    } else if crate::text::has_prefix(t, "HalfDown"@) {
        half_down(value)
    } else {
        value
    }
}

/// A chain of operators between slashes, applied from left to right.
pub open spec fn chained(value: i32, ops: Seq<Seq<char>>) -> i32
    decreases ops.len(),
{
    if ops.len() == 0 {
        value
    } else {
        simply_operated(chained(value, ops.drop_last()), ops.last())
    }
}

/// Applies a chain of simple operators.
pub fn apply_simple_operator_chain(num: i32, operators: &str) -> (r: i32)
    ensures
        r == chained(num, crate::text::pieces(operators@, "/"@)),
{
    proof {
        reveal_strlit("/");
    }
    let ops = crate::text::split(operators, "/");
    let ghost all = crate::text::pieces(operators@, "/"@);
    let mut value: i32 = num;
    let mut i: usize = 0;
    while i < ops.len()
        invariant
            i <= ops@.len(),
            crate::text::views(ops@) == all,
            value == chained(num, all.take(i as int)),
        decreases ops@.len() - i,
    {
        proof {
            assert(all.take(i + 1).drop_last() =~= all.take(i as int));
            assert(all.take(i + 1).last() == ops@[i as int]@);
        }
        let op = crate::text::trim(ops[i]);
        if let Some(arg) = crate::text::strip_prefix(op, "Plus.") {
            value = value.wrapping_add(crate::text::parse_or(arg, 0));
        } else if let Some(arg) = crate::text::strip_prefix(op, "Minus.") {
            value = value.wrapping_sub(crate::text::parse_or(arg, 0));
        } else if let Some(arg) = crate::text::strip_prefix(op, "Times.") {
            value = value.wrapping_mul(crate::text::parse_or(arg, 1));
        } else if crate::text::starts_with(op, "HalfUp") {
            value = divide(value.wrapping_add(1), 2);
        } else if crate::text::starts_with(op, "HalfDown") {
            value = halved(value as i64) as i32;
        }
        i = i + 1;
    }
    assert(all.take(i as int) =~= all);
    value
}

/// Half of a number rounded up and half of it rounded down make the number.
pub proof fn law_halves_make_the_whole(n: i32)
    ensures
        half_up(n) + half_down(n) == n,
        half_down(n) <= half_up(n) <= half_down(n) + 1,
        third_down(n) <= third_up(n) <= third_down(n) + 1,
        3 * third_down(n) <= n <= 3 * third_up(n),
{
}

proof fn lemma_own_part(s: Seq<char>)
    ensures
        has_part(s, s),
{
    assert(s.subrange(0, s.len() as int) =~= s);
    assert(occurs_at(s, s, 0));
}

proof fn lemma_plus_and_minus()
    ensures
        has_part("Plus"@, "Plus"@),
        has_part("Minus"@, "Minus"@),
        has_part("NMinus"@, "NMinus"@),
        !has_part("Minus"@, "Plus"@),
        !has_part("Minus"@, "NMinus"@),
        !has_part("NMinus"@, "Plus"@),
{
    reveal_strlit("Plus");
    reveal_strlit("Minus");
    reveal_strlit("NMinus");
    lemma_not_part("Minus"@, "Plus"@, 0);
    lemma_not_part("NMinus"@, "Plus"@, 0);
    lemma_own_part("Plus"@);
    lemma_own_part("Minus"@);
    lemma_own_part("NMinus"@);
}

/// `Minus` undoes `Plus` with the same operand, and `NMinus` undoes itself.
pub proof fn law_minus_undoes_plus(n: i32, k: i32)
    ensures
        operated(operated(n, "Plus"@, k), "Minus"@, k) == n,
        operated(operated(n, "Minus"@, k), "Plus"@, k) == n,
        operated(operated(n, "NMinus"@, k), "NMinus"@, k) == n,
{
    lemma_plus_and_minus();
}

/// A quotient and its remainder make the number again, unless the divisor is zero or the quotient
/// does not fit.
pub proof fn law_division(n: i32, by: i32)
    requires
        by != 0,
        !(n == i32::MIN && by == -1),
    ensures
        quotient(n, by) * by + remainder(n, by) == n,
{
    let a = if n < 0 { -n } else { n as int };
    let d = if by < 0 { -by } else { by as int };
    let q = a / d;
    let r = a % d;
    assert(a == q * d + r && 0 <= q <= a && 0 <= r < d) by (nonlinear_arith)
        requires
            q == a / d,
            r == a % d,
            a >= 0,
            d > 0,
    ;
    assert(d >= 2 && a == 0x8000_0000 ==> q < a) by (nonlinear_arith)
        requires
            a == q * d + r,
            0 <= q <= a,
            0 <= r < d,
    ;
    assert(-q * d == -(q * d) && q * -d == -(q * d) && -q * -d == q * d) by (nonlinear_arith);
}

proof fn lemma_not_part(s: Seq<char>, p: Seq<char>, k: int)
    requires
        0 <= k < p.len(),
        !s.contains(p[k]),
    ensures
        !has_part(s, p),
{
    assert forall|i: int| !occurs_at(s, p, i) by {
        if occurs_at(s, p, i) {
            assert(s.subrange(i, i + p.len())[k] == s[i + k]);
        }
    }
}

/// A number that a limit was set to keeps to it, and one that keeps to it already is unchanged.
pub proof fn law_limits(n: i32, k: i32)
    ensures
        operated(n, "LimitMax"@, k) <= k,
        operated(n, "LimitMin"@, k) >= k,
        n <= k ==> operated(n, "LimitMax"@, k) == n,
        n >= k ==> operated(n, "LimitMin"@, k) == n,
{
    lemma_limit_words();
}

proof fn lemma_limit_words()
    ensures
        !has_part("LimitMax"@, "Plus"@),
        !has_part("LimitMin"@, "Plus"@),
        !has_part("LimitMax"@, "NMinus"@),
        !has_part("LimitMin"@, "NMinus"@),
        !has_part("LimitMax"@, "Minus"@),
        !has_part("LimitMin"@, "Minus"@),
        !has_part("LimitMax"@, "Twice"@),
        !has_part("LimitMin"@, "Twice"@),
        !has_part("LimitMax"@, "Thrice"@),
        !has_part("LimitMin"@, "Thrice"@),
        !has_part("LimitMax"@, "HalfUp"@),
        !has_part("LimitMin"@, "HalfUp"@),
        !has_part("LimitMax"@, "HalfDown"@),
        !has_part("LimitMin"@, "HalfDown"@),
        !has_part("LimitMax"@, "ThirdUp"@),
        !has_part("LimitMin"@, "ThirdUp"@),
        !has_part("LimitMax"@, "ThirdDown"@),
        !has_part("LimitMin"@, "ThirdDown"@),
        !has_part("LimitMax"@, "Negative"@),
        !has_part("LimitMin"@, "Negative"@),
        !has_part("LimitMax"@, "Times"@),
        !has_part("LimitMin"@, "Times"@),
        !has_part("LimitMax"@, "Pow"@),
        !has_part("LimitMin"@, "Pow"@),
        !has_part("LimitMax"@, "DivideEvenlyUp"@),
        !has_part("LimitMin"@, "DivideEvenlyUp"@),
        !has_part("LimitMax"@, "DivideEvenlyDown"@),
        !has_part("LimitMin"@, "DivideEvenlyDown"@),
        !has_part("LimitMax"@, "Mod"@),
        !has_part("LimitMin"@, "Mod"@),
        !has_part("LimitMax"@, "Abs"@),
        !has_part("LimitMin"@, "Abs"@),
        !has_part("LimitMin"@, "LimitMax"@),
        has_part("LimitMax"@, "LimitMax"@),
        has_part("LimitMin"@, "LimitMin"@),
{
    reveal_strlit("LimitMax");
    reveal_strlit("LimitMin");
    reveal_strlit("Plus");
    lemma_not_part("LimitMax"@, "Plus"@, 0);
    lemma_not_part("LimitMin"@, "Plus"@, 0);
    reveal_strlit("NMinus");
    lemma_not_part("LimitMax"@, "NMinus"@, 0);
    lemma_not_part("LimitMin"@, "NMinus"@, 0);
    reveal_strlit("Minus");
    lemma_not_part("LimitMax"@, "Minus"@, 2);
    lemma_not_part("LimitMin"@, "Minus"@, 3);
    reveal_strlit("Twice");
    lemma_not_part("LimitMax"@, "Twice"@, 0);
    lemma_not_part("LimitMin"@, "Twice"@, 0);
    reveal_strlit("Thrice");
    lemma_not_part("LimitMax"@, "Thrice"@, 0);
    lemma_not_part("LimitMin"@, "Thrice"@, 0);
    reveal_strlit("HalfUp");
    lemma_not_part("LimitMax"@, "HalfUp"@, 0);
    lemma_not_part("LimitMin"@, "HalfUp"@, 0);
    reveal_strlit("HalfDown");
    lemma_not_part("LimitMax"@, "HalfDown"@, 0);
    lemma_not_part("LimitMin"@, "HalfDown"@, 0);
    reveal_strlit("ThirdUp");
    lemma_not_part("LimitMax"@, "ThirdUp"@, 0);
    lemma_not_part("LimitMin"@, "ThirdUp"@, 0);
    reveal_strlit("ThirdDown");
    lemma_not_part("LimitMax"@, "ThirdDown"@, 0);
    lemma_not_part("LimitMin"@, "ThirdDown"@, 0);
    reveal_strlit("Negative");
    lemma_not_part("LimitMax"@, "Negative"@, 0);
    lemma_not_part("LimitMin"@, "Negative"@, 0);
    reveal_strlit("Times");
    lemma_not_part("LimitMax"@, "Times"@, 0);
    lemma_not_part("LimitMin"@, "Times"@, 0);
    reveal_strlit("Pow");
    lemma_not_part("LimitMax"@, "Pow"@, 0);
    lemma_not_part("LimitMin"@, "Pow"@, 0);
    reveal_strlit("DivideEvenlyUp");
    lemma_not_part("LimitMax"@, "DivideEvenlyUp"@, 0);
    lemma_not_part("LimitMin"@, "DivideEvenlyUp"@, 0);
    reveal_strlit("DivideEvenlyDown");
    lemma_not_part("LimitMax"@, "DivideEvenlyDown"@, 0);
    lemma_not_part("LimitMin"@, "DivideEvenlyDown"@, 0);
    reveal_strlit("Mod");
    lemma_not_part("LimitMax"@, "Mod"@, 1);
    lemma_not_part("LimitMin"@, "Mod"@, 1);
    reveal_strlit("Abs");
    lemma_not_part("LimitMax"@, "Abs"@, 0);
    lemma_not_part("LimitMin"@, "Abs"@, 0);
    lemma_not_part("LimitMin"@, "LimitMax"@, 6);
    lemma_own_part("LimitMax"@);
    lemma_own_part("LimitMin"@);
}

proof fn lemma_chained_on(value: i32, first: Seq<Seq<char>>, then_ops: Seq<Seq<char>>)
    ensures
        chained(value, first + then_ops) == chained(chained(value, first), then_ops),
    decreases then_ops.len(),
{
    if then_ops.len() == 0 {
        assert(first + then_ops =~= first);
    } else {
        lemma_chained_on(value, first, then_ops.drop_last());
        assert((first + then_ops).drop_last() =~= first + then_ops.drop_last());
        assert((first + then_ops).last() == then_ops.last());
    }
}

/// Two chains of operators that are joined by a slash act one after the other.
pub proof fn law_chains_act_in_turn(value: i32, first: Seq<char>, second: Seq<char>)
    ensures
        chained(value, crate::text::pieces(first + "/"@ + second, "/"@)) == chained(
            chained(value, crate::text::pieces(first, "/"@)),
            crate::text::pieces(second, "/"@),
        ),
{
    reveal_strlit("/");
    assert("/"@ =~= seq!['/']);
    crate::text::lemma_pieces_joined(first, '/', second);
    lemma_chained_on(
        value,
        crate::text::pieces(first, "/"@),
        crate::text::pieces(second, "/"@),
    );
}

} // verus!
