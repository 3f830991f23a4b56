//! Text helpers for the card-script language, stated over sequences of characters.

use vstd::prelude::*;

verus! {

/// Unicode `White_Space`.
pub open spec fn is_white(c: char) -> bool {
    let n = c as u32;
    ||| 0x9 <= n <= 0xD
    ||| n == 0x20
    ||| n == 0x85
    ||| n == 0xA0
    ||| n == 0x1680
    ||| 0x2000 <= n <= 0x200A
    ||| n == 0x2028
    ||| n == 0x2029
    ||| n == 0x202F
    ||| n == 0x205F
    ||| n == 0x3000
}

pub fn char_is_white(c: char) -> (r: bool)
    ensures
        r == is_white(c),
{
    let n: u32 = c as u32;
    (0x9 <= n && n <= 0xD) || n == 0x20 || n == 0x85 || n == 0xA0 || n == 0x1680
        || (0x2000 <= n && n <= 0x200A) || n == 0x2028 || n == 0x2029 || n == 0x202F
        || n == 0x205F || n == 0x3000
}

/// The text without its leading white space.
pub open spec fn trim_start(s: Seq<char>) -> Seq<char>
    decreases s.len(),
{
    if s.len() > 0 && is_white(s[0]) {
        trim_start(s.skip(1))
    } else {
        s
    }
}

/// The text without its trailing white space.
pub open spec fn trim_end(s: Seq<char>) -> Seq<char>
    decreases s.len(),
{
    if s.len() > 0 && is_white(s.last()) {
        trim_end(s.drop_last())
    } else {
        s
    }
}

/// The text without surrounding white space.
pub open spec fn trimmed(s: Seq<char>) -> Seq<char> {
    trim_end(trim_start(s))
}

/// Removes surrounding white space.
pub fn trim(s: &str) -> (r: &str)
    ensures
        r@ == trimmed(s@),
        r@.len() <= s@.len(),
{
    let n: usize = s.unicode_len();
    let mut i: usize = 0;
    assert(s@.skip(0) =~= s@);
    while i < n && char_is_white(s.get_char(i))
        invariant
            n == s@.len(),
            i <= n,
            trim_start(s@.skip(i as int)) == trim_start(s@),
        decreases n - i,
    {
        assert(s@.skip(i as int).skip(1) =~= s@.skip(i + 1));
        i = i + 1;
    }
    let ghost t = s@.skip(i as int);
    assert(trim_start(s@) == t);
    let mut j: usize = n;
    while j > i && char_is_white(s.get_char(j - 1))
        invariant
            n == s@.len(),
            i <= j <= n,
            t == s@.skip(i as int),
            trim_end(s@.subrange(i as int, j as int)) == trim_end(t),
        decreases j,
    {
        assert(s@.subrange(i as int, j as int).drop_last() =~= s@.subrange(i as int, j - 1));
        j = j - 1;
    }
    assert(trim_end(s@.subrange(i as int, j as int)) == s@.subrange(i as int, j as int));
    s.substring_char(i, j)
}

/// ASCII lower-casing of one character.
pub open spec fn lower_char(c: char) -> char {
    if 'A' <= c && c <= 'Z' {
        (c as u8 + 32) as u8 as char
    } else {
        c
    }
}

pub open spec fn lowered(s: Seq<char>) -> Seq<char> {
    s.map_values(|c: char| lower_char(c))
}

pub fn char_to_lower(c: char) -> (r: char)
    ensures
        r == lower_char(c),
{
    if 'A' <= c && c <= 'Z' {
        let n: u8 = c as u8;
        (n + 32) as char
    } else {
        c
    }
}

/// Appends one character: `String::push` adds it behind what the string holds.
#[verifier::external_body]
pub(crate) fn push_char(s: &mut String, c: char)
    ensures
        final(s)@ == old(s)@.push(c),
{
    s.push(c);
}

/// Whether two texts consist of the same characters.
pub fn text_eq(a: &str, b: &str) -> (r: bool)
    ensures
        r == (a@ == b@),
{
    let n: usize = a.unicode_len();
    if b.unicode_len() != n {
        return false;
    }
    let mut i: usize = 0;
    while i < n
        invariant
            i <= n,
            n == a@.len(),
            n == b@.len(),
            forall|k: int| 0 <= k < i ==> a@[k] == b@[k],
        decreases n - i,
    {
        if a.get_char(i) != b.get_char(i) {
            assert(a@[i as int] != b@[i as int]);
            return false;
        }
        i = i + 1;
    }
    assert(a@ =~= b@);
    true
}

/// How many bytes a character takes.
pub open spec fn byte_width(c: char) -> int {
    if (c as u32) < 0x80 {
        1
    } else if (c as u32) < 0x800 {
        2
    } else if (c as u32) < 0x10000 {
        3
    } else {
        4
    }
}

/// How many characters the first two bytes of a text are; none where it has no two bytes, or where
/// they end within a character.
pub open spec fn two_bytes(s: Seq<char>) -> Option<int> {
    if s.len() >= 1 && byte_width(s[0]) == 2 {
        Some(1)
    } else if s.len() >= 2 && byte_width(s[0]) == 1 && byte_width(s[1]) == 1 {
        Some(2)
    } else {
        None
    }
}

/// Cuts a text behind its first two bytes.
pub fn cut_two_bytes<'a>(s: &'a str) -> (r: Option<(&'a str, &'a str)>)
    ensures
        match two_bytes(s@) {
            Some(k) => r matches Some((a, b)) && a@ == s@.take(k) && b@ == s@.skip(k),
            None => r is None,
        },
{
    let n: usize = s.unicode_len();
    if n == 0 {
        return None;
    }
    let first: u32 = s.get_char(0) as u32;
    let k: usize = if first >= 0x80 {
        1
    } else {
        2
    };
    let whole = if first >= 0x80 {
        first < 0x800
    } else {
        n >= 2 && (s.get_char(1) as u32) < 0x80
    };
    if !whole {
        return None;
    }
    let a = s.substring_char(0, k);
    let b = s.substring_char(k, n);
    assert(a@ =~= s@.take(k as int));
    assert(b@ =~= s@.skip(k as int));
    Some((a, b))
}

/// ASCII lower case of a text.
pub fn to_lower(s: &str) -> (r: String)
    ensures
        r@ == lowered(s@),
{
    let n: usize = s.unicode_len();
    let mut out = String::new();
    let mut i: usize = 0;
    while i < n
        invariant
            n == s@.len(),
            i <= n,
            out@ == lowered(s@.take(i as int)),
        decreases n - i,
    {
        push_char(&mut out, char_to_lower(s.get_char(i)));
        i = i + 1;
        assert(out@ =~= lowered(s@.take(i as int)));
    }
    assert(s@.take(i as int) =~= s@);
    out
}

/// Equality up to ASCII case.
pub open spec fn same_ignoring_case(a: Seq<char>, b: Seq<char>) -> bool {
    lowered(a) == lowered(b)
}

pub fn eq_ignore_case(a: &str, b: &str) -> (r: bool)
    ensures
        r == same_ignoring_case(a@, b@),
{
    let n: usize = a.unicode_len();
    if n != b.unicode_len() {
        assert(lowered(a@).len() != lowered(b@).len());
        return false;
    }
    let mut i: usize = 0;
    while i < n
        invariant
            n == a@.len(),
            n == b@.len(),
            i <= n,
            forall|k: int| 0 <= k < i ==> lower_char(a@[k]) == lower_char(b@[k]),
        decreases n - i,
    {
        if char_to_lower(a.get_char(i)) != char_to_lower(b.get_char(i)) {
            assert(lowered(a@)[i as int] != lowered(b@)[i as int]);
            return false;
        }
        i = i + 1;
    }
    assert(lowered(a@) =~= lowered(b@));
    true
}

/// Whether `p` stands in `s` at place `i`.
pub open spec fn occurs_at(s: Seq<char>, p: Seq<char>, i: int) -> bool {
    0 <= i && i + p.len() <= s.len() && s.subrange(i, i + p.len()) == p
}

pub open spec fn has_prefix(s: Seq<char>, p: Seq<char>) -> bool {
    occurs_at(s, p, 0)
}

pub open spec fn has_suffix(s: Seq<char>, p: Seq<char>) -> bool {
    occurs_at(s, p, s.len() - p.len())
}

/// Whether `p` stands somewhere in `s`.
pub open spec fn has_part(s: Seq<char>, p: Seq<char>) -> bool {
    exists|i: int| occurs_at(s, p, i)
}

pub fn matches_at(s: &str, p: &str, i: usize) -> (r: bool)
    ensures
        r == occurs_at(s@, p@, i as int),
{
    let n: usize = s.unicode_len();
    let m: usize = p.unicode_len();
    if i > n || m > n - i {
        return false;
    }
    text_eq(s.substring_char(i, i + m), p)
}

pub fn starts_with(s: &str, p: &str) -> (r: bool)
    ensures
        r == has_prefix(s@, p@),
{
    matches_at(s, p, 0)
}

pub fn ends_with(s: &str, p: &str) -> (r: bool)
    ensures
        r == has_suffix(s@, p@),
{
    let n: usize = s.unicode_len();
    let m: usize = p.unicode_len();
    if m > n {
        return false;
    }
    matches_at(s, p, n - m)
}

/// What stands behind the prefix `p`, where `s` begins with it.
pub fn strip_prefix<'a>(s: &'a str, p: &str) -> (r: Option<&'a str>)
    ensures
        r is Some == has_prefix(s@, p@),
        r matches Some(rest) ==> rest@ == s@.skip(p@.len() as int),
        r matches Some(rest) ==> rest@.len() == s@.len() - p@.len(),
{
    if starts_with(s, p) {
        Some(s.substring_char(p.unicode_len(), s.unicode_len()))
    } else {
        None
    }
}

/// What stands before the suffix `p`, where `s` ends with it.
pub fn strip_suffix<'a>(s: &'a str, p: &str) -> (r: Option<&'a str>)
    ensures
        r is Some == has_suffix(s@, p@),
        r matches Some(rest) ==> rest@ == s@.take(s@.len() - p@.len()),
{
    if ends_with(s, p) {
        Some(s.substring_char(0, s.unicode_len() - p.unicode_len()))
    } else {
        None
    }
}

/// The text from place `n` on, where it is that long.
pub fn skip_chars(s: &str, n: usize) -> (r: &str)
    requires
        n <= s@.len(),
    ensures
        r@ == s@.skip(n as int),
{
    s.substring_char(n, s.unicode_len())
}

/// The first place at or behind `from` where `p` stands.
pub open spec fn find_from(s: Seq<char>, p: Seq<char>, from: int) -> Option<int>
    decreases s.len() - from + 1,
{
    if from < 0 || from + p.len() > s.len() {
        None
    } else if occurs_at(s, p, from) {
        Some(from)
    } else {
        find_from(s, p, from + 1)
    }
}

/// The first place where `p` stands in `s`.
pub open spec fn first_place(s: Seq<char>, p: Seq<char>) -> Option<int> {
    find_from(s, p, 0)
}

pub proof fn lemma_find_from(s: Seq<char>, p: Seq<char>, from: int)
    requires
        0 <= from,
    ensures
        find_from(s, p, from) matches Some(i) ==> from <= i && occurs_at(s, p, i) && (forall|k: int|
            from <= k < i ==> !occurs_at(s, p, k)),
        find_from(s, p, from) is None ==> forall|k: int| from <= k ==> !occurs_at(s, p, k),
    decreases s.len() - from + 1,
{
    if from + p.len() > s.len() {
    } else if occurs_at(s, p, from) {
    } else {
        lemma_find_from(s, p, from + 1);
        assert forall|k: int| from <= k && find_from(s, p, from) is None implies !occurs_at(
            s,
            p,
            k,
        ) by {
            if k != from {
            }
        }
    }
}

/// A text holds `p` exactly where a first place of `p` is found.
pub proof fn lemma_first_place(s: Seq<char>, p: Seq<char>)
    ensures
        first_place(s, p) is Some <==> has_part(s, p),
        first_place(s, p) matches Some(i) ==> occurs_at(s, p, i) && 0 <= i && i + p.len()
            <= s.len(),
{
    lemma_find_from(s, p, 0);
    if has_part(s, p) {
        let i = choose|i: int| occurs_at(s, p, i);
        assert(occurs_at(s, p, i));
    }
}

pub fn find(s: &str, p: &str) -> (r: Option<usize>)
    ensures
        r is Some == (first_place(s@, p@) is Some),
        r matches Some(i) ==> first_place(s@, p@) == Some(i as int) && i + p@.len() <= s@.len(),
        r is Some == has_part(s@, p@),
{
    let n: usize = s.unicode_len();
    let m: usize = p.unicode_len();
    proof {
        lemma_first_place(s@, p@);
    }
    if m > n {
        return None;
    }
    let mut i: usize = 0;
    loop
        invariant
            n == s@.len(),
            m == p@.len(),
            m <= n,
            i <= n - m,
            first_place(s@, p@) == find_from(s@, p@, i as int),
            first_place(s@, p@) is Some <==> has_part(s@, p@),
        decreases n - m - i,
    {
        if matches_at(s, p, i) {
            return Some(i);
        }
        if i == n - m {
            assert(find_from(s@, p@, i + 1) is None);
            return None;
        }
        i = i + 1;
    }
}

pub fn contains(s: &str, p: &str) -> (r: bool)
    ensures
        r == has_part(s@, p@),
{
    find(s, p).is_some()
}

/// The pieces of `s` between the places where the separator `p` stands.
pub open spec fn pieces(s: Seq<char>, p: Seq<char>) -> Seq<Seq<char>>
    decreases s.len(),
{
    match first_place(s, p) {
        Some(i) if 0 <= i && i + p.len() <= s.len() && p.len() > 0 => seq![s.take(i)] + pieces(
            s.skip(i + p.len()),
            p,
        ),
        _ => seq![s],
    }
}

pub open spec fn views(v: Seq<&str>) -> Seq<Seq<char>> {
    v.map_values(|x: &str| x@)
}

/// Splits a text at every occurrence of a non-empty separator.
pub fn split<'a>(s: &'a str, p: &str) -> (r: Vec<&'a str>)
    requires
        p@.len() > 0,
    ensures
        views(r@) == pieces(s@, p@),
        r@.len() > 0,
        forall|k: int| 0 <= k < r@.len() ==> (#[trigger] r@[k])@.len() <= s@.len(),
{
    let mut out: Vec<&'a str> = Vec::new();
    let mut rest: &'a str = s;
    let m: usize = p.unicode_len();
    loop
        invariant
            m == p@.len(),
            m > 0,
            rest@.len() <= s@.len(),
            forall|k: int| 0 <= k < out@.len() ==> (#[trigger] out@[k])@.len() <= s@.len(),
            views(out@) + pieces(rest@, p@) == pieces(s@, p@),
        decreases rest@.len(),
    {
        match find(rest, p) {
            Some(i) => {
                let ghost before = out@;
                let head: &'a str = rest.substring_char(0, i);
                let n: usize = rest.unicode_len();
                let tail: &'a str = rest.substring_char(i + m, n);
                proof {
                    lemma_first_place(rest@, p@);
                    assert(rest@.subrange(0, i as int) =~= rest@.take(i as int));
                    assert(tail@ =~= rest@.skip(i as int + p@.len()));
                    assert(pieces(rest@, p@) =~= seq![head@] + pieces(tail@, p@));
                }
                out.push(head);
                assert(views(out@) + pieces(tail@, p@) =~= views(before) + pieces(rest@, p@));
                rest = tail;
            },
            None => {
                let ghost before = out@;
                out.push(rest);
                assert(views(out@) =~= views(before) + pieces(rest@, p@));
                return out;
            },
        }
    }
}

/// The two sides of the first separator, where there is one.
pub fn split_once<'a>(s: &'a str, p: &str) -> (r: Option<(&'a str, &'a str)>)
    ensures
        r is Some == has_part(s@, p@),
        r matches Some((a, b)) ==> (first_place(s@, p@) matches Some(i) && a@ == s@.take(i) && b@
            == s@.skip(i + p@.len())),
{
    match find(s, p) {
        Some(i) => {
            let m: usize = p.unicode_len();
            let n: usize = s.unicode_len();
            let a = s.substring_char(0, i);
            let b = s.substring_char(i + m, n);
            assert(a@ =~= s@.take(i as int));
            assert(b@ =~= s@.skip(i as int + p@.len()));
            Some((a, b))
        },
        None => None,
    }
}

pub open spec fn replaced(s: Seq<char>, from: char, to: char) -> Seq<char> {
    s.map_values(|c: char| if c == from { to } else { c })
}

/// Every `from` becomes `to`.
pub fn replace_char(s: &str, from: char, to: char) -> (r: String)
    ensures
        r@ == replaced(s@, from, to),
{
    let n: usize = s.unicode_len();
    let mut out = String::new();
    let mut i: usize = 0;
    while i < n
        invariant
            n == s@.len(),
            i <= n,
            out@ == replaced(s@.take(i as int), from, to),
        decreases n - i,
    {
        let c: char = s.get_char(i);
        push_char(&mut out, if c == from { to } else { c });
        i = i + 1;
        assert(out@ =~= replaced(s@.take(i as int), from, to));
    }
    assert(s@.take(i as int) =~= s@);
    out
}

pub open spec fn is_digit(c: char) -> bool {
    '0' <= c && c <= '9'
}

/// ASCII letter or digit.
pub open spec fn is_alnum(c: char) -> bool {
    is_digit(c) || ('a' <= c && c <= 'z') || ('A' <= c && c <= 'Z')
}

pub fn char_is_alnum(c: char) -> (r: bool)
    ensures
        r == is_alnum(c),
{
    ('0' <= c && c <= '9') || ('a' <= c && c <= 'z') || ('A' <= c && c <= 'Z')
}

/// The number that a run of digits writes.
pub open spec fn digits_value(s: Seq<char>) -> int
    decreases s.len(),
{
    if s.len() == 0 {
        0
    } else {
        10 * digits_value(s.drop_last()) + (s.last() as int - '0' as int)
    }
}

pub open spec fn all_digits(s: Seq<char>) -> bool {
    forall|k: int| 0 <= k < s.len() ==> is_digit(#[trigger] s[k])
}

/// The `i32` that a text writes: an optional sign and at least one digit, in range.
pub open spec fn int_value(s: Seq<char>) -> Option<int> {
    let signed = s.len() > 0 && (s[0] == '+' || s[0] == '-');
    let digits = if signed { s.skip(1) } else { s };
    let value = if s.len() > 0 && s[0] == '-' { -digits_value(digits) } else { digits_value(digits) };
    if digits.len() > 0 && all_digits(digits) && i32::MIN <= value <= i32::MAX {
        Some(value)
    } else {
        None
    }
}

pub open spec fn as_int(v: Option<i32>) -> Option<int> {
    match v {
        Some(n) => Some(n as int),
        None => None,
    }
}

proof fn lemma_digits_value_grows(s: Seq<char>, k: int)
    requires
        all_digits(s),
        0 <= k <= s.len(),
    ensures
        0 <= digits_value(s.take(k)) <= digits_value(s),
    decreases s.len(),
{
    if k == s.len() {
        assert(s.take(k) =~= s);
        lemma_digits_nonneg(s);
    } else {
        assert(all_digits(s.drop_last()));
        assert(s.drop_last().take(k) =~= s.take(k));
        lemma_digits_value_grows(s.drop_last(), k);
        assert(is_digit(s.last()));
    }
}

pub proof fn lemma_digits_nonneg(s: Seq<char>)
    requires
        all_digits(s),
    ensures
        0 <= digits_value(s),
    decreases s.len(),
{
    if s.len() > 0 {
        assert(all_digits(s.drop_last()));
        lemma_digits_nonneg(s.drop_last());
        assert(is_digit(s.last()));
    }
}

/// Reads an `i32`.
pub fn parse_i32(s: &str) -> (r: Option<i32>)
    ensures
        as_int(r) == int_value(s@),
{
    let n: usize = s.unicode_len();
    if n == 0 {
        return None;
    }
    let first: char = s.get_char(0);
    let negative = first == '-';
    let start: usize = if first == '+' || first == '-' { 1 } else { 0 };
    let ghost digits = if start == 1 { s@.skip(1) } else { s@ };
    if start == n {
        assert(digits.len() == 0);
        return None;
    }
    let mut value: i64 = 0;
    let mut i: usize = start;
    while i < n
        invariant
            n == s@.len(),
            start <= i <= n,
            start <= 1,
            digits == (if start == 1 { s@.skip(1) } else { s@ }),
            all_digits(digits.take(i - start)),
            value == digits_value(digits.take(i - start)),
            0 <= value <= 0x8000_0000,
            negative == (s@[0] == '-'),
            (start == 1) == (s@[0] == '+' || s@[0] == '-'),
            n > 0,
        decreases n - i,
    {
        let c: char = s.get_char(i);
        let ghost k = i - start;
        assert(digits[k] == c);
        if !('0' <= c && c <= '9') {
            assert(!is_digit(digits[k]));
            return None;
        }
        proof {
            assert(digits.take(k + 1).drop_last() =~= digits.take(k));
            assert(digits.take(k + 1).last() == c);
            assert(all_digits(digits.take(k + 1))) by {
                assert forall|j: int| 0 <= j < k + 1 implies is_digit(
                    #[trigger] digits.take(k + 1)[j],
                ) by {
                    if j < k {
                        assert(digits.take(k)[j] == digits[j]);
                    }
                }
            }
        }
        let d: i64 = (c as u32) as i64 - 48;
        value = value * 10 + d;
        i = i + 1;
        if value > 0x8000_0000 {
            proof {
                if all_digits(digits) {
                    lemma_digits_value_grows(digits, k + 1);
                }
            }
            return None;
        }
    }
    assert(digits.take(i - start) =~= digits);
    if negative {
        Some((0 - value) as i32)
    } else if value <= 0x7fff_ffff {
        Some(value as i32)
    } else {
        None
    }
}

/// The comma-free list items of a delimited value: trimmed, without the empty ones.
pub open spec fn trimmed_nonempty(parts: Seq<Seq<char>>) -> Seq<Seq<char>>
    decreases parts.len(),
{
    if parts.len() == 0 {
        Seq::empty()
    } else {
        let rest = trimmed_nonempty(parts.drop_last());
        let last = trimmed(parts.last());
        if last.len() > 0 {
            rest.push(last)
        } else {
            rest
        }
    }
}

pub open spec fn string_views(v: Seq<String>) -> Seq<Seq<char>> {
    v.map_values(|x: String| x@)
}

/// Joins texts with a separator between neighbours.
pub open spec fn joined(parts: Seq<Seq<char>>, sep: Seq<char>) -> Seq<char>
    decreases parts.len(),
{
    if parts.len() == 0 {
        Seq::empty()
    } else if parts.len() == 1 {
        parts[0]
    } else {
        joined(parts.drop_last(), sep) + sep + parts.last()
    }
}

pub fn join(parts: &Vec<String>, sep: &str) -> (r: String)
    ensures
        r@ == joined(string_views(parts@), sep@),
{
    let mut out = String::new();
    let mut i: usize = 0;
    let ghost all = string_views(parts@);
    while i < parts.len()
        invariant
            i <= parts@.len(),
            all == string_views(parts@),
            out@ == joined(all.take(i as int), sep@),
        decreases parts@.len() - i,
    {
        if i > 0 {
            out.append(sep);
        }
        out.append(parts[i].as_str());
        proof {
            assert(all.take(i + 1).drop_last() =~= all.take(i as int));
            assert(all.take(i + 1).last() == parts@[i as int]@);
            if i == 0 {
                assert(out@ =~= parts@[0]@);
            }
        }
        i = i + 1;
    }
    assert(all.take(i as int) =~= all);
    out
}

/// Order of texts, character by character.
pub open spec fn text_lt(a: Seq<char>, b: Seq<char>) -> bool
    decreases a.len(),
{
    if b.len() == 0 {
        false
    } else if a.len() == 0 {
        true
    } else if a[0] != b[0] {
        a[0] < b[0]
    } else {
        text_lt(a.skip(1), b.skip(1))
    }
}

pub proof fn lemma_text_lt_irreflexive(a: Seq<char>)
    ensures
        !text_lt(a, a),
    decreases a.len(),
{
    if a.len() > 0 {
        lemma_text_lt_irreflexive(a.skip(1));
    }
}

pub proof fn lemma_text_lt_transitive(a: Seq<char>, b: Seq<char>, c: Seq<char>)
    requires
        text_lt(a, b),
        text_lt(b, c),
    ensures
        text_lt(a, c),
    decreases a.len(),
{
    if a.len() > 0 && a[0] == b[0] && b[0] == c[0] {
        lemma_text_lt_transitive(a.skip(1), b.skip(1), c.skip(1));
    }
}

pub proof fn lemma_text_lt_total(a: Seq<char>, b: Seq<char>)
    ensures
        a == b || text_lt(a, b) || text_lt(b, a),
    decreases a.len(),
{
    if a.len() == 0 || b.len() == 0 {
        if a.len() == b.len() {
            assert(a =~= b);
        }
    } else if a[0] == b[0] {
        lemma_text_lt_total(a.skip(1), b.skip(1));
        if a.skip(1) == b.skip(1) {
            assert(a =~= seq![a[0]] + a.skip(1));
            assert(b =~= seq![b[0]] + b.skip(1));
        }
    }
}

/// Whether `a` comes before `b`.
pub fn less(a: &str, b: &str) -> (r: bool)
    ensures
        r == text_lt(a@, b@),
{
    let n: usize = a.unicode_len();
    let m: usize = b.unicode_len();
    let mut i: usize = 0;
    assert(a@.skip(0) =~= a@);
    assert(b@.skip(0) =~= b@);
    loop
        invariant
            n == a@.len(),
            m == b@.len(),
            i <= n,
            i <= m,
            text_lt(a@, b@) == text_lt(a@.skip(i as int), b@.skip(i as int)),
        decreases n - i,
    {
        if i == m {
            return false;
        }
        if i == n {
            return true;
        }
        let x: char = a.get_char(i);
        let y: char = b.get_char(i);
        if x != y {
            return x < y;
        }
        assert(a@.skip(i as int).skip(1) =~= a@.skip(i + 1));
        assert(b@.skip(i as int).skip(1) =~= b@.skip(i + 1));
        i = i + 1;
    }
}

/// The unsigned number that a text writes: an optional plus and at least one digit, up to `max`.
pub open spec fn unsigned_value(s: Seq<char>, max: int) -> Option<int> {
    let digits = if s.len() > 0 && s[0] == '+' { s.skip(1) } else { s };
    if digits.len() > 0 && all_digits(digits) && digits_value(digits) <= max {
        Some(digits_value(digits))
    } else {
        None
    }
}

/// Reads an unsigned number of at most `max`.
pub fn parse_unsigned(s: &str, max: u64) -> (r: Option<u64>)
    ensures
        r matches Some(n) ==> unsigned_value(s@, max as int) == Some(n as int),
        r is None ==> unsigned_value(s@, max as int) is None,
{
    let n: usize = s.unicode_len();
    if n == 0 {
        return None;
    }
    let start: usize = if s.get_char(0) == '+' { 1 } else { 0 };
    let ghost digits = if start == 1 { s@.skip(1) } else { s@ };
    if start == n {
        assert(digits.len() == 0);
        return None;
    }
    let mut value: u128 = 0;
    let mut i: usize = start;
    while i < n
        invariant
            n == s@.len(),
            start <= i <= n,
            start <= 1,
            n > 0,
            (start == 1) == (s@[0] == '+'),
            digits == (if start == 1 { s@.skip(1) } else { s@ }),
            all_digits(digits.take(i - start)),
            value == digits_value(digits.take(i - start)),
            0 <= value <= max,
        decreases n - i,
    {
        let c: char = s.get_char(i);
        let ghost k = i - start;
        assert(digits[k] == c);
        if !('0' <= c && c <= '9') {
            assert(!is_digit(digits[k]));
            return None;
        }
        proof {
            assert(digits.take(k + 1).drop_last() =~= digits.take(k));
            assert(digits.take(k + 1).last() == c);
            assert(all_digits(digits.take(k + 1))) by {
                assert forall|j: int| 0 <= j < k + 1 implies is_digit(
                    #[trigger] digits.take(k + 1)[j],
                ) by {
                    if j < k {
                        assert(digits.take(k)[j] == digits[j]);
                    }
                }
            }
        }
        let d: u128 = (c as u32) as u128 - 48;
        value = value * 10 + d;
        i = i + 1;
        if value > max as u128 {
            proof {
                if all_digits(digits) {
                    lemma_digits_value_grows(digits, k + 1);
                }
            }
            return None;
        }
    }
    assert(digits.take(i - start) =~= digits);
    Some(value as u64)
}

pub open spec fn is_ascii_text(s: Seq<char>) -> bool {
    forall|i: int| 0 <= i < s.len() ==> (#[trigger] s[i] as u32) < 128
}

/// What `str::to_lowercase` makes of a text.
pub uninterp spec fn unicode_lowered(s: Seq<char>) -> Seq<char>;

/// Unicode lower case: `str::to_lowercase` depends on the text alone, and on ASCII text it
/// lower-cases each letter.
#[verifier::external_body]
pub(crate) fn unicode_to_lower(s: &str) -> (r: String)
    ensures
        r@ == unicode_lowered(s@),
        is_ascii_text(s@) ==> r@ == lowered(s@),
{
    s.to_lowercase()
}

/// A text in lower case: each letter of an ASCII text, and what std makes of any other.
pub open spec fn lower_case(s: Seq<char>) -> Seq<char> {
    if is_ascii_text(s) {
        lowered(s)
    } else {
        unicode_lowered(s)
    }
}

pub open spec fn upper_char(c: char) -> char {
    if 'a' <= c && c <= 'z' {
        (c as u8 - 32) as u8 as char
    } else {
        c
    }
}

pub open spec fn uppered(s: Seq<char>) -> Seq<char> {
    s.map_values(|c: char| upper_char(c))
}

/// What `str::to_uppercase` makes of a text.
pub uninterp spec fn unicode_uppered(s: Seq<char>) -> Seq<char>;

/// Unicode upper case: `str::to_uppercase` depends on the text alone, and on ASCII text it
/// upper-cases each letter.
#[verifier::external_body]
pub(crate) fn unicode_to_upper(s: &str) -> (r: String)
    ensures
        r@ == unicode_uppered(s@),
        is_ascii_text(s@) ==> r@ == uppered(s@),
{
    s.to_uppercase()
}

/// A text in upper case: each letter of an ASCII text, and what std makes of any other.
pub open spec fn upper_case(s: Seq<char>) -> Seq<char> {
    if is_ascii_text(s) {
        uppered(s)
    } else {
        unicode_uppered(s)
    }
}

// ---- cutting texts at a mark ----

/// The text before the first mark, or all of it.
pub open spec fn before_mark(s: Seq<char>, mark: Seq<char>) -> Seq<char> {
    match first_place(s, mark) {
        Some(i) => s.take(i),
        None => s,
    }
}

/// The text behind the first mark, or nothing.
pub open spec fn after_mark(s: Seq<char>, mark: Seq<char>) -> Seq<char> {
    match first_place(s, mark) {
        Some(i) => s.skip(i + mark.len()),
        None => Seq::empty(),
    }
}

/// Both sides of the first mark; all of the text and nothing where there is none.
pub fn split_or_all<'a>(s: &'a str, mark: &str) -> (r: (&'a str, &'a str))
    ensures
        r.0@ == before_mark(s@, mark@),
        r.1@ == after_mark(s@, mark@),
        r.0@.len() <= s@.len(),
        r.1@.len() <= s@.len(),
{
    proof {
        lemma_first_place(s@, mark@);
    }
    match split_once(s, mark) {
        Some((a, b)) => (a, b),
        None => {
            let n: usize = s.unicode_len();
            let e = s.substring_char(n, n);
            assert(e@ =~= Seq::empty());
            (s, e)
        },
    }
}

/// The text without the prefix, or the text itself.
pub open spec fn without_prefix(s: Seq<char>, p: Seq<char>) -> Seq<char> {
    if has_prefix(s, p) {
        s.skip(p.len() as int)
    } else {
        s
    }
}

pub fn drop_prefix<'a>(s: &'a str, p: &str) -> (r: &'a str)
    ensures
        r@ == without_prefix(s@, p@),
{
    match strip_prefix(s, p) {
        Some(rest) => rest,
        None => s,
    }
}

/// The piece of a split text at a place, where there is one.
pub open spec fn piece_at(s: Seq<char>, mark: Seq<char>, i: int) -> Option<Seq<char>> {
    if 0 <= i < pieces(s, mark).len() {
        Some(pieces(s, mark)[i])
    } else {
        None
    }
}

/// The number that a text writes, or a default.
pub open spec fn number_or(s: Seq<char>, default: i32) -> i32 {
    match int_value(s) {
        Some(n) => n as i32,
        None => default,
    }
}

pub fn parse_or(s: &str, default: i32) -> (r: i32)
    ensures
        r == number_or(s@, default),
{
    match parse_i32(s) {
        Some(n) => n,
        None => default,
    }
}

/// At most `n` pieces of a text; the last one holds what is left.
pub open spec fn pieces_up_to(s: Seq<char>, mark: Seq<char>, n: nat) -> Seq<Seq<char>>
    decreases n,
{
    if n <= 1 || !has_part(s, mark) {
        seq![s]
    } else {
        seq![before_mark(s, mark)] + pieces_up_to(after_mark(s, mark), mark, (n - 1) as nat)
    }
}

/// Splits a text at the first occurrences of a mark, into at most `n` pieces.
pub fn split_up_to<'a>(s: &'a str, mark: &str, n: usize) -> (r: Vec<&'a str>)
    ensures
        views(r@) == pieces_up_to(s@, mark@, n as nat),
        r@.len() > 0,
{
    let mut out: Vec<&'a str> = Vec::new();
    let mut rest: &'a str = s;
    let mut left: usize = n;
    assert(views(out@) + pieces_up_to(rest@, mark@, n as nat) =~= pieces_up_to(
        s@,
        mark@,
        n as nat,
    ));
    while left > 1
        invariant
            views(out@) + pieces_up_to(rest@, mark@, left as nat) == pieces_up_to(
                s@,
                mark@,
                n as nat,
            ),
        decreases left,
    {
        match split_once(rest, mark) {
            Some((a, b)) => {
                proof {
                    let shown = views(out@);
                    assert(views(out@.push(a)) =~= shown.push(a@));
                    assert(shown.push(a@) + pieces_up_to(b@, mark@, (left - 1) as nat) =~= shown + (
                    seq![a@] + pieces_up_to(b@, mark@, (left - 1) as nat)));
                }
                out.push(a);
                rest = b;
                left = left - 1;
            },
            None => {
                left = 1;
            },
        }
    }
    assert(views(out@.push(rest)) =~= views(out@).push(rest@));
    assert(views(out@).push(rest@) =~= views(out@) + seq![rest@]);
    out.push(rest);
    out
}

/// The piece at a place, or a default.
pub open spec fn piece_or(parts: Seq<Seq<char>>, i: int, default: Seq<char>) -> Seq<char> {
    if 0 <= i < parts.len() {
        parts[i]
    } else {
        default
    }
}

pub fn piece_at_or<'a>(parts: &Vec<&'a str>, i: usize, default: &'a str) -> (r: &'a str)
    ensures
        r@ == piece_or(views(parts@), i as int, default@),
{
    if i < parts.len() {
        assert(views(parts@)[i as int] == parts@[i as int]@);
        parts[i]
    } else {
        default
    }
}

/// Appends a text.
pub fn push_text(s: &mut String, t: &str)
    ensures
        final(s)@ == old(s)@ + t@,
{
    let n: usize = t.unicode_len();
    let ghost start = s@;
    let mut i: usize = 0;
    assert(start + t@.take(0) =~= start);
    while i < n
        invariant
            n == t@.len(),
            i <= n,
            s@ == start + t@.take(i as int),
        decreases n - i,
    {
        let c: char = t.get_char(i);
        assert((start + t@.take(i as int)).push(c) =~= start + t@.take(i + 1));
        push_char(s, c);
        i = i + 1;
    }
    assert(t@.take(i as int) =~= t@);
}

/// A text with every occurrence of a part replaced.
pub open spec fn text_replaced(s: Seq<char>, from: Seq<char>, to: Seq<char>) -> Seq<char> {
    joined(pieces(s, from), to)
}

/// Replaces every occurrence of a part that is not empty.
pub fn replace_text(s: &str, from: &str, to: &str) -> (r: String)
    requires
        from@.len() > 0,
    ensures
        r@ == text_replaced(s@, from@, to@),
{
    let parts = split(s, from);
    let mut owned: Vec<String> = Vec::new();
    let mut i: usize = 0;
    while i < parts.len()
        invariant
            i <= parts@.len(),
            owned@.len() == i,
            forall|k: int| 0 <= k < i ==> (#[trigger] owned@[k])@ == parts@[k]@,
        decreases parts@.len() - i,
    {
        owned.push(parts[i].to_string());
        i = i + 1;
    }
    assert(string_views(owned@) =~= views(parts@));
    join(&owned, to)
}

// ---- numbers as text ----

/// The character of a digit.
pub open spec fn digit_char(d: int) -> char {
    if d == 0 {
        '0'
    } else if d == 1 {
        '1'
    } else if d == 2 {
        '2'
    } else if d == 3 {
        '3'
    } else if d == 4 {
        '4'
    } else if d == 5 {
        '5'
    } else if d == 6 {
        '6'
    } else if d == 7 {
        '7'
    } else if d == 8 {
        '8'
    } else {
        '9'
    }
}

/// The digits of a number.
pub open spec fn digits_text(n: nat) -> Seq<char>
    decreases n,
{
    if n < 10 {
        seq![digit_char(n as int)]
    } else {
        digits_text(n / 10).push(digit_char((n % 10) as int))
    }
}

/// A number as text.
pub open spec fn number_text(n: int) -> Seq<char> {
    if n < 0 {
        seq!['-'] + digits_text((-n) as nat)
    } else {
        digits_text(n as nat)
    }
}

fn write_digit(d: u64) -> (r: char)
    requires
        d < 10,
    ensures
        r == digit_char(d as int),
{
    if d == 0 {
        '0'
    } else if d == 1 {
        '1'
    } else if d == 2 {
        '2'
    } else if d == 3 {
        '3'
    } else if d == 4 {
        '4'
    } else if d == 5 {
        '5'
    } else if d == 6 {
        '6'
    } else if d == 7 {
        '7'
    } else if d == 8 {
        '8'
    } else {
        '9'
    }
}

fn push_digits(s: &mut String, n: u64)
    ensures
        final(s)@ == old(s)@ + digits_text(n as nat),
    decreases n,
{
    let ghost start = s@;
    if n < 10 {
        push_char(s, write_digit(n));
        assert(s@ =~= start + digits_text(n as nat));
    } else {
        push_digits(s, n / 10);
        push_char(s, write_digit(n % 10));
        assert(s@ =~= start + digits_text(n as nat));
    }
}

/// Writes a number.
pub fn write_number(n: i64) -> (r: String)
    requires
        n > i64::MIN,
    ensures
        r@ == number_text(n as int),
{
    let mut out = "".to_string();
    proof {
        reveal_strlit("");
    }
    if n < 0 {
        push_char(&mut out, '-');
        push_digits(&mut out, (0 - n) as u64);
        assert(out@ =~= number_text(n as int));
    } else {
        push_digits(&mut out, n as u64);
        assert(out@ =~= number_text(n as int));
    }
    out
}

/// Writes a count.
pub fn write_count(n: usize) -> (r: String)
    ensures
        r@ == number_text(n as int),
{
    let mut out = "".to_string();
    proof {
        reveal_strlit("");
    }
    push_digits(&mut out, n as u64);
    assert(out@ =~= number_text(n as int));
    out
}

proof fn lemma_digits_text(n: nat)
    ensures
        digits_text(n).len() > 0,
        all_digits(digits_text(n)),
        digits_value(digits_text(n)) == n,
    decreases n,
{
    let s = digits_text(n);
    if n < 10 {
        assert(s.drop_last() =~= Seq::<char>::empty());
        assert(digits_value(s.drop_last()) == 0);
    } else {
        lemma_digits_text(n / 10);
        assert(s.drop_last() =~= digits_text(n / 10));
        assert forall|k: int| 0 <= k < s.len() implies is_digit(#[trigger] s[k]) by {
            if k < s.len() - 1 {
                assert(s[k] == digits_text(n / 10)[k]);
            }
        }
    }
}

/// A number that is written is read again.
pub proof fn law_number_is_read(n: i32)
    ensures
        int_value(number_text(n as int)) == Some(n as int),
{
    let s = number_text(n as int);
    if n < 0 {
        lemma_digits_text((-n) as nat);
        assert(s[0] == '-');
        assert(s.skip(1) =~= digits_text((-n) as nat));
    } else {
        lemma_digits_text(n as nat);
        assert(is_digit(s[0]));
    }
}

// ---- white space ----

/// White space is not cut off behind a text that starts with something else.
pub proof fn lemma_end_stays(c: char, x: Seq<char>)
    requires
        !is_white(c),
    ensures
        trim_end(seq![c] + x) == seq![c] + trim_end(x),
        trim_start(seq![c] + x) == seq![c] + x,
    decreases x.len(),
{
    let s = seq![c] + x;
    assert(s[0] == c);
    if x.len() == 0 {
        assert(s =~= seq![c]);
        assert(seq![c] + trim_end(x) =~= s);
    } else {
        assert(s.last() == x.last());
        if is_white(x.last()) {
            lemma_end_stays(c, x.drop_last());
            assert(s.drop_last() =~= seq![c] + x.drop_last());
        }
    }
}

proof fn lemma_white_end(y: Seq<char>, w: char)
    requires
        is_white(w),
    ensures
        trimmed(y.push(w)) == trimmed(y),
    decreases y.len(),
{
    let x = y.push(w);
    if y.len() == 0 {
        assert(x.skip(1) =~= y);
        assert(x[0] == w);
    } else if is_white(y[0]) {
        assert(x[0] == y[0]);
        assert(x.skip(1) =~= y.skip(1).push(w));
        lemma_white_end(y.skip(1), w);
    } else {
        assert(x[0] == y[0]);
        assert(x.drop_last() =~= y);
    }
}

/// Cutting off white space behind a text first changes nothing.
pub proof fn lemma_trimmed_end(x: Seq<char>)
    ensures
        trimmed(trim_end(x)) == trimmed(x),
    decreases x.len(),
{
    if x.len() > 0 && is_white(x.last()) {
        lemma_trimmed_end(x.drop_last());
        assert(x =~= x.drop_last().push(x.last()));
        lemma_white_end(x.drop_last(), x.last());
    }
}

pub proof fn lemma_trim_end_len(x: Seq<char>)
    ensures
        trim_end(x).len() <= x.len(),
    decreases x.len(),
{
    if x.len() > 0 && is_white(x.last()) {
        lemma_trim_end_len(x.drop_last());
    }
}

pub proof fn lemma_trim_start_len(x: Seq<char>)
    ensures
        trim_start(x).len() <= x.len(),
    decreases x.len(),
{
    if x.len() > 0 && is_white(x[0]) {
        lemma_trim_start_len(x.skip(1));
    }
}

/// A text without surrounding white space has none at its end.
pub proof fn lemma_trimmed_stays(x: Seq<char>)
    requires
        trimmed(x) == x,
    ensures
        trim_end(x) == x,
{
    if x.len() > 0 && is_white(x[0]) {
        lemma_trim_start_len(x.skip(1));
        lemma_trim_end_len(trim_start(x));
    }
}

/// The first mark in a text that is put together with one lies where it was put.
pub proof fn lemma_mark_between(a: Seq<char>, mark: char, b: Seq<char>)
    requires
        !a.contains(mark),
    ensures
        has_part(a + seq![mark] + b, seq![mark]),
        before_mark(a + seq![mark] + b, seq![mark]) == a,
        after_mark(a + seq![mark] + b, seq![mark]) == b,
{
    let s = a + seq![mark] + b;
    let m = seq![mark];
    let n = a.len() as int;
    assert(s.subrange(n, n + 1) =~= m);
    assert(occurs_at(s, m, n));
    lemma_first_place(s, m);
    lemma_find_from(s, m, 0);
    let i = first_place(s, m)->0;
    if i < n {
        assert(s.subrange(i, i + 1)[0] == mark);
        assert(a[i] == mark);
    }
    assert(i == n);
    assert(s.take(n) =~= a);
    assert(s.skip(n + 1) =~= b);
}

/// A text without a mark is all before it.
pub proof fn lemma_no_mark(a: Seq<char>, mark: char)
    requires
        !a.contains(mark),
    ensures
        before_mark(a, seq![mark]) == a,
        after_mark(a, seq![mark]) == Seq::<char>::empty(),
{
    let m = seq![mark];
    lemma_first_place(a, m);
    if let Some(i) = first_place(a, m) {
        assert(a.subrange(i, i + 1)[0] == mark);
        assert(a[i] == mark);
    }
}

/// The first place of a mark of one character.
proof fn lemma_first_mark(s: Seq<char>, mark: char, i: int)
    requires
        0 <= i < s.len(),
        s[i] == mark,
        forall|k: int| 0 <= k < i ==> s[k] != mark,
    ensures
        first_place(s, seq![mark]) == Some(i),
{
    let m = seq![mark];
    lemma_first_place(s, m);
    lemma_find_from(s, m, 0);
    assert(s.subrange(i, i + 1) =~= m);
    assert(occurs_at(s, m, i));
    let k = first_place(s, m)->0;
    assert(s.subrange(k, k + 1)[0] == mark);
    assert(s[k] == mark);
}

/// The pieces of two texts that are joined by a mark are those of the one and of the other.
pub proof fn lemma_pieces_joined(a: Seq<char>, mark: char, b: Seq<char>)
    ensures
        pieces(a + seq![mark] + b, seq![mark]) == pieces(a, seq![mark]) + pieces(b, seq![mark]),
    decreases a.len(),
{
    let m = seq![mark];
    let s = a + m + b;
    if a.contains(mark) {
        lemma_first_place(a, m);
        let j = choose|j: int| 0 <= j < a.len() && a[j] == mark;
        assert(a.subrange(j, j + 1) =~= m);
        assert(occurs_at(a, m, j));
        lemma_find_from(a, m, 0);
        let i = first_place(a, m)->0;
        assert(a.subrange(i, i + 1)[0] == mark);
        assert forall|k: int| 0 <= k < i implies s[k] != mark by {
            if a[k] == mark {
                assert(a.subrange(k, k + 1) =~= m);
                assert(occurs_at(a, m, k));
            }
        }
        lemma_first_mark(s, mark, i);
        lemma_pieces_joined(a.skip(i + 1), mark, b);
        assert(s.take(i) =~= a.take(i));
        assert(s.skip(i + 1) =~= a.skip(i + 1) + m + b);
        assert(pieces(s, m) =~= pieces(a, m) + pieces(b, m));
    } else {
        assert forall|k: int| 0 <= k < a.len() implies s[k] != mark by {
            assert(a[k] != mark);
        }
        lemma_first_mark(s, mark, a.len() as int);
        lemma_first_place(a, m);
        if let Some(i) = first_place(a, m) {
            assert(a.subrange(i, i + 1)[0] == mark);
            assert(a[i] == mark);
        }
        assert(s.take(a.len() as int) =~= a);
        assert(s.skip((a.len() + 1) as int) =~= b);
        assert(pieces(s, m) =~= pieces(a, m) + pieces(b, m));
    }
}

} // verus!
