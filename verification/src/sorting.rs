//! Sorting by a relation that says which element goes first.

use vstd::prelude::*;

verus! {

/// A list with an element put in behind the last that it does not go before.
pub open spec fn put_in<T>(s: Seq<T>, x: T, less: spec_fn(T, T) -> bool) -> Seq<T>
    decreases s.len(),
{
    if s.len() == 0 {
        seq![x]
    } else if less(x, s.last()) {
        put_in(s.drop_last(), x, less).push(s.last())
    } else {
        s.push(x)
    }
}

/// A list in order; equal elements stay in the order they had.
pub open spec fn sorted_by<T>(s: Seq<T>, less: spec_fn(T, T) -> bool) -> Seq<T>
    decreases s.len(),
{
    if s.len() == 0 {
        Seq::empty()
    } else {
        put_in(sorted_by(s.drop_last(), less), s.last(), less)
    }
}

/// Whether no element goes before one that is ahead of it.
pub open spec fn is_sorted_by<T>(s: Seq<T>, less: spec_fn(T, T) -> bool) -> bool {
    forall|i: int, j: int| 0 <= i < j < s.len() ==> !less(#[trigger] s[j], #[trigger] s[i])
}

/// Whether a relation orders elements: what goes before another does not come after it, and a
/// third that is not ahead of the one is not ahead of what comes behind it.
pub open spec fn is_order<T>(less: spec_fn(T, T) -> bool) -> bool {
    &&& forall|a: T, b: T| #[trigger] less(a, b) ==> !less(b, a)
    &&& forall|a: T, b: T, c: T|
        !(#[trigger] less(b, a)) && !(#[trigger] less(c, b)) ==> !less(c, a)
}

pub(crate) proof fn lemma_put_in<T>(s: Seq<T>, x: T, less: spec_fn(T, T) -> bool)
    ensures
        put_in(s, x, less).to_multiset() == s.to_multiset().insert(x),
        put_in(s, x, less).len() == s.len() + 1,
        is_order(less) && is_sorted_by(s, less) ==> is_sorted_by(put_in(s, x, less), less),
    decreases s.len(),
{
    broadcast use vstd::seq_lib::group_to_multiset_ensures;

    let r = put_in(s, x, less);
    if s.len() == 0 {
        assert(seq![x] =~= s.push(x));
    } else if less(x, s.last()) {
        let short = s.drop_last();
        let front = put_in(short, x, less);
        lemma_put_in(short, x, less);
        assert(s =~= short.push(s.last()));
        assert(r =~= front.push(s.last()));
        assert(r.to_multiset() =~= s.to_multiset().insert(x));
        if is_order(less) && is_sorted_by(s, less) {
            assert(is_sorted_by(short, less)) by {
                assert forall|i: int, j: int| 0 <= i < j < short.len() implies !less(
                    #[trigger] short[j],
                    #[trigger] short[i],
                ) by {
                    assert(short[i] == s[i] && short[j] == s[j]);
                }
            }
            assert forall|i: int, j: int| 0 <= i < j < r.len() implies !less(
                #[trigger] r[j],
                #[trigger] r[i],
            ) by {
                if j == r.len() - 1 {
                    assert(front.contains(front[i]));
                    assert(front.to_multiset().contains(front[i]));
                    if front[i] != x {
                        assert(short.to_multiset().contains(front[i]));
                        assert(short.contains(front[i]));
                        let k = choose|k: int| 0 <= k < short.len() && short[k] == front[i];
                        assert(s[k] == r[i]);
                        assert(s[s.len() - 1] == r[j]);
                    }
                } else {
                    assert(front[i] == r[i] && front[j] == r[j]);
                }
            }
        }
    } else {
        assert(r == s.push(x));
        if is_order(less) && is_sorted_by(s, less) {
            assert forall|i: int, j: int| 0 <= i < j < r.len() implies !less(
                #[trigger] r[j],
                #[trigger] r[i],
            ) by {
                if j == r.len() - 1 {
                    if i < s.len() - 1 {
                        assert(!less(s[s.len() - 1], s[i]));
                    }
                } else {
                    assert(r[i] == s[i] && r[j] == s[j]);
                }
            }
        }
    }
}

/// Sorting keeps the elements, and by a relation that orders them they come in order.
pub proof fn law_sorting<T>(s: Seq<T>, less: spec_fn(T, T) -> bool)
    ensures
        sorted_by(s, less).to_multiset() == s.to_multiset(),
        sorted_by(s, less).len() == s.len(),
        is_order(less) ==> is_sorted_by(sorted_by(s, less), less),
    decreases s.len(),
{
    broadcast use vstd::seq_lib::group_to_multiset_ensures;

    if s.len() > 0 {
        law_sorting(s.drop_last(), less);
        lemma_put_in(sorted_by(s.drop_last(), less), s.last(), less);
        assert(s =~= s.drop_last().push(s.last()));
    }
}

/// A list that is in order stays as it is.
pub proof fn law_sorted_stays<T>(s: Seq<T>, less: spec_fn(T, T) -> bool)
    requires
        is_sorted_by(s, less),
    ensures
        sorted_by(s, less) == s,
    decreases s.len(),
{
    if s.len() > 0 {
        let short = s.drop_last();
        assert forall|i: int, j: int| 0 <= i < j < short.len() implies !less(
            #[trigger] short[j],
            #[trigger] short[i],
        ) by {
            assert(short[i] == s[i] && short[j] == s[j]);
        }
        law_sorted_stays(short, less);
        if short.len() > 0 {
            assert(!less(s[s.len() - 1], s[s.len() - 2]));
        }
        assert(s =~= short.push(s.last()));
    } else {
        assert(s =~= Seq::empty());
    }
}

/// A way to order elements.
pub trait Order<T> {
    spec fn before(&self, a: T, b: T) -> bool;

    /// Says whether one element goes before another.
    fn goes_before(&self, a: T, b: T) -> (r: bool)
        ensures
            r == self.before(a, b),
    ;
}

/// The relation of an order.
pub open spec fn relation<T, O: Order<T>>(order: O) -> spec_fn(T, T) -> bool {
    |a: T, b: T| order.before(a, b)
}

/// Sorts a list.
pub fn sort_by<T: Copy, O: Order<T>>(v: &Vec<T>, order: &O) -> (r: Vec<T>)
    ensures
        r@ == sorted_by(v@, relation(*order)),
{
    let ghost rel = relation(*order);
    let ghost all = v@;
    let mut out: Vec<T> = Vec::new();
    let mut i: usize = 0;
    while i < v.len()
        invariant
            i <= all.len(),
            all == v@,
            out@.len() == i,
            out@ == sorted_by(all.take(i as int), rel),
            rel == relation(*order),
        decreases all.len() - i,
    {
        assert(all.take(i + 1).drop_last() =~= all.take(i as int));
        let x = v[i];
        let ghost s = out@;
        let mut k: usize = out.len();
        let mut go = true;
        assert(s.take(k as int) =~= s);
        assert(put_in(s.take(k as int), x, rel) + s.skip(k as int) =~= put_in(s, x, rel));
        while go && k > 0
            invariant
                k <= s.len(),
                out@ == s,
                put_in(s, x, rel) == put_in(s.take(k as int), x, rel) + s.skip(k as int),
                !go ==> k > 0 && !rel(x, s[k - 1]),
                rel == relation(*order),
            decreases k, (if go { 1int } else { 0int }),
        {
            if order.goes_before(x, out[k - 1]) {
                let ghost part = s.take(k as int);
                assert(part.drop_last() =~= s.take(k - 1));
                assert(part.last() == s[k - 1]);
                assert(put_in(part.drop_last(), x, rel).push(part.last()) + s.skip(k as int)
                    =~= put_in(part.drop_last(), x, rel) + s.skip(k - 1));
                k = k - 1;
            } else {
                go = false;
            }
        }
        proof {
            let part = s.take(k as int);
            if k > 0 {
                assert(part.last() == s[k - 1]);
            }
            assert(put_in(part, x, rel) =~= part.push(x));
            assert(s.insert(k as int, x) =~= part.push(x) + s.skip(k as int));
        }
        out.insert(k, x);
        i = i + 1;
    }
    assert(all.take(i as int) =~= all);
    out
}

// ---- runs and binary insertion ----

/// How far a list falls from a place on: each element compares as less than the one before it.
pub open spec fn falling_end<T>(s: Seq<T>, from: int, sign: spec_fn(T, T) -> int) -> int
    decreases s.len() - from,
{
    if 0 < from < s.len() && sign(s[from], s[from - 1]) < 0 {
        falling_end(s, from + 1, sign)
    } else {
        from
    }
}

/// How far a list rises from a place on.
pub open spec fn rising_end<T>(s: Seq<T>, from: int, sign: spec_fn(T, T) -> int) -> int
    decreases s.len() - from,
{
    if 0 < from < s.len() && sign(s[from], s[from - 1]) >= 0 {
        rising_end(s, from + 1, sign)
    } else {
        from
    }
}

/// The place that halving finds for an element.
pub open spec fn halved<T>(
    s: Seq<T>,
    x: T,
    left: int,
    right: int,
    sign: spec_fn(T, T) -> int,
) -> int
    decreases right - left,
{
    if 0 <= left < right {
        let mid = (left + right) / 2;
        if sign(x, s[mid]) < 0 {
            halved(s, x, left, mid, sign)
        } else {
            halved(s, x, mid + 1, right, sign)
        }
    } else {
        left
    }
}

/// A list once the elements from a place on are put in.
pub open spec fn inserted_from<T>(s: Seq<T>, start: int, sign: spec_fn(T, T) -> int) -> Seq<T>
    decreases s.len() - start,
{
    if 0 <= start < s.len() {
        let at = halved(s, s[start], 0, start, sign);
        inserted_from(moved_to(s, start, at), start + 1, sign)
    } else {
        s
    }
}

/// A list with the element of one place at an earlier one.
pub open spec fn moved_to<T>(s: Seq<T>, from: int, to: int) -> Seq<T> {
    Seq::new(
        s.len(),
        |i: int|
            if i == to {
                s[from]
            } else if to < i && i <= from {
                s[i - 1]
            } else {
                s[i]
            },
    )
}

/// A list with its first elements the other way round.
pub open spec fn turned<T>(s: Seq<T>, n: int) -> Seq<T> {
    Seq::new(
        s.len(),
        |i: int|
            if i < n {
                s[n - 1 - i]
            } else {
                s[i]
            },
    )
}

/// The relation that signs give: a negative one goes first.
pub open spec fn goes_first<T>(sign: spec_fn(T, T) -> int) -> spec_fn(T, T) -> bool {
    |a: T, b: T| sign(a, b) < 0
}

/// A list sorted by comparing: a first run, turned round where it falls, then the other elements
/// put in by halving. A long list is sorted element by element.
pub open spec fn run_sorted<T>(s: Seq<T>, sign: spec_fn(T, T) -> int) -> Seq<T> {
    if s.len() < 2 {
        s
    } else if s.len() >= 32 {
        sorted_by(s, goes_first(sign))
    } else if sign(s[1], s[0]) < 0 {
        let n = falling_end(s, 2, sign);
        inserted_from(turned(s, n), n, sign)
    } else {
        inserted_from(s, rising_end(s, 2, sign), sign)
    }
}

proof fn lemma_ends<T>(s: Seq<T>, from: int, sign: spec_fn(T, T) -> int)
    requires
        0 < from <= s.len(),
    ensures
        from <= falling_end(s, from, sign) <= s.len(),
        from <= rising_end(s, from, sign) <= s.len(),
    decreases s.len() - from,
{
    if from < s.len() {
        lemma_ends(s, from + 1, sign);
    }
}

proof fn lemma_halved<T>(s: Seq<T>, x: T, left: int, right: int, sign: spec_fn(T, T) -> int)
    requires
        0 <= left <= right,
    ensures
        left <= halved(s, x, left, right, sign) <= right,
    decreases right - left,
{
    if left < right {
        let mid = (left + right) / 2;
        lemma_halved(s, x, left, mid, sign);
        lemma_halved(s, x, mid + 1, right, sign);
    }
}

proof fn lemma_moved_to<T>(s: Seq<T>, from: int, to: int)
    requires
        0 <= to <= from < s.len(),
    ensures
        moved_to(s, from, to) == s.remove(from).insert(to, s[from]),
        moved_to(s, from, to).to_multiset() == s.to_multiset(),
{
    broadcast use vstd::seq_lib::group_to_multiset_ensures;

    let rest = s.remove(from);
    assert(moved_to(s, from, to) =~= rest.insert(to, s[from]));
    assert(s.contains(s[from]));
    assert(s.to_multiset() =~= s.to_multiset().remove(s[from]).insert(s[from]));
}

proof fn lemma_turned<T>(s: Seq<T>, n: int)
    requires
        0 <= n <= s.len(),
    ensures
        turned(s, n).to_multiset() == s.to_multiset(),
    decreases n,
{
    if n == 0 {
        assert(turned(s, 0) =~= s);
    } else {
        lemma_turned(s, n - 1);
        lemma_moved_to(turned(s, n - 1), n - 1, 0);
        assert(turned(s, n) =~= moved_to(turned(s, n - 1), n - 1, 0));
    }
}

proof fn lemma_inserted<T>(s: Seq<T>, start: int, sign: spec_fn(T, T) -> int)
    requires
        0 <= start,
    ensures
        inserted_from(s, start, sign).to_multiset() == s.to_multiset(),
    decreases s.len() - start,
{
    if start < s.len() {
        let at = halved(s, s[start], 0, start, sign);
        lemma_halved(s, s[start], 0, start, sign);
        lemma_moved_to(s, start, at);
        lemma_inserted(moved_to(s, start, at), start + 1, sign);
    }
}

/// Whether an element goes before none ahead of a place and before all from there on.
spec fn belongs_at<T>(s: Seq<T>, x: T, n: int, at: int, less: spec_fn(T, T) -> bool) -> bool {
    &&& forall|k: int| 0 <= k < at ==> !less(x, #[trigger] s[k])
    &&& forall|k: int| at <= k < n ==> less(x, #[trigger] s[k])
}

proof fn lemma_halved_belongs<T>(
    s: Seq<T>,
    x: T,
    n: int,
    left: int,
    right: int,
    sign: spec_fn(T, T) -> int,
)
    requires
        0 <= left <= right <= n <= s.len(),
        is_order(goes_first(sign)),
        is_sorted_by(s.take(n), goes_first(sign)),
        forall|k: int| 0 <= k < left ==> !goes_first(sign)(x, #[trigger] s[k]),
        forall|k: int| right <= k < n ==> goes_first(sign)(x, #[trigger] s[k]),
    ensures
        belongs_at(s, x, n, halved(s, x, left, right, sign), goes_first(sign)),
    decreases right - left,
{
    let less = goes_first(sign);
    if left < right {
        let mid = (left + right) / 2;
        let p = s.take(n);
        assert(p[mid] == s[mid]);
        if sign(x, s[mid]) < 0 {
            assert(less(x, s[mid]));
            assert forall|k: int| mid <= k < n implies less(x, #[trigger] s[k]) by {
                if k > mid {
                    assert(!less(p[k], p[mid]));
                    if !less(x, s[k]) {
                        assert(!less(x, s[mid]));
                    }
                }
            }
            lemma_halved_belongs(s, x, n, left, mid, sign);
        } else {
            assert(!less(x, s[mid]));
            assert forall|k: int| 0 <= k < mid + 1 implies !less(x, #[trigger] s[k]) by {
                if k < mid {
                    assert(!less(p[mid], p[k]));
                }
            }
            lemma_halved_belongs(s, x, n, mid + 1, right, sign);
        }
    }
}

proof fn lemma_put_in_at<T>(s: Seq<T>, x: T, at: int, less: spec_fn(T, T) -> bool)
    requires
        0 <= at <= s.len(),
        belongs_at(s, x, s.len() as int, at, less),
    ensures
        put_in(s, x, less) == s.insert(at, x),
    decreases s.len(),
{
    if s.len() == 0 {
        assert(seq![x] =~= s.insert(0, x));
    } else if at < s.len() {
        let short = s.drop_last();
        assert(less(x, s[s.len() - 1]));
        assert(belongs_at(short, x, short.len() as int, at, less)) by {
            assert forall|k: int| 0 <= k < at implies !less(x, #[trigger] short[k]) by {
                assert(short[k] == s[k]);
            }
            assert forall|k: int| at <= k < short.len() implies less(x, #[trigger] short[k]) by {
                assert(short[k] == s[k]);
            }
        }
        lemma_put_in_at(short, x, at, less);
        assert(short.insert(at, x).push(s.last()) =~= s.insert(at, x));
    } else {
        assert(!less(x, s[s.len() - 1]));
        assert(s.push(x) =~= s.insert(at, x));
    }
}

proof fn lemma_inserted_sorts<T>(
    first: Seq<T>,
    s: Seq<T>,
    start: int,
    sign: spec_fn(T, T) -> int,
)
    requires
        0 <= start <= s.len(),
        s.len() == first.len(),
        is_order(goes_first(sign)),
        s.take(start) == sorted_by(first.take(start), goes_first(sign)),
        s.skip(start) == first.skip(start),
    ensures
        inserted_from(s, start, sign) == sorted_by(first, goes_first(sign)),
    decreases s.len() - start,
{
    let less = goes_first(sign);
    if start < s.len() {
        let x = s[start];
        assert(s.skip(start)[0] == s[start]);
        assert(first.skip(start)[0] == first[start]);
        law_sorting(first.take(start), less);
        lemma_halved_belongs(s, x, start, 0, start, sign);
        lemma_halved(s, x, 0, start, sign);
        let at = halved(s, x, 0, start, sign);
        let p = s.take(start);
        assert(belongs_at(p, x, p.len() as int, at, less)) by {
            assert forall|k: int| 0 <= k < at implies !less(x, #[trigger] p[k]) by {
                assert(p[k] == s[k]);
            }
            assert forall|k: int| at <= k < p.len() implies less(x, #[trigger] p[k]) by {
                assert(p[k] == s[k]);
            }
        }
        lemma_put_in_at(p, x, at, less);
        let next = moved_to(s, start, at);
        assert(next.take(start + 1) =~= p.insert(at, x));
        assert(first.take(start + 1).drop_last() =~= first.take(start));
        let rest = next.skip(start + 1);
        assert forall|k: int| 0 <= k < rest.len() implies #[trigger] rest[k] == first.skip(
            start + 1,
        )[k] by {
            assert(s.skip(start)[k + 1] == first.skip(start)[k + 1]);
        }
        assert(rest =~= first.skip(start + 1));
        lemma_inserted_sorts(first, next, start + 1, sign);
    } else {
        assert(s.take(start) =~= s);
        assert(first.take(start) =~= first);
    }
}

proof fn lemma_rising_is_sorted<T>(s: Seq<T>, from: int, sign: spec_fn(T, T) -> int)
    requires
        0 < from <= s.len(),
        is_order(goes_first(sign)),
        is_sorted_by(s.take(from), goes_first(sign)),
    ensures
        is_sorted_by(s.take(rising_end(s, from, sign)), goes_first(sign)),
    decreases s.len() - from,
{
    let less = goes_first(sign);
    if from < s.len() && sign(s[from], s[from - 1]) >= 0 {
        let p = s.take(from);
        let q = s.take(from + 1);
        assert(!less(s[from], s[from - 1]));
        assert forall|i: int, j: int| 0 <= i < j < q.len() implies !less(
            #[trigger] q[j],
            #[trigger] q[i],
        ) by {
            if j < from {
                assert(p[i] == q[i] && p[j] == q[j]);
            } else if i < from - 1 {
                assert(!less(p[from - 1], p[i]));
            }
        }
        lemma_rising_is_sorted(s, from + 1, sign);
    }
}

proof fn lemma_falling_is_turned<T>(s: Seq<T>, from: int, sign: spec_fn(T, T) -> int)
    requires
        0 < from <= s.len(),
        is_order(goes_first(sign)),
        sorted_by(s.take(from), goes_first(sign)) == turned(s.take(from), from),
        forall|k: int| 0 < k < from ==> sign(#[trigger] s[k], s[k - 1]) < 0,
    ensures
        ({
            let n = falling_end(s, from, sign);
            sorted_by(s.take(n), goes_first(sign)) == turned(s.take(n), n)
        }),
    decreases s.len() - from,
{
    let less = goes_first(sign);
    if from < s.len() && sign(s[from], s[from - 1]) < 0 {
        let x = s[from];
        let p = turned(s.take(from), from);
        assert forall|k: int| 0 <= k < p.len() implies less(x, #[trigger] p[k]) by {
            lemma_below(s, from - 1 - k, from, sign);
        }
        lemma_put_in_at(p, x, 0, less);
        assert(s.take(from + 1).drop_last() =~= s.take(from));
        assert(p.insert(0, x) =~= turned(s.take(from + 1), from + 1));
        lemma_falling_is_turned(s, from + 1, sign);
    }
}

proof fn lemma_below<T>(s: Seq<T>, i: int, j: int, sign: spec_fn(T, T) -> int)
    requires
        0 <= i < j < s.len(),
        is_order(goes_first(sign)),
        forall|k: int| 0 < k < j ==> sign(#[trigger] s[k], s[k - 1]) < 0,
        sign(s[j], s[j - 1]) < 0,
    ensures
        goes_first(sign)(s[j], s[i]),
    decreases j - i,
{
    let less = goes_first(sign);
    assert(less(s[j], s[j - 1]));
    if i < j - 1 {
        lemma_below(s, i, j - 1, sign);
        assert(less(s[j - 1], s[i]));
        assert(!less(s[i], s[j - 1]));
        if !less(s[j], s[i]) {
            assert(!less(s[j], s[j - 1]));
        }
    }
}

/// Sorting by comparing keeps the elements. By signs that order them it gives the one list in order
/// in which equal elements stay in the order they had.
pub proof fn law_runs<T>(s: Seq<T>, sign: spec_fn(T, T) -> int)
    ensures
        run_sorted(s, sign).to_multiset() == s.to_multiset(),
        run_sorted(s, sign).len() == s.len(),
        is_order(goes_first(sign)) ==> run_sorted(s, sign) == sorted_by(s, goes_first(sign)),
        is_order(goes_first(sign)) ==> is_sorted_by(run_sorted(s, sign), goes_first(sign)),
{
    broadcast use vstd::seq_lib::group_to_multiset_ensures;

    let less = goes_first(sign);
    law_sorting(s, less);
    if s.len() < 2 {
        law_sorted_stays(s, less);
    } else if s.len() >= 32 {
    } else if sign(s[1], s[0]) < 0 {
        let n = falling_end(s, 2, sign);
        lemma_ends(s, 2, sign);
        let t = turned(s, n);
        lemma_turned(s, n);
        lemma_inserted(t, n, sign);
        if is_order(less) {
            let two = s.take(2);
            let one = two.drop_last();
            assert(one.drop_last() =~= Seq::<T>::empty());
            assert(sorted_by(one.drop_last(), less) =~= Seq::<T>::empty());
            assert(put_in(Seq::<T>::empty(), s[0], less) =~= seq![s[0]]);
            assert(sorted_by(one, less) =~= seq![s[0]]);
            assert(less(s[1], s[0]));
            lemma_put_in_at(seq![s[0]], s[1], 0, less);
            assert(sorted_by(two, less) =~= turned(two, 2));
            lemma_falling_is_turned(s, 2, sign);
            assert(t.take(n) =~= turned(s.take(n), n));
            assert(t.skip(n) =~= s.skip(n));
            lemma_inserted_sorts(s, t, n, sign);
        }
    } else {
        let n = rising_end(s, 2, sign);
        lemma_ends(s, 2, sign);
        lemma_inserted(s, n, sign);
        if is_order(less) {
            let two = s.take(2);
            assert(is_sorted_by(two, less)) by {
                assert(!less(s[1], s[0]));
            }
            lemma_rising_is_sorted(s, 2, sign);
            law_sorted_stays(s.take(n), less);
            lemma_inserted_sorts(s, s, n, sign);
        }
    }
    s.to_multiset_ensures();
    run_sorted(s, sign).to_multiset_ensures();
    assert(run_sorted(s, sign).to_multiset().len() == s.to_multiset().len());
}

/// What a sorted list holds was in the list.
pub proof fn lemma_runs_hold<T>(s: Seq<T>, sign: spec_fn(T, T) -> int)
    ensures
        forall|i: int| 0 <= i < s.len() ==> s.contains(#[trigger] run_sorted(s, sign)[i]),
{
    let sorted = run_sorted(s, sign);
    law_runs(s, sign);
    assert forall|i: int| 0 <= i < s.len() implies s.contains(#[trigger] sorted[i]) by {
        s.to_multiset_ensures();
        sorted.to_multiset_ensures();
        assert(sorted.contains(sorted[i]));
        assert(sorted.to_multiset().count(sorted[i]) > 0);
    }
}

/// A way to compare elements: negative, zero or positive.
pub trait Comparison<T> {
    spec fn sign(&self, a: T, b: T) -> int;

    fn sign_of(&self, a: T, b: T) -> (r: i32)
        ensures
            r == self.sign(a, b),
    ;
}

/// The signs of a comparison.
pub open spec fn signs<T, C: Comparison<T>>(c: C) -> spec_fn(T, T) -> int {
    |a: T, b: T| c.sign(a, b)
}

/// The order that a comparison gives.
pub struct Compared<'a, C> {
    pub comparison: &'a C,
}

impl<'a, T, C: Comparison<T>> Order<T> for Compared<'a, C> {
    open spec fn before(&self, a: T, b: T) -> bool {
        self.comparison.sign(a, b) < 0
    }

    fn goes_before(&self, a: T, b: T) -> (r: bool) {
        self.comparison.sign_of(a, b) < 0
    }
}

/// Sorts a short list by comparing, with its first run kept and the rest put in by halving.
pub fn sort_runs<T: Copy, C: Comparison<T>>(v: &Vec<T>, comparison: &C) -> (r: Vec<T>)
    ensures
        r@ == run_sorted(v@, signs(*comparison)),
{
    let ghost rel = signs(*comparison);
    let n: usize = v.len();
    let mut list: Vec<T> = Vec::new();
    let mut c: usize = 0;
    while c < n
        invariant
            c <= n,
            n == v@.len(),
            list@ == v@.take(c as int),
        decreases n - c,
    {
        assert(v@.take(c + 1) =~= v@.take(c as int).push(v@[c as int]));
        list.push(v[c]);
        c = c + 1;
    }
    assert(v@.take(c as int) =~= v@);
    if n < 2 {
        return list;
    }
    if n >= 32 {
        let order = Compared { comparison };
        assert(relation::<T, Compared<'_, C>>(order) =~= goes_first(rel));
        return sort_by(v, &order);
    }
    let mut run: usize = 2;
    if comparison.sign_of(list[1], list[0]) < 0 {
        let mut go = true;
        while go && run < n
            invariant
                2 <= run <= n,
                n == list@.len(),
                list@ == v@,
                falling_end(v@, 2, rel) == falling_end(v@, run as int, rel),
                !go ==> falling_end(v@, 2, rel) == run,
                rel == signs(*comparison),
            decreases n - run, (if go { 1int } else { 0int }),
        {
            if comparison.sign_of(list[run], list[run - 1]) < 0 {
                run = run + 1;
            } else {
                go = false;
            }
        }
        let mut out: Vec<T> = Vec::new();
        let mut i: usize = 0;
        while i < n
            invariant
                i <= n,
                n == list@.len(),
                list@ == v@,
                2 <= run <= n,
                out@.len() == i,
                forall|k: int| 0 <= k < i ==> #[trigger] out@[k] == turned(v@, run as int)[k],
            decreases n - i,
        {
            if i < run {
                out.push(list[run - 1 - i]);
            } else {
                out.push(list[i]);
            }
            i = i + 1;
        }
        assert(out@ =~= turned(v@, run as int));
        list = out;
    } else {
        let mut go = true;
        while go && run < n
            invariant
                2 <= run <= n,
                n == list@.len(),
                list@ == v@,
                rising_end(v@, 2, rel) == rising_end(v@, run as int, rel),
                !go ==> rising_end(v@, 2, rel) == run,
                rel == signs(*comparison),
            decreases n - run, (if go { 1int } else { 0int }),
        {
            if comparison.sign_of(list[run], list[run - 1]) >= 0 {
                run = run + 1;
            } else {
                go = false;
            }
        }
    }
    let ghost begun = list@;
    assert(run_sorted(v@, rel) == inserted_from(begun, run as int, rel));
    let mut start: usize = run;
    while start < n
        invariant
            n == list@.len(),
            start <= n,
            n < 32,
            inserted_from(begun, run as int, rel) == inserted_from(list@, start as int, rel),
            rel == signs(*comparison),
        decreases n - start,
    {
        let x = list[start];
        let mut left: usize = 0;
        let mut right: usize = start;
        while left < right
            invariant
                left <= right <= start,
                start < n,
                n == list@.len(),
                n < 32,
                x == list@[start as int],
                halved(list@, x, 0, start as int, rel) == halved(
                    list@,
                    x,
                    left as int,
                    right as int,
                    rel,
                ),
                rel == signs(*comparison),
            decreases right - left,
        {
            let mid: usize = (left + right) / 2;
            if comparison.sign_of(x, list[mid]) < 0 {
                right = mid;
            } else {
                left = mid + 1;
            }
        }
        let ghost before = list@;
        list.remove(start);
        list.insert(left, x);
        assert(list@ =~= moved_to(before, start as int, left as int));
        start = start + 1;
    }
    list
}

} // verus!
