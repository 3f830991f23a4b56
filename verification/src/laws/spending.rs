//! What mana pays.

use vstd::prelude::*;
use crate::laws::amounts::is_plain;
use crate::mana::atoms::ManaCostShard;
use crate::mana::cost::{
    after_atoms, after_mana, by_priority, decreased, generic_shard, paid_shard, pay_priority,
    payable_among, shard_place, shards_of, unpaid_of, with_shards, ShardCount, Unpaid,
};
use crate::mana::pool::{spent_from, useful, ManaView};
use crate::mana::sources::ManaPaymentContext;
use crate::lists::texts_have;

verus! {

/// Whether an atom is of a color.
pub open spec fn is_color(atom: u16) -> bool {
    atom == 1 || atom == 2 || atom == 4 || atom == 8 || atom == 16
}

/// The symbol of a color.
pub open spec fn symbol_of(color: u16) -> ManaCostShard {
    ManaCostShard { mask: color }
}

pub proof fn lemma_color_bits()
    ensures
        forall|a: u16, b: u16| is_color(a) && is_plain(b) ==> (#[trigger] (a & b) != 0 <==> a == b),
        forall|a: u16|
            is_plain(a) ==> #[trigger] (a & 63) != 0 && a & 512 == 0 && a & 0 == 0 && a & 1024 == 0,
        forall|a: u16| is_color(a) ==> a & 32 == 0 && #[trigger] (a & 31) == a,
        32u16 & 31 == 0,
        64u16 & 63 == 0,
        64u16 & 32 == 0,
        64u16 & 512 == 0,
        64u16 & 31 == 0,
{
    assert forall|a: u16, b: u16| is_color(a) && is_plain(b) implies (#[trigger] (a & b) != 0
        <==> a == b) by {
        assert((a == 1 || a == 2 || a == 4 || a == 8 || a == 16) && (b == 1 || b == 2 || b == 4 || b
            == 8 || b == 16 || b == 32) ==> (a & b != 0 <==> a == b)) by (bit_vector);
    }
    assert forall|a: u16| is_plain(a) implies #[trigger] (a & 63) != 0 && a & 512 == 0 && a & 0 == 0
        && a & 1024 == 0 by {
        assert((a == 1 || a == 2 || a == 4 || a == 8 || a == 16 || a == 32) ==> a & 63 != 0 && a
            & 512 == 0 && a & 0 == 0 && a & 1024 == 0) by (bit_vector);
    }
    assert forall|a: u16| is_color(a) implies a & 32 == 0 && #[trigger] (a & 31) == a by {
        assert((a == 1 || a == 2 || a == 4 || a == 8 || a == 16) ==> a & 32 == 0 && a & 31 == a)
            by (bit_vector);
    }
    assert(32u16 & 31 == 0 && 64u16 & 63 == 0 && 64u16 & 32 == 0 && 64u16 & 512 == 0 && 64u16 & 31
        == 0) by (bit_vector);
}

/// Mana of a color pays a symbol of that color, and mana of another color or none does not.
pub proof fn law_color_pays_its_symbol(symbol: u16, mana: u16)
    requires
        is_color(symbol),
        is_plain(mana),
    ensures
        ({
            let u = unpaid_of(0, seq![symbol_of(symbol)]);
            &&& symbol == mana ==> after_mana(u, mana).left.len() == 0
            &&& symbol != mana ==> paid_shard(u, mana) is None && after_mana(u, mana) == u
        }),
{
    lemma_color_bits();
    assert(symbol & 63 != 0 && symbol & 512 == 0 && symbol & 0 == 0);
    assert(symbol & 32 == 0 && symbol & 31 == symbol);
    assert(symbol & mana != 0 <==> symbol == mana);
    let s = symbol_of(symbol);
    let one = seq![s];
    assert(one.drop_last() =~= Seq::<ManaCostShard>::empty());
    let left = seq![ShardCount { shard: s, count: 1 }];
    assert(with_shards(Seq::empty(), one.drop_last()) =~= Seq::<ShardCount>::empty());
    assert(with_shards(Seq::empty(), one) =~= left);
    let u = unpaid_of(0, one);
    assert(u.left =~= left);
    assert(shards_of(left) =~= one);
    assert(payable_among(one.drop_last(), mana) =~= Seq::<ManaCostShard>::empty());
    if symbol == mana {
        assert(payable_among(one, mana) =~= one);
        assert(by_priority(one.drop_last(), mana) is None);
        assert(by_priority(one, mana) == Some(s));
        assert(decreased(left, s, 1) =~= Seq::<ShardCount>::empty());
    } else {
        assert(payable_among(one, mana) =~= Seq::<ManaCostShard>::empty());
    }
}

proof fn lemma_generic_paid(n: i32, atom: u16)
    requires
        n > 0,
    ensures
        ({
            let left = seq![ShardCount { shard: generic_shard(), count: n }];
            let u = Unpaid { left, sunburst: 0, colored_x: 31 };
            forall|v: Unpaid| v.left == left ==> #[trigger] after_mana(v, atom).left == if n == 1 {
                Seq::<ShardCount>::empty()
            } else {
                seq![ShardCount { shard: generic_shard(), count: (n - 1) as i32 }]
            }
        }),
{
    lemma_color_bits();
    let g = generic_shard();
    let left = seq![ShardCount { shard: g, count: n }];
    let one = seq![g];
    assert(shards_of(left) =~= one);
    assert(one.drop_last() =~= Seq::<ManaCostShard>::empty());
    assert(payable_among(one.drop_last(), atom) =~= Seq::<ManaCostShard>::empty());
    assert(payable_among(one, atom) =~= one);
    assert(by_priority(one.drop_last(), atom) is None);
    assert(by_priority(one, atom) == Some(g));
    assert(shard_place(left, g) == Some(0int));
    if n == 1 {
        assert(decreased(left, g, 1) =~= Seq::<ShardCount>::empty());
    } else {
        assert(decreased(left, g, 1) =~= seq![ShardCount { shard: g, count: (n - 1) as i32 }]);
    }
}

/// So much mana, whatever its color, pays so much generic mana: with `k` of it spent on a cost of
/// `n`, all but `k` of the cost is left, and nothing once there are `n`.
pub proof fn law_generic_is_paid_by_any_mana(n: i32, atoms: Seq<u16>)
    requires
        n > 0,
    ensures
        ({
            let left = after_atoms(unpaid_of(n, Seq::empty()), atoms).left;
            if atoms.len() >= n {
                left.len() == 0
            } else {
                left == seq![ShardCount { shard: generic_shard(), count: (n - atoms.len()) as i32 }]
            }
        }),
    decreases atoms.len(),
{
    let u = unpaid_of(n, Seq::empty());
    assert(with_shards(Seq::empty(), Seq::empty()) =~= Seq::<ShardCount>::empty());
    assert(u.left =~= seq![ShardCount { shard: generic_shard(), count: n }]);
    if atoms.len() > 0 {
        law_generic_is_paid_by_any_mana(n, atoms.drop_last());
        let before = after_atoms(u, atoms.drop_last());
        if atoms.len() - 1 < n {
            lemma_generic_paid((n - (atoms.len() - 1)) as i32, atoms.last());
        } else {
            assert(shards_of(before.left) =~= Seq::<ManaCostShard>::empty());
            assert(payable_among(shards_of(before.left), atoms.last()) =~= Seq::<
                ManaCostShard,
            >::empty());
        }
    }
}

proof fn lemma_by_priority(shards: Seq<ManaCostShard>, colors: u16)
    ensures
        shards.len() == 0 <==> by_priority(shards, colors) is None,
        by_priority(shards, colors) matches Some(s) ==> shards.contains(s) && forall|i: int|
            0 <= i < shards.len() ==> pay_priority(#[trigger] shards[i], colors) <= pay_priority(
                s,
                colors,
            ),
    decreases shards.len(),
{
    if shards.len() > 0 {
        let less = shards.drop_last();
        lemma_by_priority(less, colors);
        let s = by_priority(shards, colors)->0;
        assert(shards[shards.len() - 1] == shards.last());
        if less.len() > 0 && s != shards.last() {
            let j = choose|j: int| 0 <= j < less.len() && less[j] == s;
            assert(shards[j] == s);
        }
        assert forall|i: int| 0 <= i < shards.len() implies pay_priority(
            #[trigger] shards[i],
            colors,
        ) <= pay_priority(s, colors) by {
            if i < less.len() {
                assert(less[i] == shards[i]);
            }
        }
    }
}

proof fn lemma_payable_among(shards: Seq<ManaCostShard>, color: u16, s: ManaCostShard)
    ensures
        payable_among(shards, color).contains(s) <==> shards.contains(s)
            && crate::mana::atoms::pool_pays(s, color),
    decreases shards.len(),
{
    let v = payable_among(shards, color);
    if shards.len() > 0 {
        let short = shards.drop_last();
        let before = payable_among(short, color);
        lemma_payable_among(short, color, s);
        if shards.contains(s) && s != shards.last() {
            let i = choose|i: int| 0 <= i < shards.len() && shards[i] == s;
            assert(short[i] == s);
        }
        if short.contains(s) {
            let i = choose|i: int| 0 <= i < short.len() && short[i] == s;
            assert(shards[i] == s);
        }
        assert(shards[shards.len() - 1] == shards.last());
        if before.contains(s) {
            let i = choose|i: int| 0 <= i < before.len() && before[i] == s;
            assert(v[i] == s);
        }
        if v.contains(s) {
            let i = choose|i: int| 0 <= i < v.len() && v[i] == s;
            if i < before.len() {
                assert(before[i] == s);
            }
        }
        if v.len() > before.len() {
            assert(v[before.len() as int] == shards.last());
        }
    }
}

/// Whether mana of a color pays a symbol: one of its colors, or one that any mana pays.
pub open spec fn is_paid_by(s: ManaCostShard, color: u16) -> bool {
    !(s.mask & 32 != 0 && color == 64) && (s.mask & color != 0 || s.mask & 63 == 0 || s.mask & 512
        != 0)
}

/// Mana pays a symbol that is left and that it can pay, and of these one that is as urgent as any.
/// Where none can be paid, nothing is. A symbol that is paid is left once less.
pub proof fn law_mana_pays_what_it_can(u: Unpaid, color: u16, i: int)
    requires
        0 <= i < u.left.len(),
    ensures
        paid_shard(u, color) matches Some(s) ==> is_paid_by(s, color) && (exists|k: int|
            0 <= k < u.left.len() && (#[trigger] u.left[k]).shard == s) && (is_paid_by(
            u.left[i].shard,
            color,
        ) ==> pay_priority(u.left[i].shard, color) <= pay_priority(s, color)),
        paid_shard(u, color) is None ==> !is_paid_by(u.left[i].shard, color) && after_mana(u, color)
            == u,
{
    lemma_zero_bits();
    let all = shards_of(u.left);
    let some = payable_among(all, color);
    lemma_by_priority(some, color);
    let s = u.left[i].shard;
    assert(all[i] == s);
    lemma_payable_among(all, color, s);
    if let Some(best) = paid_shard(u, color) {
        lemma_payable_among(all, color, best);
        let k = choose|k: int| 0 <= k < all.len() && all[k] == best;
        assert(u.left[k].shard == best);
        if is_paid_by(s, color) {
            let j = choose|j: int| 0 <= j < some.len() && some[j] == s;
            assert(pay_priority(some[j], color) <= pay_priority(best, color));
        }
    } else if some.contains(s) {
        assert(some.len() > 0);
    }
}

proof fn lemma_zero_bits()
    ensures
        forall|a: u16| #[trigger] (a & 0) == 0,
{
    assert forall|a: u16| #[trigger] (a & 0) == 0 by {
        assert(a & 0 == 0) by (bit_vector);
    }
}

/// A symbol of one color is paid before generic mana, and before a symbol that two of any mana pay
/// too.
pub proof fn law_colored_symbols_are_urgent(color: u16, mana: u16)
    requires
        is_color(color),
        is_color(mana),
    ensures
        pay_priority(symbol_of(color), mana) > pay_priority(generic_shard(), mana),
        pay_priority(symbol_of(color), mana) > pay_priority(
            ManaCostShard { mask: color | 512 },
            mana,
        ),
        pay_priority(ManaCostShard { mask: color | 512 }, mana) > pay_priority(
            generic_shard(),
            mana,
        ),
{
    lemma_color_bits();
    let c = color;
    assert((c == 1 || c == 2 || c == 4 || c == 8 || c == 16) ==> ((c | 512) & 31 == c && (c | 512)
        & 512 != 0 && (c | 512) != 64 && c & 1024 == 0 && c & 512 == 0 && c != 64)) by (bit_vector);
    assert(color & 31 == color);
}

/// The mana that a symbol takes is the one that leaves the pool: what is spent and what is left are
/// what was there. Restricted mana is spent only on what its restriction allows.
pub proof fn law_spent_mana_was_there(
    u: Unpaid,
    entries: Seq<ManaView>,
    ctx: Option<ManaPaymentContext>,
    any_color: bool,
    choices: Seq<usize>,
    step: nat,
)
    ensures
        ({
            let (v, rest, spent) = spent_from(u, entries, ctx, any_color, choices, step);
            &&& rest.to_multiset().add(spent.to_multiset()) == entries.to_multiset()
            &&& rest.len() + spent.len() == entries.len()
            &&& forall|i: int|
                0 <= i < spent.len() ==> ((#[trigger] spent[i]).restriction matches Some(t)
                    ==> (ctx matches Some(c) && texts_have(c.restrictions_met@, t)))
        }),
    decreases entries.len(),
{
    broadcast use vstd::seq_lib::group_to_multiset_ensures;

    let (v, rest, spent) = spent_from(u, entries, ctx, any_color, choices, step);
    let places = useful(u, entries, ctx, any_color, entries.len());
    if places.len() == 0 || entries.len() == 0 {
        assert(rest.to_multiset().add(spent.to_multiset()) =~= entries.to_multiset());
    } else {
        let wanted = crate::mana::pool::choice_at(choices, step);
        let k = if wanted < places.len() {
            wanted as int
        } else {
            places.len() - 1
        };
        let at = places[k];
        lemma_useful(u, entries, ctx, any_color, entries.len(), k);
        let next = after_mana(u, crate::mana::pool::spent_as(entries[at].color, any_color));
        let (v2, rest2, spent2) = spent_from(
            next,
            entries.remove(at),
            ctx,
            any_color,
            choices,
            step + 1,
        );
        law_spent_mana_was_there(next, entries.remove(at), ctx, any_color, choices, step + 1);
        assert(spent =~= spent2.insert(0, entries[at]));
        assert(entries.contains(entries[at]));
        assert(entries.to_multiset() =~= entries.to_multiset().remove(entries[at]).insert(
            entries[at],
        ));
        assert(rest.to_multiset().add(spent.to_multiset()) =~= entries.to_multiset());
        assert forall|i: int| 0 <= i < spent.len() implies ((#[trigger] spent[i]).restriction
            matches Some(t) ==> (ctx matches Some(c) && texts_have(c.restrictions_met@, t))) by {
            if i > 0 {
                assert(spent[i] == spent2[i - 1]);
            }
        }
    }
}

proof fn lemma_useful(
    u: Unpaid,
    entries: Seq<ManaView>,
    ctx: Option<ManaPaymentContext>,
    any_color: bool,
    n: nat,
    k: int,
)
    requires
        n <= entries.len(),
        0 <= k < useful(u, entries, ctx, any_color, n).len(),
    ensures
        ({
            let at = useful(u, entries, ctx, any_color, n)[k];
            &&& 0 <= at < n
            &&& entries[at].restriction matches Some(t) ==> (ctx matches Some(c) && texts_have(
                c.restrictions_met@,
                t,
            ))
            &&& paid_shard(u, crate::mana::pool::spent_as(entries[at].color, any_color)) is Some
        }),
    decreases n,
{
    let before = useful(u, entries, ctx, any_color, (n - 1) as nat);
    if k < before.len() {
        lemma_useful(u, entries, ctx, any_color, (n - 1) as nat, k);
    }
}

/// A symbol of one color is more urgent than one that life pays too, that one than a symbol of two
/// colors, and that one than generic mana.
pub proof fn law_order_of_urgency(color: u16, two: u16, mana: u16)
    requires
        is_color(color),
        two == 3 || two == 6 || two == 12 || two == 24 || two == 17 || two == 5 || two == 10 || two
            == 20 || two == 9 || two == 18,
    ensures
        pay_priority(symbol_of(color), mana) > pay_priority(
            ManaCostShard { mask: color | 1024 },
            mana,
        ),
        pay_priority(ManaCostShard { mask: color | 1024 }, mana) > pay_priority(
            ManaCostShard { mask: two },
            mana,
        ),
        pay_priority(ManaCostShard { mask: two }, mana) > pay_priority(generic_shard(), mana),
{
    let c = color;
    let t = two;
    assert((c == 1 || c == 2 || c == 4 || c == 8 || c == 16) ==> ((c | 1024) & 31 == c && (c | 1024)
        & 512 == 0 && (c | 1024) & 1024 != 0 && (c | 1024) != 64 && c & 1024 == 0 && c & 512 == 0 && c
        & 31 == c && c != 64)) by (bit_vector);
    assert((t == 3 || t == 6 || t == 12 || t == 24 || t == 17 || t == 5 || t == 10 || t == 20 || t
        == 9 || t == 18) ==> (t & 31 == t && t != 64)) by (bit_vector);
}

} // verus!
