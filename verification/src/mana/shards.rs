//! Ways to pay, symbol by symbol, and the next choice of an automatic payment.

use vstd::prelude::*;
use indexmap::IndexMap;
use crate::game::GameState;
use crate::mana::ability::{ref_views, ManaAbilityRef, RefView};
use crate::mana::atoms::{
    has_bits, ManaCostShard, COLORS_AND_COLORLESS, COLORS_SUPERPOSITION, GENERIC, OR_2_GENERIC,
    SHARD_GENERIC,
};
use crate::mana::candidates::{
    atom_for, autopay_source_score, candidates, choose_atom_for_shard, choose_candidate,
    collect_sorted_candidates, count_candidates_for_shard, is_usable, next_candidate,
    paying_count, source_score,
};
use crate::mana::cost::{
    after_atoms, by_priority, count_left, generic_shard, get_shard_to_pay_by_priority, shards_of,
    unpaid_of, ManaCost, ManaCostBeingPaid, ShardCount, Unpaid,
};
use crate::mana::cost_parts::{PayScene, SceneOfPayment};
use crate::mana::paying::{nothing_paid, Paying, PayingView};
use crate::mana::pool::{by_color, pay_cost_from_pool, spendable, ManaPool};
use crate::mana::sources::{
    all_refs, available_sources, context_of, group_sources_by_mana_color, grouped,
    ManaPaymentContext,
};
use crate::ordered_map::{
    entries_of, entry_at, list_under, map_len, new_map, push_value, put_key, set_list_at,
    values_under, with_key, with_value,
};
use crate::sorting::{relation, sort_by, sorted_by, Order};
use crate::types::{CardId, PlayerId};

verus! {

/// What an automatic payment uses next: a source with one of its abilities, the atom it makes,
/// whether the color has to be said, and the cards its costs took.
pub struct AutoTapChoice {
    pub card_id: CardId,
    pub mana_ability_index: Option<usize>,
    pub chosen_atom: u16,
    pub needs_express_choice: bool,
    pub cost_cards: Vec<CardId>,
}

#[verifier::ext_equal]
pub struct ChoiceView {
    pub card_id: CardId,
    pub mana_ability_index: Option<usize>,
    pub chosen_atom: u16,
    pub needs_express_choice: bool,
    pub cost_cards: Seq<CardId>,
}

impl View for AutoTapChoice {
    type V = ChoiceView;

    open spec fn view(&self) -> ChoiceView {
        ChoiceView {
            card_id: self.card_id,
            mana_ability_index: self.mana_ability_index,
            chosen_atom: self.chosen_atom,
            needs_express_choice: self.needs_express_choice,
            cost_cards: self.cost_cards@,
        }
    }
}

// ---- ways to pay by symbol ----

/// A map with more places under a key.
pub open spec fn with_values(
    map: Seq<(i32, Seq<usize>)>,
    key: i32,
    list: Seq<usize>,
) -> Seq<(i32, Seq<usize>)>
    decreases list.len(),
{
    if list.len() == 0 {
        with_key(map, key)
    } else {
        with_value(with_values(map, key, list.drop_last()), key, list.last())
    }
}

pub fn push_values(map: &mut IndexMap<i32, Vec<usize>>, key: i32, list: &Vec<usize>)
    ensures
        entries_of(*final(map)) == with_values(entries_of(*old(map)), key, list@),
{
    let ghost start = entries_of(*map);
    let ghost all = list@;
    put_key(map, key);
    let mut i: usize = 0;
    while i < list.len()
        invariant
            i <= all.len(),
            all == list@,
            entries_of(*map) == with_values(start, key, all.take(i as int)),
        decreases all.len() - i,
    {
        assert(all.take(i + 1).drop_last() =~= all.take(i as int));
        push_value(map, key, list[i]);
        i = i + 1;
    }
    assert(all.take(i as int) =~= all);
}

/// Whether two ways to pay are the same ability of the same card.
pub open spec fn same_ability(refs: Seq<RefView>, i: usize, j: usize) -> bool {
    i < refs.len() && j < refs.len() && refs[i as int].card_id == refs[j as int].card_id
        && refs[i as int].ability_index == refs[j as int].ability_index
}

pub fn check_same(refs: &Vec<ManaAbilityRef>, i: usize, j: usize) -> (r: bool)
    ensures
        r == same_ability(ref_views(refs@), i, j),
{
    if i >= refs.len() || j >= refs.len() {
        return false;
    }
    let same_index = match (refs[i].ability_index, refs[j].ability_index) {
        (Some(a), Some(b)) => a == b,
        (None, None) => true,
        _ => false,
    };
    refs[i].card_id == refs[j].card_id && same_index
}

/// Whether a list has a way to pay already.
pub open spec fn lists_ability(refs: Seq<RefView>, list: Seq<usize>, j: usize) -> bool {
    exists|k: int| 0 <= k < list.len() && same_ability(refs, #[trigger] list[k], j)
}

pub fn has_ability(refs: &Vec<ManaAbilityRef>, list: &Vec<usize>, j: usize) -> (r: bool)
    ensures
        r == lists_ability(ref_views(refs@), list@, j),
{
    let mut k: usize = 0;
    while k < list.len()
        invariant
            k <= list@.len(),
            forall|m: int| 0 <= m < k ==> !same_ability(ref_views(refs@), #[trigger] list@[m], j),
        decreases list@.len() - k,
    {
        if check_same(refs, list[k], j) {
            assert(same_ability(ref_views(refs@), list@[k as int], j));
            return true;
        }
        k = k + 1;
    }
    false
}

pub open spec fn listed_under(map: Seq<(i32, Seq<usize>)>, key: i32) -> Seq<usize> {
    match values_under(map, key) {
        Some(v) => v,
        None => Seq::empty(),
    }
}

/// A map with those of more places under a key that are not there yet.
pub open spec fn with_new_values(
    map: Seq<(i32, Seq<usize>)>,
    refs: Seq<RefView>,
    key: i32,
    list: Seq<usize>,
) -> Seq<(i32, Seq<usize>)>
    decreases list.len(),
{
    if list.len() == 0 {
        with_key(map, key)
    } else {
        let before = with_new_values(map, refs, key, list.drop_last());
        if lists_ability(refs, listed_under(before, key), list.last()) {
            before
        } else {
            with_value(before, key, list.last())
        }
    }
}

fn push_new_values(
    map: &mut IndexMap<i32, Vec<usize>>,
    refs: &Vec<ManaAbilityRef>,
    key: i32,
    list: &Vec<usize>,
)
    ensures
        entries_of(*final(map)) == with_new_values(
            entries_of(*old(map)),
            ref_views(refs@),
            key,
            list@,
        ),
{
    let ghost start = entries_of(*map);
    let ghost all = list@;
    let ghost views = ref_views(refs@);
    put_key(map, key);
    let mut i: usize = 0;
    while i < list.len()
        invariant
            i <= all.len(),
            all == list@,
            views == ref_views(refs@),
            entries_of(*map) == with_new_values(start, views, key, all.take(i as int)),
        decreases all.len() - i,
    {
        assert(all.take(i + 1).drop_last() =~= all.take(i as int));
        let there = match list_under(map, key) {
            Some(v) => has_ability(refs, v, list[i]),
            None => false,
        };
        if !there {
            push_value(map, key, list[i]);
        }
        i = i + 1;
    }
    assert(all.take(i as int) =~= all);
}

/// The color that a key of the map by color stands for.
pub open spec fn key_color(key: i32) -> u16 {
    (key as u16) & COLORS_AND_COLORLESS
}

/// A map by symbol with the ways to pay a colored symbol, out of the map by color.
pub open spec fn with_colored(
    res: Seq<(i32, Seq<usize>)>,
    refs: Seq<RefView>,
    shard: ManaCostShard,
    colors: Seq<(i32, Seq<usize>)>,
) -> Seq<(i32, Seq<usize>)>
    decreases colors.len(),
{
    if colors.len() == 0 {
        res
    } else {
        let before = with_colored(res, refs, shard, colors.drop_last());
        if shard.payable_with(key_color(colors.last().0)) {
            with_new_values(before, refs, shard.mask as i32, colors.last().1)
        } else {
            before
        }
    }
}

/// A map by symbol with the ways to pay a symbol, out of the map by color.
pub open spec fn with_shard(
    res: Seq<(i32, Seq<usize>)>,
    refs: Seq<RefView>,
    shard: ManaCostShard,
    colors: Seq<(i32, Seq<usize>)>,
) -> Seq<(i32, Seq<usize>)> {
    let key = shard.mask as i32;
    if shard.or_2_generic() {
        let first = match values_under(colors, shard.colors() as i32) {
            Some(list) => with_values(res, key, list),
            None => res,
        };
        match values_under(colors, GENERIC as i32) {
            Some(list) => with_values(first, key, list),
            None => first,
        }
    } else if shard == generic_shard() {
        res
    } else {
        with_colored(res, refs, shard, colors)
    }
}

pub open spec fn with_each_shard(
    res: Seq<(i32, Seq<usize>)>,
    refs: Seq<RefView>,
    shards: Seq<ManaCostShard>,
    colors: Seq<(i32, Seq<usize>)>,
) -> Seq<(i32, Seq<usize>)>
    decreases shards.len(),
{
    if shards.len() == 0 {
        res
    } else {
        with_shard(
            with_each_shard(res, refs, shards.drop_last(), colors),
            refs,
            shards.last(),
            colors,
        )
    }
}

/// Whether a symbol of a kind is left.
pub open spec fn has_kind(left: Seq<ShardCount>, kind: u16) -> bool {
    exists|i: int| 0 <= i < left.len() && has_bits((#[trigger] left[i]).shard.mask, kind)
}

fn check_kind(unpaid: &ManaCostBeingPaid, kind: u16) -> (r: bool)
    ensures
        r == has_kind(unpaid@.left, kind),
{
    let mut i: usize = 0;
    while i < unpaid.unpaid.len()
        invariant
            i <= unpaid.unpaid@.len(),
            forall|k: int|
                0 <= k < i ==> !has_bits((#[trigger] unpaid.unpaid@[k]).shard.mask, kind),
        decreases unpaid.unpaid@.len() - i,
    {
        if unpaid.unpaid[i].shard.mask & kind != 0 {
            assert(has_bits(unpaid.unpaid@[i as int].shard.mask, kind));
            return true;
        }
        i = i + 1;
    }
    false
}

/// The ways to pay what is left, symbol by symbol, out of the map by color.
pub open spec fn by_shard(refs: Seq<RefView>, colors: Seq<(i32, Seq<usize>)>, left: Seq<ShardCount>) -> Seq<
    (i32, Seq<usize>),
> {
    let empty = Seq::<(i32, Seq<usize>)>::empty();
    let first = match values_under(colors, GENERIC as i32) {
        Some(list) if count_left(left, generic_shard()) > 0 || has_kind(left, OR_2_GENERIC) =>
            with_values(empty, SHARD_GENERIC as i32, list),
        _ => empty,
    };
    with_each_shard(first, refs, shards_of(left), colors)
}

fn add_colored(
    res: &mut IndexMap<i32, Vec<usize>>,
    refs: &Vec<ManaAbilityRef>,
    shard: ManaCostShard,
    colors: &IndexMap<i32, Vec<usize>>,
)
    ensures
        entries_of(*final(res)) == with_colored(
            entries_of(*old(res)),
            ref_views(refs@),
            shard,
            entries_of(*colors),
        ),
{
    let ghost start = entries_of(*res);
    let ghost all = entries_of(*colors);
    let n: usize = map_len(colors);
    let mut i: usize = 0;
    while i < n
        invariant
            i <= n,
            n == all.len(),
            all == entries_of(*colors),
            entries_of(*res) == with_colored(start, ref_views(refs@), shard, all.take(i as int)),
        decreases n - i,
    {
        assert(all.take(i + 1).drop_last() =~= all.take(i as int));
        assert(all.take(i + 1).last() == all[i as int]);
        let (key, list) = entry_at(colors, i);
        let color: u16 = (key as u16) & COLORS_AND_COLORLESS;
        if shard.can_be_paid_with(color) {
            push_new_values(res, refs, shard.mask as i32, list);
        }
        i = i + 1;
    }
    assert(all.take(i as int) =~= all);
}

fn add_shard(
    res: &mut IndexMap<i32, Vec<usize>>,
    refs: &Vec<ManaAbilityRef>,
    shard: ManaCostShard,
    colors: &IndexMap<i32, Vec<usize>>,
)
    ensures
        entries_of(*final(res)) == with_shard(
            entries_of(*old(res)),
            ref_views(refs@),
            shard,
            entries_of(*colors),
        ),
{
    if shard.is_or_2_generic() {
        if let Some(list) = list_under(colors, shard.color_mask() as i32) {
            push_values(res, shard.mask as i32, list);
        }
        if let Some(list) = list_under(colors, GENERIC as i32) {
            push_values(res, shard.mask as i32, list);
        }
    } else if shard.mask != SHARD_GENERIC {
        add_colored(res, refs, shard, colors);
    }
}

/// Groups the ways to pay what is left symbol by symbol.
pub fn group_and_order_to_pay_shards(
    refs: &Vec<ManaAbilityRef>,
    colors: &IndexMap<i32, Vec<usize>>,
    unpaid: &ManaCostBeingPaid,
) -> (r: IndexMap<i32, Vec<usize>>)
    ensures
        entries_of(r) == by_shard(ref_views(refs@), entries_of(*colors), unpaid@.left),
{
    let mut res = new_map();
    if unpaid.get_generic_mana_amount() > 0 || check_kind(unpaid, OR_2_GENERIC) {
        if let Some(list) = list_under(colors, GENERIC as i32) {
            push_values(&mut res, SHARD_GENERIC as i32, list);
        }
    }
    let shards = unpaid.get_distinct_shards();
    let ghost all = shards@;
    let ghost start = entries_of(res);
    let mut i: usize = 0;
    while i < shards.len()
        invariant
            i <= all.len(),
            all == shards@,
            entries_of(res) == with_each_shard(
                start,
                ref_views(refs@),
                all.take(i as int),
                entries_of(*colors),
            ),
        decreases all.len() - i,
    {
        assert(all.take(i + 1).drop_last() =~= all.take(i as int));
        add_shard(&mut res, refs, shards[i], colors);
        i = i + 1;
    }
    assert(all.take(i as int) =~= all);
    res
}

// ---- the order within a symbol ----

/// A map with each of its lists in order.
pub open spec fn each_sorted(
    map: Seq<(i32, Seq<usize>)>,
    less: spec_fn(usize, usize) -> bool,
) -> Seq<(i32, Seq<usize>)> {
    Seq::new(map.len(), |i: int| (map[i].0, sorted_by(map[i].1, less)))
}

pub fn sort_each<O: Order<usize>>(map: &mut IndexMap<i32, Vec<usize>>, order: &O)
    ensures
        entries_of(*final(map)) == each_sorted(entries_of(*old(map)), relation(*order)),
{
    let ghost all = entries_of(*map);
    let ghost goal = each_sorted(all, relation(*order));
    let n: usize = map_len(map);
    let mut i: usize = 0;
    while i < n
        invariant
            i <= n,
            n == all.len(),
            goal == each_sorted(all, relation(*order)),
            entries_of(*map).len() == n,
            forall|k: int| 0 <= k < i ==> (#[trigger] entries_of(*map)[k]) == goal[k],
            forall|k: int| i <= k < n ==> (#[trigger] entries_of(*map)[k]) == all[k],
        decreases n - i,
    {
        let sorted = sort_by(entry_at(map, i).1, order);
        assert(entries_of(*map)[i as int] == all[i as int]);
        set_list_at(map, i, sorted);
        i = i + 1;
    }
    assert(entries_of(*map) =~= goal);
}

/// The rank of a way to pay.
pub open spec fn pay_rank(game: GameState, m: RefView) -> i32 {
    source_score(game, m).wrapping_mul(1000).wrapping_add(m.source_order as i32)
}

/// By score, with the place among the sources.
pub struct ByRank<'a> {
    pub game: &'a GameState,
    pub refs: &'a Vec<ManaAbilityRef>,
}

pub open spec fn rank_relation(game: GameState, refs: Seq<RefView>) -> spec_fn(usize, usize) -> bool {
    |a: usize, b: usize|
        a < refs.len() && b < refs.len() && pay_rank(game, refs[a as int]) < pay_rank(
            game,
            refs[b as int],
        )
}

impl<'a> Order<usize> for ByRank<'a> {
    open spec fn before(&self, a: usize, b: usize) -> bool {
        a < self.refs@.len() && b < self.refs@.len() && pay_rank(
            *self.game,
            self.refs@[a as int]@,
        ) < pay_rank(*self.game, self.refs@[b as int]@)
    }

    fn goes_before(&self, a: usize, b: usize) -> (r: bool) {
        if a >= self.refs.len() || b >= self.refs.len() {
            return false;
        }
        let x = &self.refs[a];
        let y = &self.refs[b];
        let p: i32 = autopay_source_score(self.game, x).wrapping_mul(1000).wrapping_add(
            x.source_order as i32,
        );
        let q: i32 = autopay_source_score(self.game, y).wrapping_mul(1000).wrapping_add(
            y.source_order as i32,
        );
        p < q
    }
}

pub fn sort_sources_for_autopay(
    game: &GameState,
    refs: &Vec<ManaAbilityRef>,
    map: &mut IndexMap<i32, Vec<usize>>,
)
    ensures
        entries_of(*final(map)) == each_sorted(
            entries_of(*old(map)),
            rank_relation(*game, ref_views(refs@)),
        ),
{
    let order = ByRank { game, refs };
    sort_each(map, &order);
    assert(relation::<usize, ByRank<'_>>(order) =~= rank_relation(*game, ref_views(refs@)));
}

// ---- the next symbol ----

/// By how many ways there are to pay.
pub struct ByWays<'a> {
    pub map: &'a IndexMap<i32, Vec<usize>>,
}

impl<'a> Order<ManaCostShard> for ByWays<'a> {
    open spec fn before(&self, a: ManaCostShard, b: ManaCostShard) -> bool {
        listed_under(entries_of(*self.map), a.mask as i32).len() < listed_under(
            entries_of(*self.map),
            b.mask as i32,
        ).len()
    }

    fn goes_before(&self, a: ManaCostShard, b: ManaCostShard) -> (r: bool) {
        let n: usize = match list_under(self.map, a.mask as i32) {
            Some(v) => v.len(),
            None => 0,
        };
        let m: usize = match list_under(self.map, b.mask as i32) {
            Some(v) => v.len(),
            None => 0,
        };
        n < m
    }
}

pub open spec fn ways_relation(map: Seq<(i32, Seq<usize>)>) -> spec_fn(
    ManaCostShard,
    ManaCostShard,
) -> bool {
    |a: ManaCostShard, b: ManaCostShard|
        listed_under(map, a.mask as i32).len() < listed_under(map, b.mask as i32).len()
}

/// The symbol to pay next: the most urgent, of those with the fewest ways to pay.
pub open spec fn next_shard(left: Seq<ShardCount>, map: Seq<(i32, Seq<usize>)>) -> Option<
    ManaCostShard,
> {
    by_priority(sorted_by(shards_of(left), ways_relation(map)), COLORS_SUPERPOSITION)
}

pub fn get_next_shard_to_pay(unpaid: &ManaCostBeingPaid, map: &IndexMap<i32, Vec<usize>>) -> (r:
    Option<ManaCostShard>)
    ensures
        r == next_shard(unpaid@.left, entries_of(*map)),
{
    let shards = unpaid.get_distinct_shards();
    let order = ByWays { map };
    let sorted = sort_by(&shards, &order);
    assert(relation::<ManaCostShard, ByWays<'_>>(order) =~= ways_relation(entries_of(*map)));
    get_shard_to_pay_by_priority(&sorted, COLORS_SUPERPOSITION)
}

// ---- the way to pay it ----

/// Whether a symbol other than the current one has no other way to pay in the map.
pub open spec fn needs_only_in(
    refs: Seq<RefView>,
    map: Seq<(i32, Seq<usize>)>,
    i: usize,
    current: ManaCostShard,
    other: ManaCostShard,
) -> bool {
    other != current && other != generic_shard() && !other.variable() && i < refs.len()
        && refs[i as int].pays(other) && paying_count(
        refs,
        listed_under(map, other.mask as i32),
        other,
    ) <= 1
}

pub open spec fn is_sole_source_in(
    refs: Seq<RefView>,
    map: Seq<(i32, Seq<usize>)>,
    i: usize,
    current: ManaCostShard,
    shards: Seq<ManaCostShard>,
) -> bool {
    exists|k: int|
        0 <= k < shards.len() && needs_only_in(refs, map, i, current, #[trigger] shards[k])
}

pub fn is_sole_source_for_other_shard(
    refs: &Vec<ManaAbilityRef>,
    map: &IndexMap<i32, Vec<usize>>,
    i: usize,
    current: ManaCostShard,
    unpaid: &ManaCostBeingPaid,
) -> (r: bool)
    ensures
        r == is_sole_source_in(
            ref_views(refs@),
            entries_of(*map),
            i,
            current,
            shards_of(unpaid@.left),
        ),
{
    let shards = unpaid.get_distinct_shards();
    let mut k: usize = 0;
    while k < shards.len()
        invariant
            k <= shards@.len(),
            shards@ == shards_of(unpaid@.left),
            forall|j: int|
                0 <= j < k ==> !needs_only_in(
                    ref_views(refs@),
                    entries_of(*map),
                    i,
                    current,
                    #[trigger] shards@[j],
                ),
        decreases shards@.len() - k,
    {
        let other = shards[k];
        if other != current && other.mask != SHARD_GENERIC && !other.is_variable() && i < refs.len()
            && refs[i].can_pay_shard(other) {
            let n: usize = match list_under(map, other.mask as i32) {
                Some(v) => count_candidates_for_shard(refs, v, other),
                None => 0,
            };
            if n <= 1 {
                assert(needs_only_in(
                    ref_views(refs@),
                    entries_of(*map),
                    i,
                    current,
                    shards@[k as int],
                ));
                return true;
            }
        }
        k = k + 1;
    }
    false
}

/// The first usable way to pay that no other symbol hangs on.
pub open spec fn first_spare_in(
    scene: SceneOfPayment,
    st: PayingView,
    refs: Seq<RefView>,
    map: Seq<(i32, Seq<usize>)>,
    list: Seq<usize>,
    shard: ManaCostShard,
    shards: Seq<ManaCostShard>,
) -> Option<usize>
    decreases list.len(),
{
    if list.len() == 0 {
        None
    } else if is_usable(scene, st, refs, list[0], shard) && !is_sole_source_in(
        refs,
        map,
        list[0],
        shard,
        shards,
    ) {
        Some(list[0])
    } else {
        first_spare_in(scene, st, refs, map, list.skip(1), shard, shards)
    }
}

/// The way to pay a symbol: one that no other symbol hangs on, else the first usable one.
pub open spec fn chosen_ability(
    scene: SceneOfPayment,
    st: PayingView,
    refs: Seq<RefView>,
    map: Seq<(i32, Seq<usize>)>,
    shard: ManaCostShard,
    shards: Seq<ManaCostShard>,
) -> Option<usize> {
    match values_under(map, shard.mask as i32) {
        Some(list) => match first_spare_in(scene, st, refs, map, list, shard, shards) {
            Some(i) => Some(i),
            None => crate::mana::candidates::first_usable(scene, st, refs, list, shard),
        },
        None => None,
    }
}

pub fn choose_mana_ability(
    scene: PayScene<'_>,
    st: &Paying,
    refs: &Vec<ManaAbilityRef>,
    map: &IndexMap<i32, Vec<usize>>,
    shard: ManaCostShard,
    unpaid: &ManaCostBeingPaid,
) -> (r: Option<usize>)
    ensures
        r == chosen_ability(
            scene@,
            st@,
            ref_views(refs@),
            entries_of(*map),
            shard,
            shards_of(unpaid@.left),
        ),
        r matches Some(i) ==> i < refs@.len(),
{
    let list = match list_under(map, shard.mask as i32) {
        Some(v) => v,
        None => {
            return None;
        },
    };
    let ghost all = list@;
    let ghost views = ref_views(refs@);
    let ghost shards = shards_of(unpaid@.left);
    let mut fallback: Option<usize> = None;
    let mut k: usize = 0;
    assert(all.skip(0) =~= all);
    while k < list.len()
        invariant
            k <= all.len(),
            all == list@,
            views == ref_views(refs@),
            shards == shards_of(unpaid@.left),
            values_under(entries_of(*map), shard.mask as i32) == Some(all),
            first_spare_in(scene@, st@, views, entries_of(*map), all, shard, shards)
                == first_spare_in(
                scene@,
                st@,
                views,
                entries_of(*map),
                all.skip(k as int),
                shard,
                shards,
            ),
            match fallback {
                Some(i) => crate::mana::candidates::first_usable(scene@, st@, views, all, shard)
                    == Some(i) && i < views.len(),
                None => crate::mana::candidates::first_usable(scene@, st@, views, all, shard)
                    == crate::mana::candidates::first_usable(
                    scene@,
                    st@,
                    views,
                    all.skip(k as int),
                    shard,
                ),
            },
        decreases all.len() - k,
    {
        assert(all.skip(k as int).skip(1) =~= all.skip(k + 1));
        let i: usize = list[k];
        if crate::mana::candidates::check_usable(scene, st, refs, i, shard) {
            if fallback.is_none() {
                fallback = Some(i);
            }
            if !is_sole_source_for_other_shard(refs, map, i, shard, unpaid) {
                return Some(i);
            }
        }
        k = k + 1;
    }
    fallback
}

// ---- the next choice ----

/// The choice of a way to pay for a symbol, before its costs are paid.
pub open spec fn choice_of(m: RefView, shard: ManaCostShard) -> Option<ChoiceView> {
    match atom_for(m, shard) {
        Some(atom) => Some(
            ChoiceView {
                card_id: m.card_id,
                mana_ability_index: m.ability_index,
                chosen_atom: atom,
                needs_express_choice: m.atoms.len() > 1,
                cost_cards: Seq::empty(),
            },
        ),
        None => None,
    }
}

pub open spec fn choice_view(c: Option<AutoTapChoice>) -> Option<ChoiceView> {
    match c {
        Some(x) => Some(x@),
        None => None,
    }
}

fn make_choice(m: &ManaAbilityRef, shard: ManaCostShard) -> (r: Option<AutoTapChoice>)
    ensures
        choice_view(r) == choice_of(m@, shard),
{
    match choose_atom_for_shard(m, shard) {
        Some(atom) => {
            let c = AutoTapChoice {
                card_id: m.card_id,
                mana_ability_index: m.ability_index,
                chosen_atom: atom,
                needs_express_choice: m.atoms.len() > 1,
                cost_cards: Vec::new(),
            };
            assert(Some(c@) =~= choice_of(m@, shard));
            Some(c)
        },
        None => None,
    }
}

/// The next choice by symbol, over ways to pay.
pub open spec fn next_choice_by_shard(
    scene: SceneOfPayment,
    st: PayingView,
    refs: Seq<RefView>,
    u: Unpaid,
) -> Option<ChoiceView> {
    let map = each_sorted(
        by_shard(refs, grouped(refs, refs.len()), u.left),
        rank_relation(scene.game, refs),
    );
    match next_shard(u.left, map) {
        Some(shard) => match chosen_ability(scene, st, refs, map, shard, shards_of(u.left)) {
            Some(i) => choice_of(refs[i as int], shard),
            None => None,
        },
        None => None,
    }
}

proof fn lemma_no_ways(scene: SceneOfPayment, st: PayingView, u: Unpaid)
    ensures
        next_choice_by_shard(scene, st, Seq::empty(), u) is None,
{
    let refs = Seq::<RefView>::empty();
    let map = each_sorted(
        by_shard(refs, grouped(refs, refs.len()), u.left),
        rank_relation(scene.game, refs),
    );
    if let Some(shard) = next_shard(u.left, map) {
        if let Some(list) = values_under(map, shard.mask as i32) {
            lemma_none_usable(scene, st, map, list, shard, shards_of(u.left));
        }
    }
}

proof fn lemma_none_usable(
    scene: SceneOfPayment,
    st: PayingView,
    map: Seq<(i32, Seq<usize>)>,
    list: Seq<usize>,
    shard: ManaCostShard,
    shards: Seq<ManaCostShard>,
)
    ensures
        first_spare_in(scene, st, Seq::empty(), map, list, shard, shards) is None,
        crate::mana::candidates::first_usable(scene, st, Seq::empty(), list, shard) is None,
    decreases list.len(),
{
    if list.len() > 0 {
        lemma_none_usable(scene, st, map, list.skip(1), shard, shards);
    }
}

/// Says what would be used next by a payment that takes the most urgent symbol first and looks only
/// at what pays it, with nothing done.
pub fn next_choice_for_symbol(scene: PayScene<'_>, pool: &ManaPool, cost: &ManaCost) -> (r: Option<
    AutoTapChoice,
>)
    ensures
        ({
            let u = after_atoms(unpaid_of(cost.generic, cost.shards@), by_color(pool@));
            choice_view(r) == if u.left.len() == 0 {
                None
            } else {
                next_choice_by_shard(
                    scene@,
                    nothing_paid(),
                    all_refs(
                        *scene.game,
                        nothing_paid(),
                        scene.player,
                        available_sources(
                            *scene.game,
                            nothing_paid(),
                            scene.player,
                            scene.reserved@,
                        ),
                        scene.reserved@,
                        None,
                        false,
                    ),
                    u,
                )
            }
        }),
{
    let mut unpaid = ManaCostBeingPaid::from_mana_cost(cost);
    pay_cost_from_pool(&mut unpaid, pool);
    if unpaid.is_paid() {
        return None;
    }
    let game = scene.game;
    let st = Paying::new();
    let g = group_sources_by_mana_color(game, &st, scene.player, scene.reserved, None, false);
    let ghost views = ref_views(g.refs@);
    if g.refs.len() == 0 {
        proof {
            assert(views =~= Seq::<RefView>::empty());
            lemma_no_ways(scene@, st@, unpaid@);
        }
        return None;
    }
    let mut map = group_and_order_to_pay_shards(&g.refs, &g.map, &unpaid);
    sort_sources_for_autopay(game, &g.refs, &mut map);
    match get_next_shard_to_pay(&unpaid, &map) {
        Some(shard) => match choose_mana_ability(scene, &st, &g.refs, &map, shard, &unpaid) {
            Some(i) => make_choice(&g.refs[i], shard),
            None => None,
        },
        None => None,
    }
}

/// Says which source and which of its abilities an automatic payment would use next, with nothing
/// done.
pub fn next_auto_tap_choice_with_reserved_sacrifices(
    game: &GameState,
    pool: &ManaPool,
    player: PlayerId,
    cost: &ManaCost,
    current_spell: Option<CardId>,
    allow_reserved_source_reuse: bool,
    reserved_sacrifices: &Vec<CardId>,
) -> (r: Option<AutoTapChoice>)
    ensures
        choice_view(r) == next_float_choice(
            (SceneOfPayment {
                game: *game,
                player,
                spell: current_spell,
                reuse: allow_reserved_source_reuse,
                reserved: reserved_sacrifices@,
            }),
            after_atoms(unpaid_of(cost.generic, cost.shards@), by_color(spendable(pool@, None))),
            None,
        ),
{
    next_auto_float_choice(
        game,
        pool,
        player,
        cost,
        current_spell,
        allow_reserved_source_reuse,
        reserved_sacrifices,
        None,
    )
}

/// Says which source and which of its abilities an automatic payment would use next, with nothing
/// done and nothing reserved.
pub fn next_auto_tap_choice(
    game: &GameState,
    pool: &ManaPool,
    player: PlayerId,
    cost: &ManaCost,
    current_spell: Option<CardId>,
    allow_reserved_source_reuse: bool,
) -> (r: Option<AutoTapChoice>)
    ensures
        choice_view(r) == next_float_choice(
            (SceneOfPayment {
                game: *game,
                player,
                spell: current_spell,
                reuse: allow_reserved_source_reuse,
                reserved: Seq::empty(),
            }),
            after_atoms(unpaid_of(cost.generic, cost.shards@), by_color(spendable(pool@, None))),
            None,
        ),
{
    let none: Vec<CardId> = Vec::new();
    assert(none@ =~= Seq::<CardId>::empty());
    next_auto_tap_choice_with_reserved_sacrifices(
        game,
        pool,
        player,
        cost,
        current_spell,
        allow_reserved_source_reuse,
        &none,
    )
}

/// The next choice over all symbols, over ways to pay in their order.
pub open spec fn next_choice_by_candidate(
    scene: SceneOfPayment,
    st: PayingView,
    refs: Seq<RefView>,
    u: Unpaid,
) -> Option<ChoiceView> {
    match next_candidate(scene, st, refs, candidates(scene.game, refs, false), u.left) {
        Some((i, shard)) => choice_of(refs[i as int], shard),
        None => None,
    }
}

/// What the next choice of an automatic payment is.
pub open spec fn next_float_choice(
    scene: SceneOfPayment,
    u: Unpaid,
    ctx: Option<ManaPaymentContext>,
) -> Option<ChoiceView> {
    if u.left.len() == 0 {
        None
    } else {
        next_choice_by_candidate(
            scene,
            nothing_paid(),
            all_refs(
                scene.game,
                nothing_paid(),
                scene.player,
                available_sources(scene.game, nothing_paid(), scene.player, scene.reserved),
                scene.reserved,
                ctx,
                false,
            ),
            u,
        )
    }
}

/// Says what would be used next for mana that is to float.
pub fn next_auto_float_choice(
    game: &GameState,
    pool: &ManaPool,
    player: PlayerId,
    cost: &ManaCost,
    current_spell: Option<CardId>,
    allow_reserved_source_reuse: bool,
    reserved_sacrifices: &Vec<CardId>,
    payment_ctx: Option<&ManaPaymentContext>,
) -> (r: Option<AutoTapChoice>)
    ensures
        choice_view(r) == next_float_choice(
            (SceneOfPayment {
                game: *game,
                player,
                spell: current_spell,
                reuse: allow_reserved_source_reuse,
                reserved: reserved_sacrifices@,
            }),
            after_atoms(
                unpaid_of(cost.generic, cost.shards@),
                by_color(spendable(pool@, context_of(payment_ctx))),
            ),
            context_of(payment_ctx),
        ),
{
    let mut unpaid = ManaCostBeingPaid::from_mana_cost(cost);
    pay_cost_from_pool(&mut unpaid, &pool.filtered_for_context(payment_ctx));
    if unpaid.is_paid() {
        return None;
    }
    let scene = PayScene {
        game,
        player,
        spell: current_spell,
        reuse: allow_reserved_source_reuse,
        reserved: reserved_sacrifices,
    };
    let st = Paying::new();
    let g = group_sources_by_mana_color(
        game,
        &st,
        player,
        reserved_sacrifices,
        payment_ctx,
        false,
    );
    let list = collect_sorted_candidates(game, &g.refs);
    match choose_candidate(scene, &st, &g.refs, &list, &unpaid) {
        Some((i, shard)) => make_choice(&g.refs[i], shard),
        None => None,
    }
}

} // verus!
