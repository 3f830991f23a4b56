//! The sources that are tried when it is asked whether a cost can be paid, and in which order.

use vstd::prelude::*;
use indexmap::IndexMap;
use crate::game::{find_symbol_rank, symbol_rank, Card, GameState, Symbol};
use crate::mana::ability::{
    all_reusable, check_mana, has_mana, is_reusable_resource, ref_views, ActivatedAbility, CostPart,
    ManaAbilityRef, RefView,
};
use crate::mana::atoms::{
    has_bits, mono_color_shard, mono_shard, pool_can_pay_for_shard_with_color, pool_pays, COLORLESS,
    COLORS_SUPERPOSITION,
};
use crate::mana::cost::{colors_left, ManaCostBeingPaid, Unpaid};
use crate::mana::paying::{nothing_paid, Paying};
use crate::mana::prefer::{all_in_use_order, sort_mana_abilities};
use crate::mana::rank::{five_colors, list_five_colors};
use crate::mana::shards::{by_shard, group_and_order_to_pay_shards, listed_under, with_values, push_values};
use crate::mana::sources::{
    all_refs, available_sources, can_pay_ignoring_mana, chk_drawback_with_subs,
    get_available_mana_sources, group_mana_sources_by_color, grouped, harmless,
    payable_ignoring_mana,
};
use crate::ordered_map::{entries_of, entry_at, list_under, map_len, new_map, values_under};
use crate::parsing::params::string_of;
use crate::sorting::{relation, sort_by, sorted_by, Order};
use crate::text::text_eq;
use crate::types::{CardId, PlayerId};

verus! {

// ---- kinds of sources ----

/// What the mana abilities of a source are like: how many can be used, whether one uses something
/// up, whether one asks for a sacrifice of something else, and whether one makes any color.
#[derive(Debug, Clone, Copy, PartialEq, Eq, Structural)]
pub struct SourceTraits {
    pub usable: usize,
    pub limited: bool,
    pub unpreferred: bool,
    pub any_color: bool,
}

/// Whether a cost asks for a sacrifice of something else.
pub open spec fn sacrifices_another(cost: Seq<CostPart>) -> bool {
    exists|i: int|
        0 <= i < cost.len() && ((#[trigger] cost[i]) matches CostPart::Sacrifice {
            type_filter,
            ..
        } && type_filter@ != "CARDNAME"@)
}

fn check_sacrifices_another(cost: &Vec<CostPart>) -> (r: bool)
    ensures
        r == sacrifices_another(cost@),
{
    let mut i: usize = 0;
    while i < cost.len()
        invariant
            i <= cost@.len(),
            forall|k: int|
                0 <= k < i ==> !((#[trigger] cost@[k]) matches CostPart::Sacrifice {
                    type_filter,
                    ..
                } && type_filter@ != "CARDNAME"@),
        decreases cost@.len() - i,
    {
        if let CostPart::Sacrifice { type_filter, .. } = &cost[i] {
            if !text_eq(type_filter.as_str(), "CARDNAME") {
                assert(cost@[i as int] matches CostPart::Sacrifice { type_filter, .. }
                    && type_filter@ != "CARDNAME"@);
                return true;
            }
        }
        i = i + 1;
    }
    false
}

/// Whether an ability counts as a mana ability of a source.
pub open spec fn counts(ab: ActivatedAbility) -> bool {
    ab.is_mana_ability && !has_mana(ab.cost@)
}

/// The names of cards whose further effects are no drawback.
pub open spec fn is_harmless(c: Card) -> bool {
    c.card_name@ == "Pristine Talisman"@ || c.card_name@ == "Zhur-Taa Druid"@
}

/// The traits of a source with one more of its mana abilities.
pub open spec fn with_ability(
    game: GameState,
    id: CardId,
    c: Card,
    t: SourceTraits,
    ab: ActivatedAbility,
) -> SourceTraits {
    let any = SourceTraits {
        any_color: t.any_color || (ab.produced matches Some(p) && p.any_like),
        ..t
    };
    if !payable_ignoring_mana(game, nothing_paid(), id, ab) {
        any
    } else {
        let used = if all_reusable(ab.cost@) {
            any
        } else {
            let bad = any.unpreferred || sacrifices_another(ab.cost@);
            SourceTraits { unpreferred: bad, limited: !bad, ..any }
        };
        match string_of(ab.sub_ability) {
            Some(sub) if !is_harmless(c) => if harmless(c, sub) {
                SourceTraits { limited: true, usable: one_more(used.usable), ..used }
            } else {
                used
            },
            _ => SourceTraits { usable: one_more(used.usable), ..used },
        }
    }
}

/// One more, up to five.
pub open spec fn one_more(n: usize) -> usize {
    if n < 5 {
        (n + 1) as usize
    } else {
        n
    }
}

pub open spec fn traits_of(
    game: GameState,
    id: CardId,
    c: Card,
    start: SourceTraits,
    n: nat,
) -> SourceTraits
    decreases n,
{
    if n == 0 {
        start
    } else {
        let before = traits_of(game, id, c, start, (n - 1) as nat);
        let ab = c.activated_abilities@[n - 1];
        if counts(ab) {
            with_ability(game, id, c, before, ab)
        } else {
            before
        }
    }
}

/// The first mana ability of a card.
pub open spec fn first_counting(v: Seq<ActivatedAbility>) -> Option<ActivatedAbility>
    decreases v.len(),
{
    if v.len() == 0 {
        None
    } else if counts(v[0]) {
        Some(v[0])
    } else {
        first_counting(v.skip(1))
    }
}

fn find_first_counting<'a>(v: &'a Vec<ActivatedAbility>) -> (r: Option<&'a ActivatedAbility>)
    ensures
        match r {
            Some(a) => first_counting(v@) == Some(*a),
            None => first_counting(v@) is None,
        },
{
    let mut i: usize = 0;
    assert(v@.skip(0) =~= v@);
    while i < v.len()
        invariant
            i <= v@.len(),
            first_counting(v@) == first_counting(v@.skip(i as int)),
        decreases v@.len() - i,
    {
        assert(v@.skip(i as int).skip(1) =~= v@.skip(i + 1));
        if v[i].is_mana_ability && !check_mana(&v[i].cost) {
            return Some(&v[i]);
        }
        i = i + 1;
    }
    None
}

/// The kinds of sources, in the order in which they are tried.
#[derive(Debug, Clone, Copy, PartialEq, Eq, Structural)]
pub enum SourceKind {
    Colorless,
    Abilities(usize),
    AnyColor,
    Valuable,
    Last,
}

/// Whether an aura is on a card.
pub open spec fn is_enchanted(game: GameState, attachments: Seq<CardId>) -> bool {
    exists|i: int| 0 <= i < attachments.len() && is_aura(game, #[trigger] attachments[i])
}

pub open spec fn is_aura(game: GameState, id: CardId) -> bool {
    game.card_at(id) matches Some(c) && c.types.is_subtype("Aura"@)
}

fn check_enchanted(game: &GameState, attachments: &Vec<CardId>) -> (r: bool)
    ensures
        r == is_enchanted(*game, attachments@),
{
    let mut i: usize = 0;
    while i < attachments.len()
        invariant
            i <= attachments@.len(),
            forall|k: int| 0 <= k < i ==> !is_aura(*game, #[trigger] attachments@[k]),
        decreases attachments@.len() - i,
    {
        if let Some(c) = game.card(attachments[i]) {
            if c.types.has_subtype("Aura") {
                assert(is_aura(*game, attachments@[i as int]));
                return true;
            }
        }
        i = i + 1;
    }
    false
}

pub open spec fn no_traits(usable: usize) -> SourceTraits {
    SourceTraits { usable, limited: false, unpreferred: false, any_color: false }
}

pub open spec fn up_to_five(n: nat) -> usize {
    if n < 5 {
        n as usize
    } else {
        5
    }
}

/// The kind of a source.
pub open spec fn kind_of(game: GameState, id: CardId) -> Option<SourceKind> {
    match game.card_at(id) {
        Some(c) => if c.types.creature || is_enchanted(game, c.attachments@) {
            Some(SourceKind::Valuable)
        } else {
            let first = first_counting(c.activated_abilities@);
            let start = no_traits(
                if first is None {
                    up_to_five(c.land_atoms@.len())
                } else {
                    0
                },
            );
            let colorless = match first {
                Some(ab) => ab.produced matches Some(p) && p.text@ == "C"@,
                None => c.land_atoms@.len() > 0 && c.land_atoms@[0] == COLORLESS,
            };
            let t = traits_of(game, id, c, start, c.activated_abilities@.len());
            Some(
                if t.unpreferred {
                    SourceKind::Last
                } else if t.limited {
                    SourceKind::Valuable
                } else if t.any_color {
                    SourceKind::AnyColor
                } else if t.usable == 1 && colorless {
                    SourceKind::Colorless
                } else {
                    SourceKind::Abilities(
                        if t.usable < 1 {
                            1
                        } else {
                            t.usable
                        },
                    )
                },
            )
        },
        None => None,
    }
}

fn find_kind(game: &GameState, id: CardId) -> (r: Option<SourceKind>)
    ensures
        r == kind_of(*game, id),
{
    let c = match game.card(id) {
        Some(c) => c,
        None => {
            return None;
        },
    };
    if c.types.creature || check_enchanted(game, &c.attachments) {
        return Some(SourceKind::Valuable);
    }
    let st = Paying::new();
    let first = find_first_counting(&c.activated_abilities);
    let usable: usize = if first.is_none() {
        if c.land_atoms.len() < 5 {
            c.land_atoms.len()
        } else {
            5
        }
    } else {
        0
    };
    let colorless = match first {
        Some(ab) => match &ab.produced {
            Some(p) => text_eq(p.text.as_str(), "C"),
            None => false,
        },
        None => c.land_atoms.len() > 0 && c.land_atoms[0] == COLORLESS,
    };
    let mut t = SourceTraits { usable, limited: false, unpreferred: false, any_color: false };
    let ghost start = t;
    let mut i: usize = 0;
    while i < c.activated_abilities.len()
        invariant
            i <= c.activated_abilities@.len(),
            st@ == nothing_paid(),
            t == traits_of(*game, id, *c, start, i as nat),
        decreases c.activated_abilities@.len() - i,
    {
        let ab = &c.activated_abilities[i];
        if ab.is_mana_ability && !check_mana(&ab.cost) {
            if let Some(p) = &ab.produced {
                if p.any_like {
                    t.any_color = true;
                }
            }
            if can_pay_ignoring_mana(game, &st, id, ab) {
                if !is_reusable_resource(&ab.cost) {
                    let bad = t.unpreferred || check_sacrifices_another(&ab.cost);
                    t.unpreferred = bad;
                    t.limited = !bad;
                }
                let more: usize = if t.usable < 5 {
                    t.usable + 1
                } else {
                    t.usable
                };
                let harmless = text_eq(c.card_name.as_str(), "Pristine Talisman") || text_eq(
                    c.card_name.as_str(),
                    "Zhur-Taa Druid",
                );
                match &ab.sub_ability {
                    Some(sub) => {
                        if harmless {
                            t.usable = more;
                        } else if chk_drawback_with_subs(c, sub.as_str()) {
                            t.limited = true;
                            t.usable = more;
                        }
                    },
                    None => {
                        t.usable = more;
                    },
                }
            }
        }
        i = i + 1;
    }
    Some(
        if t.unpreferred {
            SourceKind::Last
        } else if t.limited {
            SourceKind::Valuable
        } else if t.any_color {
            SourceKind::AnyColor
        } else if t.usable == 1 && colorless {
            SourceKind::Colorless
        } else {
            SourceKind::Abilities(
                if t.usable < 1 {
                    1
                } else {
                    t.usable
                },
            )
        },
    )
}

/// The sources of a kind.
pub open spec fn of_kind(game: GameState, ids: Seq<CardId>, kind: SourceKind) -> Seq<CardId>
    decreases ids.len(),
{
    if ids.len() == 0 {
        Seq::empty()
    } else {
        let before = of_kind(game, ids.drop_last(), kind);
        if kind_of(game, ids.last()) == Some(kind) {
            before.push(ids.last())
        } else {
            before
        }
    }
}

fn list_of_kind(game: &GameState, ids: &Vec<CardId>, kind: SourceKind) -> (r: Vec<CardId>)
    ensures
        r@ == of_kind(*game, ids@, kind),
{
    let ghost all = ids@;
    let mut out: Vec<CardId> = Vec::new();
    let mut i: usize = 0;
    while i < ids.len()
        invariant
            i <= all.len(),
            all == ids@,
            out@ == of_kind(*game, all.take(i as int), kind),
        decreases all.len() - i,
    {
        assert(all.take(i + 1).drop_last() =~= all.take(i as int));
        if let Some(k) = find_kind(game, ids[i]) {
            if k == kind {
                out.push(ids[i]);
            }
        }
        i = i + 1;
    }
    assert(all.take(i as int) =~= all);
    out
}

pub open spec fn value_of(game: GameState, id: CardId) -> i32 {
    match game.card_at(id) {
        Some(c) => c.creature_value,
        None => 0,
    }
}

fn find_value(game: &GameState, id: CardId) -> (r: i32)
    ensures
        r == value_of(*game, id),
{
    match game.card(id) {
        Some(c) => c.creature_value,
        None => 0,
    }
}

/// The most valuable first.
pub struct ByValue<'a> {
    pub game: &'a GameState,
}

impl<'a> Order<CardId> for ByValue<'a> {
    open spec fn before(&self, a: CardId, b: CardId) -> bool {
        value_of(*self.game, a) > value_of(*self.game, b)
    }

    fn goes_before(&self, a: CardId, b: CardId) -> (r: bool) {
        find_value(self.game, a) > find_value(self.game, b)
    }
}

pub open spec fn by_value(game: GameState) -> spec_fn(CardId, CardId) -> bool {
    |a: CardId, b: CardId| value_of(game, a) > value_of(game, b)
}

/// Cards with the least valuable first; equal ones the other way round.
pub open spec fn least_valuable_first(game: GameState, ids: Seq<CardId>) -> Seq<CardId> {
    sorted_by(ids, by_value(game)).reverse()
}

fn sort_by_value(game: &GameState, ids: &Vec<CardId>) -> (r: Vec<CardId>)
    ensures
        r@ == least_valuable_first(*game, ids@),
{
    let order = ByValue { game };
    let sorted = sort_by(ids, &order);
    assert(relation::<CardId, ByValue<'_>>(order) =~= by_value(*game));
    let mut out: Vec<CardId> = Vec::new();
    let n: usize = sorted.len();
    let mut i: usize = 0;
    while i < n
        invariant
            i <= n,
            n == sorted@.len(),
            out@.len() == i,
            forall|k: int| 0 <= k < i ==> out@[k] == sorted@[n - 1 - k],
        decreases n - i,
    {
        out.push(sorted[n - 1 - i]);
        i = i + 1;
    }
    assert(out@ =~= sorted@.reverse());
    out
}

/// The sources of a player in the order in which they are tried.
pub open spec fn ai_sources(game: GameState, player: PlayerId) -> Seq<CardId> {
    let all = available_sources(game, nothing_paid(), player, Seq::empty());
    of_kind(game, all, SourceKind::Colorless) + of_kind(game, all, SourceKind::Abilities(1))
        + of_kind(game, all, SourceKind::Abilities(2)) + of_kind(
        game,
        all,
        SourceKind::Abilities(3),
    ) + of_kind(game, all, SourceKind::Abilities(4)) + of_kind(game, all, SourceKind::Abilities(5))
        + of_kind(game, all, SourceKind::AnyColor) + least_valuable_first(
        game,
        of_kind(game, all, SourceKind::Valuable),
    ) + least_valuable_first(game, of_kind(game, all, SourceKind::Last))
}

pub fn get_ai_available_mana_sources(game: &GameState, player: PlayerId) -> (r: Vec<CardId>)
    ensures
        r@ == ai_sources(*game, player),
{
    let st = Paying::new();
    let none: Vec<CardId> = Vec::new();
    assert(none@ =~= Seq::<CardId>::empty());
    let all = get_available_mana_sources(game, &st, player, &none);
    let mut out = list_of_kind(game, &all, SourceKind::Colorless);
    crate::lists::extend_cards(&mut out, &list_of_kind(game, &all, SourceKind::Abilities(1)));
    crate::lists::extend_cards(&mut out, &list_of_kind(game, &all, SourceKind::Abilities(2)));
    crate::lists::extend_cards(&mut out, &list_of_kind(game, &all, SourceKind::Abilities(3)));
    crate::lists::extend_cards(&mut out, &list_of_kind(game, &all, SourceKind::Abilities(4)));
    crate::lists::extend_cards(&mut out, &list_of_kind(game, &all, SourceKind::Abilities(5)));
    crate::lists::extend_cards(&mut out, &list_of_kind(game, &all, SourceKind::AnyColor));
    let valuable = list_of_kind(game, &all, SourceKind::Valuable);
    crate::lists::extend_cards(&mut out, &sort_by_value(game, &valuable));
    let last = list_of_kind(game, &all, SourceKind::Last);
    crate::lists::extend_cards(&mut out, &sort_by_value(game, &last));
    out
}

// ---- maps in another order ----

/// The keys of a map.
pub open spec fn keys_of(map: Seq<(i32, Seq<usize>)>) -> Seq<i32> {
    Seq::new(map.len(), |i: int| map[i].0)
}

/// The lists of a map under some keys, in their order.
pub open spec fn under_keys(map: Seq<(i32, Seq<usize>)>, keys: Seq<i32>) -> Seq<(i32, Seq<usize>)>
    decreases keys.len(),
{
    if keys.len() == 0 {
        Seq::empty()
    } else {
        with_values(
            under_keys(map, keys.drop_last()),
            keys.last(),
            listed_under(map, keys.last()),
        )
    }
}

/// A map with its keys in order.
pub open spec fn with_sorted_keys(
    map: Seq<(i32, Seq<usize>)>,
    less: spec_fn(i32, i32) -> bool,
) -> Seq<(i32, Seq<usize>)> {
    under_keys(map, sorted_by(keys_of(map), less))
}

pub fn sort_keys<O: Order<i32>>(map: &IndexMap<i32, Vec<usize>>, order: &O) -> (r: IndexMap<
    i32,
    Vec<usize>,
>)
    ensures
        entries_of(r) == with_sorted_keys(entries_of(*map), relation(*order)),
{
    let ghost all = entries_of(*map);
    let n: usize = map_len(map);
    let mut keys: Vec<i32> = Vec::new();
    let mut i: usize = 0;
    while i < n
        invariant
            i <= n,
            n == all.len(),
            all == entries_of(*map),
            keys@.len() == i,
            forall|k: int| 0 <= k < i ==> keys@[k] == (#[trigger] all[k]).0,
        decreases n - i,
    {
        keys.push(entry_at(map, i).0);
        i = i + 1;
    }
    assert(keys@ =~= keys_of(all));
    let sorted = sort_by(&keys, order);
    let ghost order_of_keys = sorted@;
    let mut out = new_map();
    let mut j: usize = 0;
    while j < sorted.len()
        invariant
            j <= order_of_keys.len(),
            order_of_keys == sorted@,
            all == entries_of(*map),
            entries_of(out) == under_keys(all, order_of_keys.take(j as int)),
        decreases order_of_keys.len() - j,
    {
        assert(order_of_keys.take(j + 1).drop_last() =~= order_of_keys.take(j as int));
        let key: i32 = sorted[j];
        match list_under(map, key) {
            Some(list) => {
                push_values(&mut out, key, list);
            },
            None => {
                let empty: Vec<usize> = Vec::new();
                assert(empty@ =~= Seq::<usize>::empty());
                push_values(&mut out, key, &empty);
            },
        }
        j = j + 1;
    }
    assert(order_of_keys.take(j as int) =~= order_of_keys);
    out
}

/// By the low bits of keys.
pub struct ByLowBits {}

impl Order<i32> for ByLowBits {
    open spec fn before(&self, a: i32, b: i32) -> bool {
        (a & 31) < (b & 31)
    }

    fn goes_before(&self, a: i32, b: i32) -> (r: bool) {
        (a & 31) < (b & 31)
    }
}

pub open spec fn by_low_bits() -> spec_fn(i32, i32) -> bool {
    |a: i32, b: i32| (a & 31) < (b & 31)
}

/// By the rank of symbols.
pub struct ByShardRank<'a> {
    pub symbols: &'a Vec<Symbol>,
}

pub open spec fn ranks_before(symbols: Seq<Symbol>, a: i32, b: i32) -> bool {
    let p = symbol_rank(symbols, a as u16);
    let q = symbol_rank(symbols, b as u16);
    p < q || (p == q && a < b)
}

impl<'a> Order<i32> for ByShardRank<'a> {
    open spec fn before(&self, a: i32, b: i32) -> bool {
        ranks_before(self.symbols@, a, b)
    }

    fn goes_before(&self, a: i32, b: i32) -> (r: bool) {
        let p: usize = find_symbol_rank(self.symbols, a as u16);
        let q: usize = find_symbol_rank(self.symbols, b as u16);
        p < q || (p == q && a < b)
    }
}

pub open spec fn by_shard_rank(symbols: Seq<Symbol>) -> spec_fn(i32, i32) -> bool {
    |a: i32, b: i32| ranks_before(symbols, a, b)
}

// ---- ways to pay for a probe ----

/// The colors that a spell that counts its colors still lacks.
pub open spec fn lacks(u: Unpaid, color: u16) -> bool {
    has_bits(colors_left(u.left).wrapping_add(u.sunburst) ^ COLORS_SUPERPOSITION, color)
}

pub open spec fn lacked_among(u: Unpaid, colors: Seq<u16>) -> Seq<u16>
    decreases colors.len(),
{
    if colors.len() == 0 {
        Seq::empty()
    } else {
        let before = lacked_among(u, colors.drop_last());
        if lacks(u, colors.last()) {
            before.push(colors.last())
        } else {
            before
        }
    }
}

pub open spec fn lacked_colors(u: Unpaid) -> Seq<u16> {
    lacked_among(u, five_colors())
}

pub fn converge_colors(unpaid: &ManaCostBeingPaid) -> (r: Vec<u16>)
    ensures
        r@ == lacked_colors(unpaid@),
{
    let mask: u16 = unpaid.get_unpaid_colors().wrapping_add(unpaid.sunburst_map)
        ^ COLORS_SUPERPOSITION;
    let colors = list_five_colors();
    let ghost all = colors@;
    let mut out: Vec<u16> = Vec::new();
    let mut i: usize = 0;
    while i < colors.len()
        invariant
            i <= all.len(),
            all == colors@,
            mask == colors_left(unpaid@.left).wrapping_add(unpaid@.sunburst)
                ^ COLORS_SUPERPOSITION,
            out@ == lacked_among(unpaid@, all.take(i as int)),
        decreases all.len() - i,
    {
        assert(all.take(i + 1).drop_last() =~= all.take(i as int));
        if mask & colors[i] != 0 {
            out.push(colors[i]);
        }
        i = i + 1;
    }
    assert(all.take(i as int) =~= all);
    out
}

/// A map by symbol with the lacked colors that it does not have yet.
pub open spec fn with_lacked(
    map: Seq<(i32, Seq<usize>)>,
    by_color: Seq<(i32, Seq<usize>)>,
    colors: Seq<u16>,
) -> Seq<(i32, Seq<usize>)>
    decreases colors.len(),
{
    if colors.len() == 0 {
        map
    } else {
        let before = with_lacked(map, by_color, colors.drop_last());
        let color = colors.last();
        let shard = mono_shard(color);
        match values_under(by_color, color as i32) {
            Some(list) if values_under(before, shard.mask as i32) is None && pool_pays(
                shard,
                color,
            ) => with_values(before, shard.mask as i32, list),
            _ => before,
        }
    }
}

fn add_lacked(
    map: &mut IndexMap<i32, Vec<usize>>,
    by_color: &IndexMap<i32, Vec<usize>>,
    colors: &Vec<u16>,
)
    ensures
        entries_of(*final(map)) == with_lacked(
            entries_of(*old(map)),
            entries_of(*by_color),
            colors@,
        ),
{
    let ghost start = entries_of(*map);
    let ghost all = colors@;
    let mut i: usize = 0;
    while i < colors.len()
        invariant
            i <= all.len(),
            all == colors@,
            entries_of(*map) == with_lacked(start, entries_of(*by_color), all.take(i as int)),
        decreases all.len() - i,
    {
        assert(all.take(i + 1).drop_last() =~= all.take(i as int));
        let color: u16 = colors[i];
        let shard = mono_color_shard(color);
        if list_under(map, shard.mask as i32).is_none() && pool_can_pay_for_shard_with_color(
            shard,
            color,
        ) {
            if let Some(list) = list_under(by_color, color as i32) {
                push_values(map, shard.mask as i32, list);
            }
        }
        i = i + 1;
    }
    assert(all.take(i as int) =~= all);
}

/// The ways to pay that a probe tries.
pub open spec fn probe_refs(game: GameState, player: PlayerId) -> Seq<RefView> {
    all_refs(
        game,
        nothing_paid(),
        player,
        ai_sources(game, player),
        Seq::empty(),
        None,
        true,
    )
}

/// The ways to pay that a probe tries, symbol by symbol.
pub open spec fn probe_map(
    game: GameState,
    player: PlayerId,
    spell: CardId,
    u: Unpaid,
    has_converge: bool,
) -> Seq<(i32, Seq<usize>)> {
    let refs = probe_refs(game, player);
    let colors = with_sorted_keys(grouped(refs, refs.len()), by_low_bits());
    let first = by_shard(refs, colors, u.left);
    let full = if has_converge {
        with_lacked(first, colors, lacked_colors(u))
    } else {
        first
    };
    all_in_use_order(
        game,
        player,
        spell,
        refs,
        with_sorted_keys(full, by_shard_rank(game.facts.symbols@)),
        colors,
    )
}

/// Groups the ways to pay that a probe tries symbol by symbol; there is nothing without sources.
pub fn get_sources_for_shards(
    game: &GameState,
    player: PlayerId,
    spell: CardId,
    unpaid: &ManaCostBeingPaid,
    has_converge: bool,
) -> (r: Option<(Vec<ManaAbilityRef>, IndexMap<i32, Vec<usize>>)>)
    ensures
        match r {
            Some((refs, map)) => ref_views(refs@) == probe_refs(*game, player) && refs@.len() > 0
                && entries_of(map) == probe_map(*game, player, spell, unpaid@, has_converge),
            None => probe_refs(*game, player).len() == 0,
        },
{
    let sources = get_ai_available_mana_sources(game, player);
    let st = Paying::new();
    let none: Vec<CardId> = Vec::new();
    assert(none@ =~= Seq::<CardId>::empty());
    let g = group_mana_sources_by_color(game, &st, player, &sources, &none, None, true);
    assert(ref_views(g.refs@).len() == g.refs@.len());
    if g.refs.len() == 0 {
        return None;
    }
    let colors = sort_keys(&g.map, &ByLowBits {  });
    assert(relation::<i32, ByLowBits>(ByLowBits {  }) =~= by_low_bits());
    let mut map = group_and_order_to_pay_shards(&g.refs, &colors, unpaid);
    if has_converge {
        let lacked = converge_colors(unpaid);
        add_lacked(&mut map, &colors, &lacked);
    }
    let order = ByShardRank { symbols: &game.facts.symbols };
    let mut sorted = sort_keys(&map, &order);
    assert(relation::<i32, ByShardRank<'_>>(order) =~= by_shard_rank(game.facts.symbols@));
    sort_mana_abilities(game, player, spell, &g.refs, &mut sorted, &colors);
    Some((g.refs, sorted))
}

} // verus!
