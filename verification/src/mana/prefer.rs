//! The order of the ways to pay a symbol, by score and by what a spell prefers.

use vstd::prelude::*;
use indexmap::IndexMap;
use crate::game::{find_symbol_text, symbol_text, GameState};
use crate::mana::ability::{ref_views, ManaAbilityRef, RefView};
use crate::mana::atoms::ManaCostShard;
use crate::mana::rank::{
    ai_mana_pref, card_place, card_score, colors_most_common_in_hand, find_card_place, hand_colors,
    mana_ability_score, mana_preference, order_cards, ordered_cards, owned_text, ref_score,
    score_mana_producing_card,
};
use crate::mana::shards::{has_ability, listed_under, lists_ability};
use crate::ordered_map::{entries_of, entry_at, list_under, map_len, set_list_at, values_under};
use crate::sorting::{
    relation, run_sorted, signs, sort_by, sort_runs, sorted_by, Comparison, Order,
};
use crate::text::{
    contains, has_part, parse_unsigned, piece_at, pieces, split, unsigned_value, views,
};
use crate::types::{CardId, PlayerId};

verus! {

// ---- the order by score ----

/// Whether a card makes a color.
pub open spec fn makes_color(
    refs: Seq<RefView>,
    colors: Seq<(i32, Seq<usize>)>,
    color: u16,
    id: CardId,
) -> bool {
    let list = listed_under(colors, color as i32);
    exists|k: int|
        0 <= k < list.len() && is_of_card(refs, #[trigger] list[k], id)
}

pub open spec fn is_of_card(refs: Seq<RefView>, i: usize, id: CardId) -> bool {
    i < refs.len() && refs[i as int].card_id == id
}

fn check_makes_color(
    refs: &Vec<ManaAbilityRef>,
    colors: &IndexMap<i32, Vec<usize>>,
    color: u16,
    id: CardId,
) -> (r: bool)
    ensures
        r == makes_color(ref_views(refs@), entries_of(*colors), color, id),
{
    match list_under(colors, color as i32) {
        Some(list) => {
            let mut k: usize = 0;
            while k < list.len()
                invariant
                    k <= list@.len(),
                    values_under(entries_of(*colors), color as i32) == Some(list@),
                    forall|j: int|
                        0 <= j < k ==> !is_of_card(ref_views(refs@), #[trigger] list@[j], id),
                decreases list@.len() - k,
            {
                let i: usize = list[k];
                if i < refs.len() && refs[i].card_id == id {
                    assert(is_of_card(
                        ref_views(refs@),
                        listed_under(entries_of(*colors), color as i32)[k as int],
                        id,
                    ));
                    return true;
                }
                k = k + 1;
            }
            false
        },
        None => false,
    }
}

/// By the first color that only one of two cards makes: whether the other goes first.
pub open spec fn spared_color(
    refs: Seq<RefView>,
    map: Seq<(i32, Seq<usize>)>,
    colors: Seq<u16>,
    a: CardId,
    b: CardId,
) -> Option<bool>
    decreases colors.len(),
{
    if colors.len() == 0 {
        None
    } else {
        let x = makes_color(refs, map, colors[0], a);
        let y = makes_color(refs, map, colors[0], b);
        if x != y {
            Some(y)
        } else {
            spared_color(refs, map, colors.skip(1), a, b)
        }
    }
}

fn find_spared_color(
    refs: &Vec<ManaAbilityRef>,
    map: &IndexMap<i32, Vec<usize>>,
    colors: &Vec<u16>,
    a: CardId,
    b: CardId,
) -> (r: Option<bool>)
    ensures
        r == spared_color(ref_views(refs@), entries_of(*map), colors@, a, b),
{
    let ghost all = colors@;
    let mut i: usize = 0;
    assert(all.skip(0) =~= all);
    while i < colors.len()
        invariant
            i <= all.len(),
            all == colors@,
            spared_color(ref_views(refs@), entries_of(*map), all, a, b) == spared_color(
                ref_views(refs@),
                entries_of(*map),
                all.skip(i as int),
                a,
                b,
            ),
        decreases all.len() - i,
    {
        assert(all.skip(i as int).skip(1) =~= all.skip(i + 1));
        let x = check_makes_color(refs, map, colors[i], a);
        let y = check_makes_color(refs, map, colors[i], b);
        if x != y {
            return Some(y);
        }
        i = i + 1;
    }
    None
}

/// Whether one place comes before another; what has none comes first.
pub open spec fn place_before(p: Option<int>, q: Option<int>) -> bool {
    match (p, q) {
        (None, Some(_)) => true,
        (Some(x), Some(y)) => x < y,
        _ => false,
    }
}

/// Whether one way to pay a symbol goes before another.
pub open spec fn ref_before(
    game: GameState,
    refs: Seq<RefView>,
    cards: Seq<CardId>,
    colors: Seq<u16>,
    map: Seq<(i32, Seq<usize>)>,
    shard: ManaCostShard,
    a: usize,
    b: usize,
) -> bool {
    if a >= refs.len() || b >= refs.len() {
        false
    } else {
        let x = refs[a as int];
        let y = refs[b as int];
        let p = card_place(cards, x.card_id);
        let q = card_place(cards, y.card_id);
        if p != q {
            if shard.generic_like() && card_score(game, x.card_id) == card_score(game, y.card_id) {
                match spared_color(refs, map, colors, x.card_id, y.card_id) {
                    Some(first) => first,
                    None => place_before(p, q),
                }
            } else {
                place_before(p, q)
            }
        } else {
            let s = has_part(x.mana_text, symbol_text(game.facts.symbols@, shard.mask));
            let t = has_part(y.mana_text, symbol_text(game.facts.symbols@, shard.mask));
            if s != t {
                s
            } else {
                ref_score(game, x) < ref_score(game, y)
            }
        }
    }
}

/// The order of the ways to pay a symbol.
pub struct ByUse<'a> {
    pub game: &'a GameState,
    pub refs: &'a Vec<ManaAbilityRef>,
    pub cards: &'a Vec<CardId>,
    pub colors: &'a Vec<u16>,
    pub map: &'a IndexMap<i32, Vec<usize>>,
    pub shard: ManaCostShard,
}

impl<'a> Order<usize> for ByUse<'a> {
    open spec fn before(&self, a: usize, b: usize) -> bool {
        ref_before(
            *self.game,
            ref_views(self.refs@),
            self.cards@,
            self.colors@,
            entries_of(*self.map),
            self.shard,
            a,
            b,
        )
    }

    fn goes_before(&self, a: usize, b: usize) -> (r: bool) {
        if a >= self.refs.len() || b >= self.refs.len() {
            return false;
        }
        let x = &self.refs[a];
        let y = &self.refs[b];
        let p = find_card_place(self.cards, x.card_id);
        let q = find_card_place(self.cards, y.card_id);
        let (same, first) = match (p, q) {
            (None, None) => (true, false),
            (None, Some(_)) => (false, true),
            (Some(_), None) => (false, false),
            (Some(i), Some(j)) => (i == j, i < j),
        };
        if !same {
            if self.shard.is_generic() && score_mana_producing_card(self.game, x.card_id)
                == score_mana_producing_card(self.game, y.card_id) {
                match find_spared_color(self.refs, self.map, self.colors, x.card_id, y.card_id) {
                    Some(f) => f,
                    None => first,
                }
            } else {
                first
            }
        } else {
            let text = find_symbol_text(&self.game.facts.symbols, self.shard.mask);
            let s = contains(x.mana_text.as_str(), text);
            let t = contains(y.mana_text.as_str(), text);
            if s != t {
                s
            } else {
                mana_ability_score(self.game, x) < mana_ability_score(self.game, y)
            }
        }
    }
}

pub open spec fn by_use(
    game: GameState,
    refs: Seq<RefView>,
    cards: Seq<CardId>,
    colors: Seq<u16>,
    map: Seq<(i32, Seq<usize>)>,
    shard: ManaCostShard,
) -> spec_fn(usize, usize) -> bool {
    |a: usize, b: usize| ref_before(game, refs, cards, colors, map, shard, a, b)
}

// ---- the preference of the spell ----

/// Whether the mana of a way to pay has a part in its text.
pub open spec fn text_has(refs: Seq<RefView>, i: usize, part: Seq<char>) -> bool {
    i < refs.len() && has_part(refs[i as int].mana_text, part)
}

fn check_text(refs: &Vec<ManaAbilityRef>, i: usize, part: &str) -> (r: bool)
    ensures
        r == text_has(ref_views(refs@), i, part@),
{
    i < refs.len() && contains(refs[i].mana_text.as_str(), part)
}

/// Compares by whether a text is there: what has it is less, or greater.
pub struct ByText<'a> {
    pub refs: &'a Vec<ManaAbilityRef>,
    pub part: &'a str,
    pub first: bool,
}

pub open spec fn text_sign(refs: Seq<RefView>, part: Seq<char>, first: bool, a: usize, b: usize) -> int {
    if text_has(refs, a, part) {
        if first {
            -1
        } else {
            1
        }
    } else if text_has(refs, b, part) {
        if first {
            1
        } else {
            -1
        }
    } else {
        0
    }
}

impl<'a> Comparison<usize> for ByText<'a> {
    open spec fn sign(&self, a: usize, b: usize) -> int {
        text_sign(ref_views(self.refs@), self.part@, self.first, a, b)
    }

    fn sign_of(&self, a: usize, b: usize) -> (r: i32) {
        if check_text(self.refs, a, self.part) {
            if self.first {
                -1
            } else {
                1
            }
        } else if check_text(self.refs, b, self.part) {
            if self.first {
                1
            } else {
                -1
            }
        } else {
            0
        }
    }
}

pub open spec fn text_signs(refs: Seq<RefView>, part: Seq<char>, first: bool) -> spec_fn(
    usize,
    usize,
) -> int {
    |a: usize, b: usize| text_sign(refs, part, first, a, b)
}

/// A list with those of another that are not in it yet.
pub open spec fn with_others(refs: Seq<RefView>, list: Seq<usize>, more: Seq<usize>) -> Seq<usize>
    decreases more.len(),
{
    if more.len() == 0 {
        list
    } else {
        let before = with_others(refs, list, more.drop_last());
        if lists_ability(refs, before, more.last()) {
            before
        } else {
            before.push(more.last())
        }
    }
}

/// How many ways to pay a preference moves to the front.
pub open spec fn preferred_count(pref: Seq<char>) -> int {
    match piece_at(pref, ":"@, 1) {
        Some(t) => match unsigned_value(t, usize::MAX as int) {
            Some(n) => n,
            None => 3,
        },
        None => 3,
    }
}

/// Ways to pay as a preference orders them: some that it names first, the others that it names
/// last.
pub open spec fn preferred(refs: Seq<RefView>, list: Seq<usize>, pref: Seq<char>) -> Seq<usize> {
    let part = pieces(pref, ":"@)[0];
    if part.len() == 0 {
        list
    } else {
        let sorted = run_sorted(list, text_signs(refs, part, true));
        let others = run_sorted(list, text_signs(refs, part, false));
        let n = preferred_count(pref);
        let front = if n <= sorted.len() {
            sorted.take(n)
        } else {
            sorted
        };
        with_others(refs, front, others)
    }
}

fn take_places(v: &Vec<usize>, n: usize) -> (r: Vec<usize>)
    ensures
        r@ == (if n <= v@.len() {
            v@.take(n as int)
        } else {
            v@
        }),
{
    let m: usize = if n <= v.len() {
        n
    } else {
        v.len()
    };
    let mut out: Vec<usize> = Vec::new();
    let mut i: usize = 0;
    while i < m
        invariant
            i <= m <= v@.len(),
            out@ == v@.take(i as int),
        decreases m - i,
    {
        assert(v@.take(i + 1) =~= v@.take(i as int).push(v@[i as int]));
        out.push(v[i]);
        i = i + 1;
    }
    assert(v@.take(v@.len() as int) =~= v@);
    out
}

fn apply_preference(refs: &Vec<ManaAbilityRef>, list: Vec<usize>, pref: &str) -> (r: Vec<usize>)
    ensures
        r@ == preferred(ref_views(refs@), list@, pref@),
{
    proof {
        reveal_strlit(":");
    }
    let parts = split(pref, ":");
    let ghost texts = views(parts@);
    assert(texts == pieces(pref@, ":"@));
    if parts.len() == 0 {
        proof {
            crate::mana::prefer::lemma_pieces(pref@, ":"@);
        }
        return list;
    }
    assert(texts[0] == parts@[0]@);
    let part = parts[0];
    if part.unicode_len() == 0 {
        return list;
    }
    let n: usize = if parts.len() > 1 {
        assert(texts[1] == parts@[1]@);
        match parse_unsigned(parts[1], usize::MAX as u64) {
            Some(k) => k as usize,
            None => 3,
        }
    } else {
        3
    };
    let a = ByText { refs, part, first: true };
    let sorted = sort_runs(&list, &a);
    assert(signs::<usize, ByText<'_>>(a) =~= text_signs(ref_views(refs@), part@, true));
    let b = ByText { refs, part, first: false };
    let others = sort_runs(&list, &b);
    assert(signs::<usize, ByText<'_>>(b) =~= text_signs(ref_views(refs@), part@, false));
    let mut out = take_places(&sorted, n);
    let ghost front = out@;
    let ghost all = others@;
    let mut i: usize = 0;
    while i < others.len()
        invariant
            i <= all.len(),
            all == others@,
            out@ == with_others(ref_views(refs@), front, all.take(i as int)),
        decreases all.len() - i,
    {
        assert(all.take(i + 1).drop_last() =~= all.take(i as int));
        if !has_ability(refs, &out, others[i]) {
            out.push(others[i]);
        }
        i = i + 1;
    }
    assert(all.take(i as int) =~= all);
    out
}

pub(crate) proof fn lemma_pieces(s: Seq<char>, p: Seq<char>)
    ensures
        pieces(s, p).len() > 0,
    decreases s.len(),
{
}

// ---- all symbols ----

/// The ways to pay of a symbol in order, as a spell prefers them.
pub open spec fn use_order(
    game: GameState,
    refs: Seq<RefView>,
    cards: Seq<CardId>,
    colors: Seq<u16>,
    map: Seq<(i32, Seq<usize>)>,
    pref: Option<Seq<char>>,
    entry: (i32, Seq<usize>),
) -> (i32, Seq<usize>) {
    let shard = ManaCostShard { mask: entry.0 as u16 };
    let sorted = sorted_by(entry.1, by_use(game, refs, cards, colors, map, shard));
    (
        entry.0,
        match pref {
            Some(p) => preferred(refs, sorted, p),
            None => sorted,
        },
    )
}

/// Whether a symbol of the map is generic.
pub open spec fn some_generic(by_shard: Seq<(i32, Seq<usize>)>) -> bool {
    exists|i: int|
        0 <= i < by_shard.len() && (ManaCostShard {
            mask: (#[trigger] by_shard[i]).0 as u16,
        }).generic_like()
}

/// The map of ways to pay with each symbol in order.
pub open spec fn all_in_use_order(
    game: GameState,
    player: PlayerId,
    spell: CardId,
    refs: Seq<RefView>,
    by_shard: Seq<(i32, Seq<usize>)>,
    map: Seq<(i32, Seq<usize>)>,
) -> Seq<(i32, Seq<usize>)> {
    let cards = ordered_cards(game, refs, by_shard);
    let colors = if some_generic(by_shard) {
        hand_colors(game, player, spell)
    } else {
        Seq::empty()
    };
    let pref = match game.card_at(spell) {
        Some(c) => mana_preference(c),
        None => None,
    };
    Seq::new(
        by_shard.len(),
        |i: int| use_order(game, refs, cards, colors, map, pref, by_shard[i]),
    )
}

fn check_some_generic(map: &IndexMap<i32, Vec<usize>>) -> (r: bool)
    ensures
        r == some_generic(entries_of(*map)),
{
    let ghost all = entries_of(*map);
    let n: usize = map_len(map);
    let mut i: usize = 0;
    while i < n
        invariant
            i <= n,
            n == all.len(),
            all == entries_of(*map),
            forall|k: int|
                0 <= k < i ==> !(ManaCostShard {
                    mask: (#[trigger] all[k]).0 as u16,
                }).generic_like(),
        decreases n - i,
    {
        let key: i32 = entry_at(map, i).0;
        let shard = ManaCostShard { mask: key as u16 };
        if shard.is_generic() {
            assert((ManaCostShard { mask: all[i as int].0 as u16 }).generic_like());
            return true;
        }
        i = i + 1;
    }
    false
}

/// Puts the ways to pay each symbol in order.
pub fn sort_mana_abilities(
    game: &GameState,
    player: PlayerId,
    spell: CardId,
    refs: &Vec<ManaAbilityRef>,
    by_shard: &mut IndexMap<i32, Vec<usize>>,
    map: &IndexMap<i32, Vec<usize>>,
)
    ensures
        entries_of(*final(by_shard)) == all_in_use_order(
            *game,
            player,
            spell,
            ref_views(refs@),
            entries_of(*old(by_shard)),
            entries_of(*map),
        ),
{
    let ghost views = ref_views(refs@);
    let ghost all = entries_of(*by_shard);
    let cards = order_cards(game, refs, by_shard);
    let colors = if check_some_generic(by_shard) {
        colors_most_common_in_hand(game, player, spell)
    } else {
        Vec::new()
    };
    let pref = match game.card(spell) {
        Some(c) => ai_mana_pref(c),
        None => None,
    };
    let ghost goal = all_in_use_order(*game, player, spell, views, all, entries_of(*map));
    assert(colors@ =~= (if some_generic(all) {
        hand_colors(*game, player, spell)
    } else {
        Seq::empty()
    }));
    let n: usize = map_len(by_shard);
    let mut i: usize = 0;
    while i < n
        invariant
            i <= n,
            n == all.len(),
            views == ref_views(refs@),
            goal.len() == n,
            forall|k: int|
                0 <= k < n ==> #[trigger] goal[k] == use_order(
                    *game,
                    views,
                    cards@,
                    colors@,
                    entries_of(*map),
                    owned_text(pref),
                    all[k],
                ),
            entries_of(*by_shard).len() == n,
            forall|k: int| 0 <= k < i ==> (#[trigger] entries_of(*by_shard)[k]) == goal[k],
            forall|k: int| i <= k < n ==> (#[trigger] entries_of(*by_shard)[k]) == all[k],
        decreases n - i,
    {
        let (key, list) = entry_at(by_shard, i);
        let shard = ManaCostShard { mask: key as u16 };
        let order = ByUse { game, refs, cards: &cards, colors: &colors, map, shard };
        let sorted = sort_by(list, &order);
        assert(relation::<usize, ByUse<'_>>(order) =~= by_use(
            *game,
            views,
            cards@,
            colors@,
            entries_of(*map),
            shard,
        ));
        assert(entries_of(*by_shard)[i as int] == all[i as int]);
        assert(goal[i as int] == use_order(
            *game,
            views,
            cards@,
            colors@,
            entries_of(*map),
            owned_text(pref),
            all[i as int],
        ));
        let new_list = match &pref {
            Some(p) => apply_preference(refs, sorted, p.as_str()),
            None => sorted,
        };
        set_list_at(by_shard, i, new_list);
        i = i + 1;
    }
    assert(entries_of(*by_shard) =~= goal);
}

} // verus!
