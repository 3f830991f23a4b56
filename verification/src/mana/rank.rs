//! How sources are ranked when it is tried whether a cost can be paid.

use vstd::prelude::*;
use indexmap::IndexMap;
use crate::game::{find_svar, svar_value, Card, GameState};
use crate::lists::has_card;
use crate::mana::ability::{
    ability_used, mana_ability_of, ref_views, ActivatedAbility, CostPart, ManaAbilityRef, RefView,
};
use crate::mana::atoms::{
    atoms_as_mana_string, atoms_text, has_bits, BLACK, BLUE, COLORLESS, GREEN, RED, WHITE,
};
use crate::mana::candidates::{
    first_atom, land_score, score_implicit_land_mana_ability, score_text, text_score,
};
use crate::mana::paying::{nothing_paid, Paying};
use crate::mana::sources::{can_pay_ignoring_mana, payable_ignoring_mana};
use crate::ordered_map::{entries_of, entry_at, map_len};
use crate::parsing::params::{found, params_of, Params};
use crate::sorting::{relation, sort_by, sorted_by, Order};
use crate::text::{contains, has_part, text_eq, views};
use crate::types::{CardId, PlayerId, ZoneType};

verus! {

// ---- scores ----

/// What a part of a cost adds to the score of an ability.
pub open spec fn part_score(part: CostPart) -> i32 {
    match part {
        CostPart::PayLife(_) => 4,
        CostPart::Sacrifice { type_filter, .. } => if type_filter@ == "CARDNAME"@ {
            7
        } else {
            47
        },
        CostPart::Discard => 7,
        _ => 1,
    }
}

pub open spec fn parts_score(parts: Seq<CostPart>) -> i32
    decreases parts.len(),
{
    if parts.len() == 0 {
        0
    } else {
        parts_score(parts.drop_last()).wrapping_add(part_score(parts.last()))
    }
}

fn add_part_scores(parts: &Vec<CostPart>) -> (r: i32)
    ensures
        r == parts_score(parts@),
{
    let ghost all = parts@;
    let mut total: i32 = 0;
    let mut i: usize = 0;
    while i < parts.len()
        invariant
            i <= all.len(),
            all == parts@,
            total == parts_score(all.take(i as int)),
        decreases all.len() - i,
    {
        assert(all.take(i + 1).drop_last() =~= all.take(i as int));
        let n: i32 = match &parts[i] {
            CostPart::PayLife(_) => 4,
            CostPart::Sacrifice { type_filter, .. } => if text_eq(
                type_filter.as_str(),
                "CARDNAME",
            ) {
                7
            } else {
                47
            },
            CostPart::Discard => 7,
            _ => 1,
        };
        total = total.wrapping_add(n);
        i = i + 1;
    }
    assert(all.take(i as int) =~= all);
    total
}

/// The score of a mana ability: for what it makes and for what it costs.
pub open spec fn ability_score(ab: ActivatedAbility) -> i32 {
    let made: i32 = match ab.produced {
        Some(p) => if p.combo_color_identity || p.any_like {
            7
        } else {
            text_score(atoms_text(p.atoms@))
        },
        None => 2,
    };
    made.wrapping_add(parts_score(ab.cost@))
}

pub fn score_mana_ability(ab: &ActivatedAbility) -> (r: i32)
    ensures
        r == ability_score(*ab),
{
    let made: i32 = match &ab.produced {
        Some(p) => if p.combo_color_identity || p.any_like {
            7
        } else {
            let text = atoms_as_mana_string(&p.atoms);
            score_text(text.as_str())
        },
        None => 2,
    };
    made.wrapping_add(add_part_scores(&ab.cost))
}

/// The score of the abilities of a card.
pub open spec fn abilities_score(
    game: GameState,
    card: CardId,
    abilities: Seq<ActivatedAbility>,
) -> i32
    decreases abilities.len(),
{
    if abilities.len() == 0 {
        0
    } else {
        let before = abilities_score(game, card, abilities.drop_last());
        let ab = abilities.last();
        if ab.is_mana_ability {
            before.wrapping_add(ability_score(ab))
        } else if payable_ignoring_mana(game, nothing_paid(), card, ab) {
            before.wrapping_add(13)
        } else {
            before
        }
    }
}

pub open spec fn has_mana_ability(abilities: Seq<ActivatedAbility>) -> bool {
    exists|i: int| 0 <= i < abilities.len() && (#[trigger] abilities[i]).is_mana_ability
}

pub open spec fn lands_score(atoms: Seq<u16>) -> i32
    decreases atoms.len(),
{
    if atoms.len() == 0 {
        0
    } else {
        lands_score(atoms.drop_last()).wrapping_add(land_score(atoms.last()))
    }
}

/// The score of a card as a source of mana; those with low scores are used first.
pub open spec fn card_score(game: GameState, id: CardId) -> i32 {
    match game.card_at(id) {
        Some(c) => {
            let a = abilities_score(game, id, c.activated_abilities@);
            let b = if !has_mana_ability(c.activated_abilities@) && c.types.land {
                a.wrapping_add(lands_score(c.land_atoms@))
            } else {
                a
            };
            let d = if c.can_attack {
                b.wrapping_add(13)
            } else {
                b
            };
            if c.can_block {
                d.wrapping_add(13)
            } else {
                d
            }
        },
        None => 0,
    }
}

pub fn score_mana_producing_card(game: &GameState, id: CardId) -> (r: i32)
    ensures
        r == card_score(*game, id),
{
    match game.card(id) {
        Some(c) => {
            let st = Paying::new();
            let ghost all = c.activated_abilities@;
            let mut total: i32 = 0;
            let mut makes_mana = false;
            let mut i: usize = 0;
            while i < c.activated_abilities.len()
                invariant
                    i <= all.len(),
                    all == c.activated_abilities@,
                    st@ == nothing_paid(),
                    total == abilities_score(*game, id, all.take(i as int)),
                    makes_mana == has_mana_ability(all.take(i as int)),
                decreases all.len() - i,
            {
                assert(all.take(i + 1).drop_last() =~= all.take(i as int));
                let ab = &c.activated_abilities[i];
                proof {
                    let now = all.take(i + 1);
                    assert(now[i as int] == *ab);
                    if has_mana_ability(all.take(i as int)) {
                        let k = choose|k: int|
                            0 <= k < all.take(i as int).len() && (#[trigger] all.take(
                                i as int,
                            )[k]).is_mana_ability;
                        assert(now[k].is_mana_ability);
                    }
                    if has_mana_ability(now) && !ab.is_mana_ability {
                        let k = choose|k: int|
                            0 <= k < now.len() && (#[trigger] now[k]).is_mana_ability;
                        assert(all.take(i as int)[k].is_mana_ability);
                    }
                }
                if ab.is_mana_ability {
                    total = total.wrapping_add(score_mana_ability(ab));
                    makes_mana = true;
                } else if can_pay_ignoring_mana(game, &st, id, ab) {
                    total = total.wrapping_add(13);
                }
                i = i + 1;
            }
            assert(all.take(i as int) =~= all);
            if !makes_mana && c.types.land {
                let ghost atoms = c.land_atoms@;
                let ghost before = total;
                let mut more: i32 = 0;
                let mut k: usize = 0;
                while k < c.land_atoms.len()
                    invariant
                        k <= atoms.len(),
                        atoms == c.land_atoms@,
                        more == lands_score(atoms.take(k as int)),
                    decreases atoms.len() - k,
                {
                    assert(atoms.take(k + 1).drop_last() =~= atoms.take(k as int));
                    more = more.wrapping_add(score_implicit_land_mana_ability(c.land_atoms[k]));
                    k = k + 1;
                }
                assert(atoms.take(k as int) =~= atoms);
                total = total.wrapping_add(more);
            }
            if c.can_attack {
                total = total.wrapping_add(13);
            }
            if c.can_block {
                total = total.wrapping_add(13);
            }
            total
        },
        None => 0,
    }
}

/// The score of a way to pay.
pub open spec fn ref_score(game: GameState, m: RefView) -> i32 {
    match ability_used(game, m.card_id, m.ability_index) {
        Some(ab) => ability_score(ab),
        None => land_score(first_atom(m.atoms)),
    }
}

pub fn mana_ability_score(game: &GameState, m: &ManaAbilityRef) -> (r: i32)
    ensures
        r == ref_score(*game, m@),
{
    match mana_ability_of(game, m.card_id, m.ability_index) {
        Some(ab) => score_mana_ability(ab),
        None => {
            let atom: u16 = if m.atoms.len() > 0 {
                m.atoms[0]
            } else {
                COLORLESS
            };
            score_implicit_land_mana_ability(atom)
        },
    }
}

// ---- colors of the hand ----

/// How many symbols of a color a cost has.
pub open spec fn pips(shards: Seq<u16>, color: u16) -> nat
    decreases shards.len(),
{
    if shards.len() == 0 {
        0
    } else {
        pips(shards.drop_last(), color) + if has_bits(shards.last(), color) {
            1nat
        } else {
            0
        }
    }
}

fn count_pips(shards: &Vec<u16>, color: u16) -> (r: usize)
    ensures
        r == pips(shards@, color),
{
    let ghost all = shards@;
    let mut n: usize = 0;
    let mut i: usize = 0;
    while i < shards.len()
        invariant
            i <= all.len(),
            all == shards@,
            n <= i,
            n == pips(all.take(i as int), color),
        decreases all.len() - i,
    {
        assert(all.take(i + 1).drop_last() =~= all.take(i as int));
        if shards[i] & color != 0 {
            n = n + 1;
        }
        i = i + 1;
    }
    assert(all.take(i as int) =~= all);
    n
}

/// The most symbols of a color that a card of a hand has. The spell itself and lands do not count.
pub open spec fn most_pips(game: GameState, hand: Seq<CardId>, spell: CardId, color: u16) -> nat
    decreases hand.len(),
{
    if hand.len() == 0 {
        0
    } else {
        let before = most_pips(game, hand.drop_last(), spell, color);
        match game.card_at(hand.last()) {
            Some(c) if hand.last() != spell && !c.types.land => {
                let n = pips(c.cost_shards@, color);
                if n > before {
                    n
                } else {
                    before
                }
            },
            _ => before,
        }
    }
}

fn find_most_pips(game: &GameState, hand: &Vec<CardId>, spell: CardId, color: u16) -> (r: usize)
    ensures
        r == most_pips(*game, hand@, spell, color),
{
    let ghost all = hand@;
    let mut best: usize = 0;
    let mut i: usize = 0;
    while i < hand.len()
        invariant
            i <= all.len(),
            all == hand@,
            best == most_pips(*game, all.take(i as int), spell, color),
        decreases all.len() - i,
    {
        assert(all.take(i + 1).drop_last() =~= all.take(i as int));
        if let Some(c) = game.card(hand[i]) {
            if hand[i] != spell && !c.types.land {
                let n: usize = count_pips(&c.cost_shards, color);
                if n > best {
                    best = n;
                }
            }
        }
        i = i + 1;
    }
    assert(all.take(i as int) =~= all);
    best
}

/// The colors with the most symbols in a hand first.
pub struct ByPips<'a> {
    pub game: &'a GameState,
    pub hand: &'a Vec<CardId>,
    pub spell: CardId,
}

impl<'a> Order<u16> for ByPips<'a> {
    open spec fn before(&self, a: u16, b: u16) -> bool {
        most_pips(*self.game, self.hand@, self.spell, a) > most_pips(
            *self.game,
            self.hand@,
            self.spell,
            b,
        )
    }

    fn goes_before(&self, a: u16, b: u16) -> (r: bool) {
        find_most_pips(self.game, self.hand, self.spell, a) > find_most_pips(
            self.game,
            self.hand,
            self.spell,
            b,
        )
    }
}

pub open spec fn by_pips(game: GameState, hand: Seq<CardId>, spell: CardId) -> spec_fn(u16, u16) -> bool {
    |a: u16, b: u16| most_pips(game, hand, spell, a) > most_pips(game, hand, spell, b)
}

pub open spec fn five_colors() -> Seq<u16> {
    seq![WHITE, BLUE, BLACK, RED, GREEN]
}

pub open spec fn with_pips(game: GameState, hand: Seq<CardId>, spell: CardId, colors: Seq<u16>) -> Seq<
    u16,
>
    decreases colors.len(),
{
    if colors.len() == 0 {
        Seq::empty()
    } else {
        let before = with_pips(game, hand, spell, colors.drop_last());
        if most_pips(game, hand, spell, colors.last()) > 0 {
            before.push(colors.last())
        } else {
            before
        }
    }
}

/// The colors of a hand, those with the most symbols first.
pub open spec fn hand_colors(game: GameState, player: PlayerId, spell: CardId) -> Seq<u16> {
    let hand = game.in_zone(ZoneType::Hand, player);
    with_pips(game, hand, spell, sorted_by(five_colors(), by_pips(game, hand, spell)))
}

pub fn list_five_colors() -> (r: Vec<u16>)
    ensures
        r@ == five_colors(),
{
    let mut out: Vec<u16> = Vec::new();
    out.push(WHITE);
    out.push(BLUE);
    out.push(BLACK);
    out.push(RED);
    out.push(GREEN);
    assert(out@ =~= five_colors());
    out
}

pub fn colors_most_common_in_hand(game: &GameState, player: PlayerId, spell: CardId) -> (r: Vec<u16>)
    ensures
        r@ == hand_colors(*game, player, spell),
{
    let hand = game.cards_in_zone(ZoneType::Hand, player);
    let colors = list_five_colors();
    let order = ByPips { game, hand: &hand, spell };
    let sorted = sort_by(&colors, &order);
    assert(relation::<u16, ByPips<'_>>(order) =~= by_pips(*game, hand@, spell));
    let ghost all = sorted@;
    let mut out: Vec<u16> = Vec::new();
    let mut i: usize = 0;
    while i < sorted.len()
        invariant
            i <= all.len(),
            all == sorted@,
            out@ == with_pips(*game, hand@, spell, all.take(i as int)),
        decreases all.len() - i,
    {
        assert(all.take(i + 1).drop_last() =~= all.take(i as int));
        if find_most_pips(game, &hand, spell, sorted[i]) > 0 {
            out.push(sorted[i]);
        }
        i = i + 1;
    }
    assert(all.take(i as int) =~= all);
    out
}

// ---- preferences of a spell ----

/// The preference that one of the first ability texts of a spell states.
pub open spec fn stated_preference(texts: Seq<String>) -> Option<Seq<char>>
    decreases texts.len(),
{
    if texts.len() == 0 {
        None
    } else {
        let p = params_of(texts[0]@);
        if has_part(texts[0]@, "AIManaPref"@) && found(p, "SP"@) is Some && found(
            p,
            "AIManaPref"@,
        ) is Some {
            found(p, "AIManaPref"@)
        } else {
            stated_preference(texts.skip(1))
        }
    }
}

/// The preference of a spell for mana: by an ability text, else by a variable.
pub open spec fn mana_preference(c: Card) -> Option<Seq<char>> {
    match stated_preference(c.ability_texts@) {
        Some(t) => Some(t),
        None => svar_value(c.svars@, "AIManaPref"@),
    }
}

pub open spec fn owned_text(v: Option<String>) -> Option<Seq<char>> {
    match v {
        Some(t) => Some(t@),
        None => None,
    }
}

pub fn ai_mana_pref(c: &Card) -> (r: Option<String>)
    ensures
        owned_text(r) == mana_preference(*c),
{
    let ghost all = c.ability_texts@;
    let mut i: usize = 0;
    assert(all.skip(0) =~= all);
    while i < c.ability_texts.len()
        invariant
            i <= all.len(),
            all == c.ability_texts@,
            stated_preference(all) == stated_preference(all.skip(i as int)),
        decreases all.len() - i,
    {
        assert(all.skip(i as int).skip(1) =~= all.skip(i + 1));
        let raw = c.ability_texts[i].as_str();
        if contains(raw, "AIManaPref") {
            let p = Params::from_raw(raw);
            if p.get("SP").is_some() {
                if let Some(t) = p.get("AIManaPref") {
                    return Some(t.to_string());
                }
            }
        }
        i = i + 1;
    }
    match find_svar(&c.svars, "AIManaPref") {
        Some(t) => Some(t.to_string()),
        None => None,
    }
}

// ---- cards by score ----

/// The cards of ways to pay, each once, as they are first met.
pub open spec fn cards_met(refs: Seq<RefView>, list: Seq<usize>, before: Seq<CardId>) -> Seq<CardId>
    decreases list.len(),
{
    if list.len() == 0 {
        before
    } else {
        let met = cards_met(refs, list.drop_last(), before);
        let i = list.last();
        if i < refs.len() && !met.contains(refs[i as int].card_id) {
            met.push(refs[i as int].card_id)
        } else {
            met
        }
    }
}

pub open spec fn all_cards_met(refs: Seq<RefView>, map: Seq<(i32, Seq<usize>)>) -> Seq<CardId>
    decreases map.len(),
{
    if map.len() == 0 {
        Seq::empty()
    } else {
        cards_met(refs, map.last().1, all_cards_met(refs, map.drop_last()))
    }
}

fn meet_cards(refs: &Vec<ManaAbilityRef>, list: &Vec<usize>, met: &mut Vec<CardId>)
    ensures
        final(met)@ == cards_met(ref_views(refs@), list@, old(met)@),
{
    let ghost start = met@;
    let ghost all = list@;
    let ghost views = ref_views(refs@);
    let mut i: usize = 0;
    while i < list.len()
        invariant
            i <= all.len(),
            all == list@,
            views == ref_views(refs@),
            met@ == cards_met(views, all.take(i as int), start),
        decreases all.len() - i,
    {
        assert(all.take(i + 1).drop_last() =~= all.take(i as int));
        let k: usize = list[i];
        if k < refs.len() {
            let id = refs[k].card_id;
            if !has_card(met, id) {
                met.push(id);
            }
        }
        i = i + 1;
    }
    assert(all.take(i as int) =~= all);
}

/// By score.
pub struct ByCardScore<'a> {
    pub game: &'a GameState,
}

impl<'a> Order<CardId> for ByCardScore<'a> {
    open spec fn before(&self, a: CardId, b: CardId) -> bool {
        card_score(*self.game, a) < card_score(*self.game, b)
    }

    fn goes_before(&self, a: CardId, b: CardId) -> (r: bool) {
        score_mana_producing_card(self.game, a) < score_mana_producing_card(self.game, b)
    }
}

pub open spec fn by_card_score(game: GameState) -> spec_fn(CardId, CardId) -> bool {
    |a: CardId, b: CardId| card_score(game, a) < card_score(game, b)
}

/// The cards of ways to pay in the order in which they are used.
pub open spec fn ordered_cards(
    game: GameState,
    refs: Seq<RefView>,
    map: Seq<(i32, Seq<usize>)>,
) -> Seq<CardId> {
    sorted_by(all_cards_met(refs, map), by_card_score(game))
}

pub fn order_cards(game: &GameState, refs: &Vec<ManaAbilityRef>, map: &IndexMap<i32, Vec<usize>>) -> (r:
    Vec<CardId>)
    ensures
        r@ == ordered_cards(*game, ref_views(refs@), entries_of(*map)),
{
    let ghost all = entries_of(*map);
    let n: usize = map_len(map);
    let mut met: Vec<CardId> = Vec::new();
    let mut i: usize = 0;
    assert(met@ =~= Seq::<CardId>::empty());
    while i < n
        invariant
            i <= n,
            n == all.len(),
            all == entries_of(*map),
            met@ == all_cards_met(ref_views(refs@), all.take(i as int)),
        decreases n - i,
    {
        assert(all.take(i + 1).drop_last() =~= all.take(i as int));
        assert(all.take(i + 1).last() == all[i as int]);
        meet_cards(refs, entry_at(map, i).1, &mut met);
        i = i + 1;
    }
    assert(all.take(i as int) =~= all);
    let order = ByCardScore { game };
    let r = sort_by(&met, &order);
    assert(relation::<CardId, ByCardScore<'_>>(order) =~= by_card_score(*game));
    r
}

/// The place of a card.
pub open spec fn card_place(cards: Seq<CardId>, id: CardId) -> Option<int>
    decreases cards.len(),
{
    if cards.len() == 0 {
        None
    } else if cards[0] == id {
        Some(0)
    } else {
        match card_place(cards.skip(1), id) {
            Some(i) => Some(i + 1),
            None => None,
        }
    }
}

pub fn find_card_place(cards: &Vec<CardId>, id: CardId) -> (r: Option<usize>)
    ensures
        match r {
            Some(i) => card_place(cards@, id) == Some(i as int),
            None => card_place(cards@, id) is None,
        },
{
    let ghost all = cards@;
    let mut i: usize = 0;
    assert(all.skip(0) =~= all);
    while i < cards.len()
        invariant
            i <= all.len(),
            all == cards@,
            card_place(all, id) == (match card_place(all.skip(i as int), id) {
                Some(k) => Some(k + i),
                None => None,
            }),
        decreases all.len() - i,
    {
        assert(all.skip(i as int).skip(1) =~= all.skip(i + 1));
        if cards[i] == id {
            return Some(i);
        }
        i = i + 1;
    }
    None
}

} // verus!
