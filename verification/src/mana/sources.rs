//! The sources of mana that a player has, and the ways to pay that they give.

use vstd::prelude::*;
use indexmap::IndexMap;
use crate::game::{
    find_svar, svar_value, Card, Facts, GameState, ManaReplacement,
};
use crate::lists::{has_text, texts_have};
use crate::mana::ability::{
    all_reusable, atoms_of, check_mana, check_tap, has_mana, has_tap, is_reusable_resource,
    ref_views, ActivatedAbility, CostPart, ManaAbilityRef, ProducedMana, RefView,
};
use crate::mana::atoms::{atom_short, copy_atoms, letter_of, GENERIC};
use crate::mana::cost_parts::{can_pay_parts, parts_payable, PayScene, SceneOfPayment};
use crate::mana::paying::{Paying, PayingView};
use crate::ordered_map::{entries_of, new_map, push_value, with_value};
use crate::parsing::params::{found, params_of, string_of, text_of, Params};
use crate::svar::eval::{bare_scene, counted, resolve_count_svar};
use crate::text::{
    contains, has_part, has_prefix, int_value, number_or, parse_i32, parse_or, replace_text,
    starts_with, text_eq, text_replaced,
};
use crate::types::{CardId, PlayerId, ZoneType};

verus! {

/// What mana is spent on: whether on a spell, and which restrictions of mana allow it.
pub struct ManaPaymentContext {
    pub is_spell: bool,
    pub restrictions_met: Vec<String>,
}

pub open spec fn context_of(ctx: Option<&ManaPaymentContext>) -> Option<ManaPaymentContext> {
    match ctx {
        Some(c) => Some(*c),
        None => None,
    }
}

// ---- amounts ----

/// How often a mana ability makes its mana.
pub open spec fn base_amount(
    amount: Option<Seq<char>>,
    game: GameState,
    card: CardId,
    player: PlayerId,
) -> i32 {
    match amount {
        None => 1,
        Some(text) => match int_value(text) {
            Some(n) => if n > 0 {
                n as i32
            } else {
                1
            },
            None => match game.card_at(card) {
                Some(c) => {
                    let expr = match svar_value(c.svars@, text) {
                        Some(v) => v,
                        None => text,
                    };
                    if has_prefix(expr, "Count$"@) {
                        counted(bare_scene(game, card, player), expr)
                    } else {
                        number_or(expr, 1)
                    }
                },
                None => 1,
            },
        },
    }
}

/// Reads how often a mana ability makes its mana.
pub fn parse_mana_ability_amount(
    amount: &Option<String>,
    game: &GameState,
    card: CardId,
    player: PlayerId,
) -> (r: i32)
    ensures
        r == base_amount(string_of(*amount), *game, card, player),
{
    match amount {
        None => 1,
        Some(text) => match parse_i32(text.as_str()) {
            Some(n) => if n > 0 {
                n
            } else {
                1
            },
            None => match game.card(card) {
                Some(c) => {
                    let expr = match find_svar(&c.svars, text.as_str()) {
                        Some(v) => v,
                        None => text.as_str(),
                    };
                    if starts_with(expr, "Count$") {
                        resolve_count_svar(expr, game, card, player)
                    } else {
                        parse_or(expr, 1)
                    }
                },
                None => 1,
            },
        },
    }
}

/// The mana that replacement effects make of an atom.
pub open spec fn replaced_mana(
    all: Seq<ManaReplacement>,
    source: CardId,
    player: PlayerId,
    atom: u16,
) -> Seq<u16>
    decreases all.len(),
{
    if all.len() == 0 {
        seq![atom]
    } else if all[0].source == source && all[0].player == player && all[0].atom == atom {
        all[0].atoms@
    } else {
        replaced_mana(all.skip(1), source, player, atom)
    }
}

pub fn find_replaced_mana(facts: &Facts, source: CardId, player: PlayerId, atom: u16) -> (r: Vec<
    u16,
>)
    ensures
        r@ == replaced_mana(facts.mana_replacements@, source, player, atom),
{
    let all = &facts.mana_replacements;
    let mut i: usize = 0;
    assert(all@.skip(0) =~= all@);
    while i < all.len()
        invariant
            i <= all@.len(),
            all@ == facts.mana_replacements@,
            replaced_mana(all@, source, player, atom) == replaced_mana(
                all@.skip(i as int),
                source,
                player,
                atom,
            ),
        decreases all@.len() - i,
    {
        assert(all@.skip(i as int).skip(1) =~= all@.skip(i + 1));
        let e = &all[i];
        if e.source == source && e.player == player && e.atom == atom {
            return copy_atoms(&e.atoms);
        }
        i = i + 1;
    }
    let mut out: Vec<u16> = Vec::new();
    out.push(atom);
    assert(out@ =~= seq![atom]);
    out
}

/// How much mana an atom stands for.
pub open spec fn replacement_units(game: GameState, card: CardId, player: PlayerId, atom: u16) -> i32 {
    if game.produce_mana_replaced {
        replaced_mana(game.facts.mana_replacements@, card, player, atom).len() as i32
    } else {
        1
    }
}

fn count_units(game: &GameState, card: CardId, player: PlayerId, atom: u16) -> (r: i32)
    ensures
        r == replacement_units(*game, card, player, atom),
{
    if game.produce_mana_replaced {
        find_replaced_mana(&game.facts, card, player, atom).len() as i32
    } else {
        1
    }
}

/// The most that an atom of a list stands for, and no less than one.
pub open spec fn most_units(game: GameState, card: CardId, player: PlayerId, atoms: Seq<u16>) -> i32
    decreases atoms.len(),
{
    if atoms.len() == 0 {
        1
    } else {
        let before = most_units(game, card, player, atoms.drop_last());
        let n = replacement_units(game, card, player, atoms.last());
        if n > before {
            n
        } else {
            before
        }
    }
}

fn find_most_units(game: &GameState, card: CardId, player: PlayerId, atoms: &Vec<u16>) -> (r: i32)
    ensures
        r == most_units(*game, card, player, atoms@),
{
    let ghost all = atoms@;
    let mut best: i32 = 1;
    let mut i: usize = 0;
    while i < atoms.len()
        invariant
            i <= all.len(),
            all == atoms@,
            best == most_units(*game, card, player, all.take(i as int)),
        decreases all.len() - i,
    {
        assert(all.take(i + 1).drop_last() =~= all.take(i as int));
        let n: i32 = count_units(game, card, player, atoms[i]);
        if n > best {
            best = n;
        }
        i = i + 1;
    }
    assert(all.take(i as int) =~= all);
    best
}

// ---- abilities that can be activated ----

/// Whether a card can be tapped for a cost.
pub open spec fn can_tap(game: GameState, st: PayingView, id: CardId) -> bool {
    match game.card_at(id) {
        Some(c) => !st.is_tapped(game, id) && !(c.types.creature && c.summoning_sick),
        None => false,
    }
}

pub fn check_can_tap(game: &GameState, st: &Paying, id: CardId) -> (r: bool)
    ensures
        r == can_tap(*game, st@, id),
{
    match game.card(id) {
        Some(c) => !st.check_tapped(game, id) && !(c.types.creature && c.summoning_sick),
        None => false,
    }
}

/// Whether all of a cost but its mana can be paid.
pub open spec fn payable_ignoring_mana(
    game: GameState,
    st: PayingView,
    id: CardId,
    ab: ActivatedAbility,
) -> bool {
    ab.other_costs_payable && (has_tap(ab.cost@) ==> can_tap(game, st, id))
}

pub fn can_pay_ignoring_mana(game: &GameState, st: &Paying, id: CardId, ab: &ActivatedAbility) -> (r:
    bool)
    ensures
        r == payable_ignoring_mana(*game, st@, id, *ab),
{
    ab.other_costs_payable && (!check_tap(&ab.cost) || check_can_tap(game, st, id))
}

/// Whether a restriction of mana allows what it is spent on.
pub open spec fn restriction_met(
    restriction: Option<Seq<char>>,
    chosen_type: Option<Seq<char>>,
    ctx: Option<ManaPaymentContext>,
) -> bool {
    match (restriction, ctx) {
        (Some(raw), Some(c)) => {
            let text = if has_part(raw, "ChosenType"@) {
                text_replaced(
                    raw,
                    "ChosenType"@,
                    match chosen_type {
                        Some(t) => t,
                        None => Seq::empty(),
                    },
                )
            } else {
                raw
            };
            texts_have(c.restrictions_met@, text)
        },
        _ => true,
    }
}

fn check_restriction(
    restriction: &Option<String>,
    chosen_type: &Option<String>,
    ctx: Option<&ManaPaymentContext>,
) -> (r: bool)
    ensures
        r == restriction_met(string_of(*restriction), string_of(*chosen_type), context_of(ctx)),
{
    match (restriction, ctx) {
        (Some(raw), Some(c)) => {
            if contains(raw.as_str(), "ChosenType") {
                proof {
                    reveal_strlit("ChosenType");
                    reveal_strlit("");
                    assert(""@ =~= Seq::<char>::empty());
                }
                let to = match chosen_type {
                    Some(t) => t.as_str(),
                    None => "",
                };
                let text = replace_text(raw.as_str(), "ChosenType", to);
                has_text(&c.restrictions_met, text.as_str())
            } else {
                has_text(&c.restrictions_met, raw.as_str())
            }
        },
        _ => true,
    }
}

/// A scene in which only reserved cards are spared.
pub open spec fn open_scene(game: GameState, player: PlayerId, reserved: Seq<CardId>) -> SceneOfPayment {
    SceneOfPayment { game, player, spell: None, reuse: true, reserved }
}

/// Whether a zone lets a mana ability be activated.
pub open spec fn zone_allows(zone: Option<ZoneType>, activation: Option<ZoneType>) -> bool {
    match zone {
        Some(ZoneType::Battlefield) => activation != Some(ZoneType::Hand),
        Some(ZoneType::Hand) => activation == Some(ZoneType::Hand),
        _ => false,
    }
}

/// Whether an ability is a mana ability that can be activated.
pub open spec fn mana_ability_payable(
    game: GameState,
    st: PayingView,
    player: PlayerId,
    id: CardId,
    ab: ActivatedAbility,
    reserved: Seq<CardId>,
    ctx: Option<ManaPaymentContext>,
) -> bool {
    &&& ab.is_mana_ability
    &&& zone_allows(st.zone_of(game, id), ab.activation_zone)
    &&& !has_mana(ab.cost@)
    &&& payable_ignoring_mana(game, st, id, ab)
    &&& ab.script_requirements_met
    &&& restriction_met(
        string_of(ab.restrict_valid),
        match game.card_at(id) {
            Some(c) => string_of(c.chosen_type),
            None => None,
        },
        ctx,
    )
    &&& parts_payable(open_scene(game, player, reserved), st, id, ab.cost@)
}

/// Says whether an ability is a mana ability that can be activated.
pub fn is_payable_mana_ability(
    game: &GameState,
    st: &Paying,
    player: PlayerId,
    id: CardId,
    ab: &ActivatedAbility,
    reserved: &Vec<CardId>,
    ctx: Option<&ManaPaymentContext>,
) -> (r: bool)
    ensures
        r == mana_ability_payable(
            *game,
            st@,
            player,
            id,
            *ab,
            reserved@,
            context_of(ctx),
        ),
{
    if !ab.is_mana_ability {
        return false;
    }
    let allowed = match st.find_zone(game, id) {
        Some(ZoneType::Battlefield) => match ab.activation_zone {
            Some(z) => z != ZoneType::Hand,
            None => true,
        },
        Some(ZoneType::Hand) => match ab.activation_zone {
            Some(z) => z == ZoneType::Hand,
            None => false,
        },
        _ => false,
    };
    if !allowed || check_mana(&ab.cost) || !can_pay_ignoring_mana(game, st, id, ab)
        || !ab.script_requirements_met {
        return false;
    }
    let ok = match game.card(id) {
        Some(c) => check_restriction(&ab.restrict_valid, &c.chosen_type, ctx),
        None => check_restriction(&ab.restrict_valid, &None, ctx),
    };
    if !ok {
        return false;
    }
    let scene = PayScene { game, player, spell: None, reuse: true, reserved };
    assert(scene@ =~= open_scene(*game, player, reserved@));
    can_pay_parts(scene, st, id, &ab.cost)
}

/// Whether one of the abilities of a card is a mana ability that can be activated.
pub open spec fn some_payable(
    game: GameState,
    st: PayingView,
    player: PlayerId,
    id: CardId,
    reserved: Seq<CardId>,
) -> bool {
    match game.card_at(id) {
        Some(c) => exists|i: int|
            0 <= i < c.activated_abilities@.len() && mana_ability_payable(
                game,
                st,
                player,
                id,
                #[trigger] c.activated_abilities@[i],
                reserved,
                None,
            ),
        None => false,
    }
}

fn check_some_payable(
    game: &GameState,
    st: &Paying,
    player: PlayerId,
    id: CardId,
    reserved: &Vec<CardId>,
) -> (r: bool)
    ensures
        r == some_payable(*game, st@, player, id, reserved@),
{
    match game.card(id) {
        Some(c) => {
            let mut i: usize = 0;
            while i < c.activated_abilities.len()
                invariant
                    i <= c.activated_abilities@.len(),
                    game.card_at(id) == Some(*c),
                    forall|k: int|
                        0 <= k < i ==> !mana_ability_payable(
                            *game,
                            st@,
                            player,
                            id,
                            #[trigger] c.activated_abilities@[k],
                            reserved@,
                            None,
                        ),
                decreases c.activated_abilities@.len() - i,
            {
                if is_payable_mana_ability(
                    game,
                    st,
                    player,
                    id,
                    &c.activated_abilities[i],
                    reserved,
                    None,
                ) {
                    assert(mana_ability_payable(
                        *game,
                        st@,
                        player,
                        id,
                        c.activated_abilities@[i as int],
                        reserved@,
                        None,
                    ));
                    return true;
                }
                i = i + 1;
            }
            false
        },
        None => false,
    }
}

/// Whether a card is a source of mana: by an ability, or as a land of a basic type.
pub open spec fn is_source(
    game: GameState,
    st: PayingView,
    player: PlayerId,
    id: CardId,
    reserved: Seq<CardId>,
) -> bool {
    some_payable(game, st, player, id, reserved) || match game.card_at(id) {
        Some(c) => st.zone_of(game, id) == Some(ZoneType::Battlefield) && c.types.land && can_tap(
            game,
            st,
            id,
        ) && c.land_atoms@.len() > 0,
        None => false,
    }
}

fn check_source(
    game: &GameState,
    st: &Paying,
    player: PlayerId,
    id: CardId,
    reserved: &Vec<CardId>,
) -> (r: bool)
    ensures
        r == is_source(*game, st@, player, id, reserved@),
{
    if check_some_payable(game, st, player, id, reserved) {
        return true;
    }
    match game.card(id) {
        Some(c) => {
            let there = match st.find_zone(game, id) {
                Some(z) => z == ZoneType::Battlefield,
                None => false,
            };
            there && c.types.land && check_can_tap(game, st, id) && c.land_atoms.len() > 0
        },
        None => false,
    }
}

pub open spec fn sources_among(
    game: GameState,
    st: PayingView,
    player: PlayerId,
    ids: Seq<CardId>,
    reserved: Seq<CardId>,
    by_ability: bool,
) -> Seq<CardId>
    decreases ids.len(),
{
    if ids.len() == 0 {
        Seq::empty()
    } else {
        let before = sources_among(game, st, player, ids.drop_last(), reserved, by_ability);
        let id = ids.last();
        if (by_ability && some_payable(game, st, player, id, reserved)) || (!by_ability
            && is_source(game, st, player, id, reserved)) {
            before.push(id)
        } else {
            before
        }
    }
}

/// The sources of mana of a player: first those on the battlefield, then those in hand.
pub open spec fn available_sources(
    game: GameState,
    st: PayingView,
    player: PlayerId,
    reserved: Seq<CardId>,
) -> Seq<CardId> {
    sources_among(
        game,
        st,
        player,
        st.in_zone(game, ZoneType::Battlefield, player),
        reserved,
        false,
    ) + sources_among(
        game,
        st,
        player,
        st.in_zone(game, ZoneType::Hand, player),
        reserved,
        true,
    )
}

fn add_sources(
    game: &GameState,
    st: &Paying,
    player: PlayerId,
    ids: &Vec<CardId>,
    reserved: &Vec<CardId>,
    by_ability: bool,
    out: &mut Vec<CardId>,
)
    ensures
        final(out)@ == old(out)@ + sources_among(
            *game,
            st@,
            player,
            ids@,
            reserved@,
            by_ability,
        ),
{
    let ghost start = out@;
    let ghost all = ids@;
    let mut i: usize = 0;
    assert(start + sources_among(*game, st@, player, all.take(0), reserved@, by_ability) =~= start);
    while i < ids.len()
        invariant
            i <= all.len(),
            all == ids@,
            out@ == start + sources_among(
                *game,
                st@,
                player,
                all.take(i as int),
                reserved@,
                by_ability,
            ),
        decreases all.len() - i,
    {
        assert(all.take(i + 1).drop_last() =~= all.take(i as int));
        let ok = if by_ability {
            check_some_payable(game, st, player, ids[i], reserved)
        } else {
            check_source(game, st, player, ids[i], reserved)
        };
        if ok {
            let ghost before = sources_among(
                *game,
                st@,
                player,
                all.take(i as int),
                reserved@,
                by_ability,
            );
            assert((start + before).push(all[i as int]) =~= start + before.push(all[i as int]));
            out.push(ids[i]);
        }
        i = i + 1;
    }
    assert(all.take(i as int) =~= all);
}

/// Lists the sources of mana of a player.
pub fn get_available_mana_sources(
    game: &GameState,
    st: &Paying,
    player: PlayerId,
    reserved: &Vec<CardId>,
) -> (r: Vec<CardId>)
    ensures
        r@ == available_sources(*game, st@, player, reserved@),
{
    let mut out: Vec<CardId> = Vec::new();
    let field = st.cards_in_zone(game, ZoneType::Battlefield, player);
    add_sources(game, st, player, &field, reserved, false, &mut out);
    let ghost first = out@;
    assert(first =~= sources_among(*game, st@, player, field@, reserved@, false));
    let hand = st.cards_in_zone(game, ZoneType::Hand, player);
    add_sources(game, st, player, &hand, reserved, true, &mut out);
    out
}

// ---- drawbacks ----

/// Whether the abilities that come with a mana ability have no drawback. There are no more of them
/// in a row than the card has script variables, unless they lead back to each other.
pub open spec fn harmless(card: Card, name: Seq<char>) -> bool {
    no_drawback(card, name, card.svars@.len())
}

/// Whether so many abilities in a row have no drawback.
pub open spec fn no_drawback(card: Card, name: Seq<char>, fuel: nat) -> bool
    decreases fuel, 1int,
{
    match svar_value(card.svars@, name) {
        None => true,
        Some(raw) => {
            let p = params_of(raw);
            no_drawback_itself(card, p, fuel) && match found(p, "SubAbility"@) {
                Some(next) => fuel > 0 ==> no_drawback(card, next, (fuel - 1) as nat),
                None => true,
            }
        },
    }
}

pub open spec fn no_drawback_itself(card: Card, p: Map<Seq<char>, Seq<char>>, fuel: nat) -> bool
    decreases fuel, 0int,
{
    let always = found(p, "AILogic"@) == Some("Always"@);
    match found(p, "DB"@) {
        Some(api) => if api == "DelayedTrigger"@ || api == "ImmediateTrigger"@ {
            always || match found(p, "Execute"@) {
                Some(next) => fuel > 0 ==> no_drawback(card, next, (fuel - 1) as nat),
                None => false,
            }
        } else if api == "CopySpellAbility"@ {
            always
        } else {
            true
        },
        None => true,
    }
}

fn is_text(v: Option<&str>, t: &str) -> (r: bool)
    ensures
        r == (text_of(v) == Some(t@)),
{
    match v {
        Some(s) => text_eq(s, t),
        None => false,
    }
}

/// Says whether the abilities that come with a mana ability have no drawback.
pub fn chk_drawback_with_subs(card: &Card, name: &str) -> (r: bool)
    ensures
        r == harmless(*card, name@),
{
    chk_links(card, name, card.svars.len())
}

fn chk_links(card: &Card, name: &str, fuel: usize) -> (r: bool)
    ensures
        r == no_drawback(*card, name@, fuel as nat),
    decreases fuel, 1int,
{
    match find_svar(&card.svars, name) {
        None => true,
        Some(raw) => {
            let p = Params::from_raw(raw);
            if !chk_drawback(card, &p, fuel) {
                return false;
            }
            match p.get("SubAbility") {
                Some(next) => if fuel > 0 {
                    chk_links(card, next, fuel - 1)
                } else {
                    true
                },
                None => true,
            }
        },
    }
}

fn chk_drawback(card: &Card, p: &Params, fuel: usize) -> (r: bool)
    requires
        p.wf(),
    ensures
        r == no_drawback_itself(*card, p@, fuel as nat),
    decreases fuel, 0int,
{
    let always = is_text(p.get("AILogic"), "Always");
    match p.get("DB") {
        Some(api) => {
            if text_eq(api, "DelayedTrigger") || text_eq(api, "ImmediateTrigger") {
                if always {
                    return true;
                }
                match p.get("Execute") {
                    Some(next) => if fuel > 0 {
                        chk_links(card, next, fuel - 1)
                    } else {
                        true
                    },
                    None => false,
                }
            } else if text_eq(api, "CopySpellAbility") {
                always
            } else {
                true
            }
        },
        None => true,
    }
}

// ---- ways to pay ----

/// Whether the life that a cost asks for would leave none.
pub open spec fn costs_last_life(life: i32, cost: Seq<CostPart>) -> bool {
    exists|i: int|
        0 <= i < cost.len() && ((#[trigger] cost[i]) matches CostPart::PayLife(n)
            && life.wrapping_sub(n) < 1)
}

fn check_last_life(life: i32, cost: &Vec<CostPart>) -> (r: bool)
    ensures
        r == costs_last_life(life, cost@),
{
    let mut i: usize = 0;
    while i < cost.len()
        invariant
            i <= cost@.len(),
            forall|k: int|
                0 <= k < i ==> !((#[trigger] cost@[k]) matches CostPart::PayLife(n)
                    && life.wrapping_sub(n) < 1),
        decreases cost@.len() - i,
    {
        if let CostPart::PayLife(n) = &cost[i] {
            if life.wrapping_sub(*n) < 1 {
                assert(cost@[i as int] matches CostPart::PayLife(n) && life.wrapping_sub(n) < 1);
                return true;
            }
        }
        i = i + 1;
    }
    false
}

/// The atoms that an ability can make, and how many of them it makes together.
pub open spec fn produced_atoms(
    game: GameState,
    player: PlayerId,
    ab: ActivatedAbility,
    p: ProducedMana,
) -> (Seq<u16>, i32) {
    let together = match p.fixed {
        Some(a) => a@.len() as i32,
        None => 1,
    };
    if p.combo_color_identity {
        (
            match game.player_at(player) {
                Some(q) => q.commander_atoms@,
                None => Seq::empty(),
            },
            together,
        )
    } else if p.special {
        (
            p.special_atoms@,
            if p.special_atoms@.len() == 0 {
                1
            } else {
                p.special_atoms@.len() as i32
            },
        )
    } else if game.produce_mana_replaced {
        (ab.replaced_atoms@, together)
    } else {
        (p.atoms@, together)
    }
}

fn list_produced_atoms(
    game: &GameState,
    player: PlayerId,
    ab: &ActivatedAbility,
    p: &ProducedMana,
) -> (r: (Vec<u16>, i32))
    ensures
        (r.0@, r.1) == produced_atoms(*game, player, *ab, *p),
{
    let together: i32 = match &p.fixed {
        Some(a) => a.len() as i32,
        None => 1,
    };
    if p.combo_color_identity {
        match game.player(player) {
            Some(q) => (copy_atoms(&q.commander_atoms), together),
            None => (Vec::new(), together),
        }
    } else if p.special {
        let n: i32 = if p.special_atoms.len() == 0 {
            1
        } else {
            p.special_atoms.len() as i32
        };
        (copy_atoms(&p.special_atoms), n)
    } else if game.produce_mana_replaced {
        (copy_atoms(&ab.replaced_atoms), together)
    } else {
        (copy_atoms(&p.atoms), together)
    }
}

/// A way to pay with an ability of a card, with what its production says.
pub open spec fn ref_with(
    card: CardId,
    ab: ActivatedAbility,
    atoms: Seq<u16>,
    amount: i32,
    order: usize,
) -> RefView {
    match ab.produced {
        Some(p) => RefView {
            card_id: card,
            ability_index: Some(ab.ability_index),
            atoms,
            amount,
            mana_text: p.text@,
            combo_color_identity: p.combo_color_identity,
            combo: p.combo,
            any_like: p.any_like,
            special: p.special,
            fixed: atoms_of(p.fixed),
            special_atoms: p.special_atoms@,
            source_order: order,
        },
        None => RefView {
            card_id: card,
            ability_index: Some(ab.ability_index),
            atoms,
            amount,
            mana_text: "1"@,
            combo_color_identity: false,
            combo: false,
            any_like: false,
            special: false,
            fixed: None,
            special_atoms: Seq::empty(),
            source_order: order,
        },
    }
}

pub fn make_ref(card: CardId, ab: &ActivatedAbility, atoms: Vec<u16>, amount: i32, order: usize) -> (r:
    ManaAbilityRef)
    ensures
        r@ == ref_with(card, *ab, atoms@, amount, order),
{
    match &ab.produced {
        Some(p) => {
            let fixed = match &p.fixed {
                Some(a) => Some(copy_atoms(a)),
                None => None,
            };
            ManaAbilityRef {
                card_id: card,
                ability_index: Some(ab.ability_index),
                atoms,
                amount,
                mana_text: p.text.as_str().to_string(),
                combo_color_identity: p.combo_color_identity,
                combo: p.combo,
                any_like: p.any_like,
                special: p.special,
                fixed,
                special_atoms: copy_atoms(&p.special_atoms),
                source_order: order,
            }
        },
        None => {
            let r = ManaAbilityRef {
                card_id: card,
                ability_index: Some(ab.ability_index),
                atoms,
                amount,
                mana_text: "1".to_string(),
                combo_color_identity: false,
                combo: false,
                any_like: false,
                special: false,
                fixed: None,
                special_atoms: Vec::new(),
                source_order: order,
            };
            assert(r@ =~= ref_with(card, *ab, atoms@, amount, order));
            r
        },
    }
}

/// The way to pay that an ability gives. In a probe, one that costs the last life or that has a
/// drawback gives none, and reflecting ones count by what they could make.
pub open spec fn ability_ref(
    game: GameState,
    st: PayingView,
    player: PlayerId,
    card: CardId,
    ab: ActivatedAbility,
    reserved: Seq<CardId>,
    ctx: Option<ManaPaymentContext>,
    probe: bool,
    order: usize,
) -> Option<RefView> {
    let c = game.card_at(card)->0;
    let base = base_amount(string_of(ab.amount), game, card, player);
    if game.card_at(card) is None || !mana_ability_payable(
        game,
        st,
        player,
        card,
        ab,
        reserved,
        ctx,
    ) {
        None
    } else if probe && costs_last_life(st.life_of(game, player), ab.cost@) {
        None
    } else if probe && (string_of(ab.sub_ability) matches Some(sub) && !harmless(c, sub)) {
        None
    } else if ab.is_mana_reflected {
        let atoms = if probe {
            ab.reflected_available_atoms@
        } else {
            ab.reflected_atoms@
        };
        if atoms.len() == 0 {
            None
        } else {
            Some(ref_with(card, ab, atoms, base, order))
        }
    } else {
        match ab.produced {
            Some(p) => {
                let (atoms, together) = produced_atoms(game, player, ab, p);
                if atoms.len() == 0 && !p.combo_color_identity {
                    None
                } else {
                    Some(
                        ref_with(
                            card,
                            ab,
                            atoms,
                            base.wrapping_mul(together).wrapping_mul(
                                most_units(game, card, player, atoms),
                            ),
                            order,
                        ),
                    )
                }
            },
            None => None,
        }
    }
}

fn find_ability_ref(
    game: &GameState,
    st: &Paying,
    player: PlayerId,
    card: CardId,
    ab: &ActivatedAbility,
    reserved: &Vec<CardId>,
    ctx: Option<&ManaPaymentContext>,
    probe: bool,
    order: usize,
) -> (r: Option<ManaAbilityRef>)
    ensures
        match r {
            Some(m) => ability_ref(
                *game,
                st@,
                player,
                card,
                *ab,
                reserved@,
                context_of(ctx),
                probe,
                order,
            ) == Some(m@),
            None => ability_ref(
                *game,
                st@,
                player,
                card,
                *ab,
                reserved@,
                context_of(ctx),
                probe,
                order,
            ) is None,
        },
{
    let c = match game.card(card) {
        Some(c) => c,
        None => {
            return None;
        },
    };
    if !is_payable_mana_ability(game, st, player, card, ab, reserved, ctx) {
        return None;
    }
    if probe && check_last_life(st.find_life(game, player), &ab.cost) {
        return None;
    }
    if probe {
        if let Some(sub) = &ab.sub_ability {
            if !chk_drawback_with_subs(c, sub.as_str()) {
                return None;
            }
        }
    }
    let base: i32 = parse_mana_ability_amount(&ab.amount, game, card, player);
    if ab.is_mana_reflected {
        let atoms = if probe {
            copy_atoms(&ab.reflected_available_atoms)
        } else {
            copy_atoms(&ab.reflected_atoms)
        };
        if atoms.len() == 0 {
            return None;
        }
        return Some(make_ref(card, ab, atoms, base, order));
    }
    match &ab.produced {
        Some(p) => {
            let (atoms, together) = list_produced_atoms(game, player, ab, p);
            if atoms.len() == 0 && !p.combo_color_identity {
                return None;
            }
            let most: i32 = find_most_units(game, card, player, &atoms);
            let amount: i32 = base.wrapping_mul(together).wrapping_mul(most);
            Some(make_ref(card, ab, atoms, amount, order))
        },
        None => None,
    }
}

/// The abilities of a card in the order in which they are looked at. In a probe those that use
/// nothing up come first, the last of them ahead.
pub open spec fn ability_order(abilities: Seq<ActivatedAbility>, probe: bool, n: nat) -> Seq<int>
    decreases n,
{
    if n == 0 {
        Seq::empty()
    } else {
        let before = ability_order(abilities, probe, (n - 1) as nat);
        if probe && all_reusable(abilities[n - 1].cost@) {
            seq![n - 1] + before
        } else {
            before.push(n - 1)
        }
    }
}

pub open spec fn as_ints(v: Seq<usize>) -> Seq<int> {
    Seq::new(v.len(), |i: int| v[i] as int)
}

fn list_ability_order(abilities: &Vec<ActivatedAbility>, probe: bool) -> (r: Vec<usize>)
    ensures
        as_ints(r@) == ability_order(abilities@, probe, abilities@.len()),
        forall|i: int| 0 <= i < r@.len() ==> #[trigger] r@[i] < abilities@.len(),
{
    let mut out: Vec<usize> = Vec::new();
    let mut i: usize = 0;
    assert(as_ints(out@) =~= ability_order(abilities@, probe, 0));
    while i < abilities.len()
        invariant
            i <= abilities@.len(),
            as_ints(out@) == ability_order(abilities@, probe, i as nat),
            forall|k: int| 0 <= k < out@.len() ==> #[trigger] out@[k] < abilities@.len(),
        decreases abilities@.len() - i,
    {
        let ghost before = out@;
        if probe && is_reusable_resource(&abilities[i].cost) {
            out.insert(0, i);
            assert(as_ints(out@) =~= seq![i as int] + as_ints(before));
        } else {
            out.push(i);
            assert(as_ints(out@) =~= as_ints(before).push(i as int));
        }
        i = i + 1;
    }
    out
}

/// The ways to pay that abilities of a card give, behind others.
pub open spec fn with_ability_refs(
    game: GameState,
    st: PayingView,
    player: PlayerId,
    card: CardId,
    abilities: Seq<ActivatedAbility>,
    order: Seq<int>,
    reserved: Seq<CardId>,
    ctx: Option<ManaPaymentContext>,
    probe: bool,
    refs: Seq<RefView>,
) -> Seq<RefView>
    decreases order.len(),
{
    if order.len() == 0 {
        refs
    } else {
        let before = with_ability_refs(
            game,
            st,
            player,
            card,
            abilities,
            order.drop_last(),
            reserved,
            ctx,
            probe,
            refs,
        );
        match ability_ref(
            game,
            st,
            player,
            card,
            abilities[order.last()],
            reserved,
            ctx,
            probe,
            before.len() as usize,
        ) {
            Some(r) => before.push(r),
            None => before,
        }
    }
}

/// The way to pay that a basic type of a land gives.
pub open spec fn land_ref(game: GameState, player: PlayerId, card: CardId, atom: u16, order: usize) -> RefView {
    let n = replacement_units(game, card, player, atom);
    RefView {
        card_id: card,
        ability_index: None,
        atoms: seq![atom],
        amount: if n < 1 {
            1
        } else {
            n
        },
        mana_text: letter_of(atom),
        combo_color_identity: false,
        combo: false,
        any_like: false,
        special: false,
        fixed: None,
        special_atoms: Seq::empty(),
        source_order: order,
    }
}

pub open spec fn with_land_refs(
    game: GameState,
    player: PlayerId,
    card: CardId,
    atoms: Seq<u16>,
    refs: Seq<RefView>,
) -> Seq<RefView>
    decreases atoms.len(),
{
    if atoms.len() == 0 {
        refs
    } else {
        let before = with_land_refs(game, player, card, atoms.drop_last(), refs);
        before.push(land_ref(game, player, card, atoms.last(), before.len() as usize))
    }
}

/// The ways to pay that a card gives, behind others. A land without a mana ability that can be
/// used pays by its basic types.
pub open spec fn with_card_refs(
    game: GameState,
    st: PayingView,
    player: PlayerId,
    card: CardId,
    reserved: Seq<CardId>,
    ctx: Option<ManaPaymentContext>,
    probe: bool,
    refs: Seq<RefView>,
) -> Seq<RefView> {
    match game.card_at(card) {
        Some(c) => {
            let abilities = c.activated_abilities@;
            let after = with_ability_refs(
                game,
                st,
                player,
                card,
                abilities,
                ability_order(abilities, probe, abilities.len()),
                reserved,
                ctx,
                probe,
                refs,
            );
            if after.len() == refs.len() && st.zone_of(game, card) == Some(ZoneType::Battlefield)
                && c.types.land && !st.is_tapped(game, card) {
                with_land_refs(game, player, card, c.land_atoms@, after)
            } else {
                after
            }
        },
        None => refs,
    }
}

/// The ways to pay that sources give.
pub open spec fn all_refs(
    game: GameState,
    st: PayingView,
    player: PlayerId,
    sources: Seq<CardId>,
    reserved: Seq<CardId>,
    ctx: Option<ManaPaymentContext>,
    probe: bool,
) -> Seq<RefView>
    decreases sources.len(),
{
    if sources.len() == 0 {
        Seq::empty()
    } else {
        with_card_refs(
            game,
            st,
            player,
            sources.last(),
            reserved,
            ctx,
            probe,
            all_refs(game, st, player, sources.drop_last(), reserved, ctx, probe),
        )
    }
}

fn add_ability_refs(
    game: &GameState,
    st: &Paying,
    player: PlayerId,
    card: CardId,
    c: &Card,
    reserved: &Vec<CardId>,
    ctx: Option<&ManaPaymentContext>,
    probe: bool,
    refs: &mut Vec<ManaAbilityRef>,
)
    ensures
        ref_views(final(refs)@) == with_ability_refs(
            *game,
            st@,
            player,
            card,
            c.activated_abilities@,
            ability_order(c.activated_abilities@, probe, c.activated_abilities@.len()),
            reserved@,
            context_of(ctx),
            probe,
            ref_views(old(refs)@),
        ),
{
    let abilities = &c.activated_abilities;
    let order = list_ability_order(abilities, probe);
    let ghost all = as_ints(order@);
    let ghost start = ref_views(refs@);
    let mut i: usize = 0;
    while i < order.len()
        invariant
            i <= all.len(),
            all == as_ints(order@),
            abilities@ == c.activated_abilities@,
            forall|k: int| 0 <= k < order@.len() ==> #[trigger] order@[k] < abilities@.len(),
            ref_views(refs@) == with_ability_refs(
                *game,
                st@,
                player,
                card,
                c.activated_abilities@,
                all.take(i as int),
                reserved@,
                context_of(ctx),
                probe,
                start,
            ),
        decreases all.len() - i,
    {
        assert(all.take(i + 1).drop_last() =~= all.take(i as int));
        assert(all.take(i + 1).last() == order@[i as int] as int);
        let n: usize = refs.len();
        assert(ref_views(refs@).len() == n);
        if let Some(m) = find_ability_ref(
            game,
            st,
            player,
            card,
            &abilities[order[i]],
            reserved,
            ctx,
            probe,
            n,
        ) {
            let ghost before = refs@;
            refs.push(m);
            assert(ref_views(refs@) =~= ref_views(before).push(m@));
        }
        i = i + 1;
    }
    assert(all.take(i as int) =~= all);
}

fn add_land_refs(
    game: &GameState,
    player: PlayerId,
    card: CardId,
    atoms: &Vec<u16>,
    refs: &mut Vec<ManaAbilityRef>,
)
    ensures
        ref_views(final(refs)@) == with_land_refs(
            *game,
            player,
            card,
            atoms@,
            ref_views(old(refs)@),
        ),
{
    let ghost all = atoms@;
    let ghost start = ref_views(refs@);
    let mut i: usize = 0;
    while i < atoms.len()
        invariant
            i <= all.len(),
            all == atoms@,
            ref_views(refs@) == with_land_refs(*game, player, card, all.take(i as int), start),
        decreases all.len() - i,
    {
        assert(all.take(i + 1).drop_last() =~= all.take(i as int));
        let atom: u16 = atoms[i];
        let n: i32 = count_units(game, card, player, atom);
        let order: usize = refs.len();
        assert(ref_views(refs@).len() == order);
        let mut own: Vec<u16> = Vec::new();
        own.push(atom);
        let m = ManaAbilityRef {
            card_id: card,
            ability_index: None,
            atoms: own,
            amount: if n < 1 {
                1
            } else {
                n
            },
            mana_text: atom_short(atom).to_string(),
            combo_color_identity: false,
            combo: false,
            any_like: false,
            special: false,
            fixed: None,
            special_atoms: Vec::new(),
            source_order: order,
        };
        assert(m@ =~= land_ref(*game, player, card, atom, order));
        let ghost before = refs@;
        refs.push(m);
        assert(ref_views(refs@) =~= ref_views(before).push(m@));
        i = i + 1;
    }
    assert(all.take(i as int) =~= all);
}

/// Lists the ways to pay that sources give.
pub fn list_refs(
    game: &GameState,
    st: &Paying,
    player: PlayerId,
    sources: &Vec<CardId>,
    reserved: &Vec<CardId>,
    ctx: Option<&ManaPaymentContext>,
    probe: bool,
) -> (r: Vec<ManaAbilityRef>)
    ensures
        ref_views(r@) == all_refs(
            *game,
            st@,
            player,
            sources@,
            reserved@,
            context_of(ctx),
            probe,
        ),
{
    let ghost all = sources@;
    let mut refs: Vec<ManaAbilityRef> = Vec::new();
    let mut i: usize = 0;
    assert(ref_views(refs@) =~= Seq::<RefView>::empty());
    while i < sources.len()
        invariant
            i <= all.len(),
            all == sources@,
            ref_views(refs@) == all_refs(
                *game,
                st@,
                player,
                all.take(i as int),
                reserved@,
                context_of(ctx),
                probe,
            ),
        decreases all.len() - i,
    {
        assert(all.take(i + 1).drop_last() =~= all.take(i as int));
        let id = sources[i];
        if let Some(c) = game.card(id) {
            let ghost before = ref_views(refs@);
            let n: usize = refs.len();
            assert(before.len() == n);
            add_ability_refs(game, st, player, id, c, reserved, ctx, probe, &mut refs);
            assert(ref_views(refs@).len() == refs@.len());
            let there = match st.find_zone(game, id) {
                Some(z) => z == ZoneType::Battlefield,
                None => false,
            };
            if refs.len() == n && there && c.types.land && !st.check_tapped(game, id) {
                add_land_refs(game, player, id, &c.land_atoms, &mut refs);
            }
        }
        i = i + 1;
    }
    assert(all.take(i as int) =~= all);
    refs
}

// ---- by color ----

/// The map of ways to pay with those of an atom list under its atoms.
pub open spec fn under_atoms(
    map: Seq<(i32, Seq<usize>)>,
    atoms: Seq<u16>,
    index: usize,
) -> Seq<(i32, Seq<usize>)>
    decreases atoms.len(),
{
    if atoms.len() == 0 {
        map
    } else {
        with_value(under_atoms(map, atoms.drop_last(), index), atoms.last() as i32, index)
    }
}

/// Ways to pay by what they pay: each under generic mana, and under each of its atoms.
pub open spec fn grouped(refs: Seq<RefView>, n: nat) -> Seq<(i32, Seq<usize>)>
    decreases n,
{
    if n == 0 {
        Seq::empty()
    } else {
        let before = grouped(refs, (n - 1) as nat);
        under_atoms(
            with_value(before, GENERIC as i32, (n - 1) as usize),
            refs[n - 1].atoms,
            (n - 1) as usize,
        )
    }
}

fn add_mana_ability_to_color_map(
    map: &mut IndexMap<i32, Vec<usize>>,
    atoms: &Vec<u16>,
    index: usize,
)
    ensures
        entries_of(*final(map)) == under_atoms(
            with_value(entries_of(*old(map)), GENERIC as i32, index),
            atoms@,
            index,
        ),
{
    push_value(map, GENERIC as i32, index);
    let ghost start = entries_of(*map);
    let ghost all = atoms@;
    let mut i: usize = 0;
    while i < atoms.len()
        invariant
            i <= all.len(),
            all == atoms@,
            entries_of(*map) == under_atoms(start, all.take(i as int), index),
        decreases all.len() - i,
    {
        assert(all.take(i + 1).drop_last() =~= all.take(i as int));
        push_value(map, atoms[i] as i32, index);
        i = i + 1;
    }
    assert(all.take(i as int) =~= all);
}

/// Groups ways to pay by what they pay. The map has their places.
pub fn group_by_color(refs: &Vec<ManaAbilityRef>) -> (r: IndexMap<i32, Vec<usize>>)
    ensures
        entries_of(r) == grouped(ref_views(refs@), refs@.len()),
{
    let mut map = new_map();
    let ghost views = ref_views(refs@);
    let mut i: usize = 0;
    while i < refs.len()
        invariant
            i <= refs@.len(),
            views == ref_views(refs@),
            entries_of(map) == grouped(views, i as nat),
        decreases refs@.len() - i,
    {
        assert(views[i as int] == refs@[i as int]@);
        add_mana_ability_to_color_map(&mut map, &refs[i].atoms, i);
        i = i + 1;
    }
    map
}

/// Ways to pay, and the same by what they pay.
pub struct GroupedSources {
    pub refs: Vec<ManaAbilityRef>,
    pub map: IndexMap<i32, Vec<usize>>,
}

/// Groups the ways to pay that sources give by what they pay.
pub fn group_mana_sources_by_color(
    game: &GameState,
    st: &Paying,
    player: PlayerId,
    sources: &Vec<CardId>,
    reserved: &Vec<CardId>,
    ctx: Option<&ManaPaymentContext>,
    probe: bool,
) -> (r: GroupedSources)
    ensures
        ref_views(r.refs@) == all_refs(
            *game,
            st@,
            player,
            sources@,
            reserved@,
            context_of(ctx),
            probe,
        ),
        entries_of(r.map) == grouped(ref_views(r.refs@), r.refs@.len()),
{
    let refs = list_refs(game, st, player, sources, reserved, ctx, probe);
    let map = group_by_color(&refs);
    GroupedSources { refs, map }
}

/// Groups the ways to pay of a player by what they pay.
pub fn group_sources_by_mana_color(
    game: &GameState,
    st: &Paying,
    player: PlayerId,
    reserved: &Vec<CardId>,
    ctx: Option<&ManaPaymentContext>,
    probe: bool,
) -> (r: GroupedSources)
    ensures
        ref_views(r.refs@) == all_refs(
            *game,
            st@,
            player,
            available_sources(*game, st@, player, reserved@),
            reserved@,
            context_of(ctx),
            probe,
        ),
        entries_of(r.map) == grouped(ref_views(r.refs@), r.refs@.len()),
{
    let sources = get_available_mana_sources(game, st, player, reserved);
    group_mana_sources_by_color(game, st, player, &sources, reserved, ctx, probe)
}

proof fn lemma_sources_among(
    game: GameState,
    st: PayingView,
    player: PlayerId,
    ids: Seq<CardId>,
    reserved: Seq<CardId>,
    by_ability: bool,
    id: CardId,
)
    requires
        sources_among(game, st, player, ids, reserved, by_ability).contains(id),
    ensures
        is_source(game, st, player, id, reserved),
    decreases ids.len(),
{
    let all = sources_among(game, st, player, ids, reserved, by_ability);
    let i = choose|i: int| 0 <= i < all.len() && all[i] == id;
    let before = sources_among(game, st, player, ids.drop_last(), reserved, by_ability);
    if i < before.len() {
        assert(before[i] == id);
        lemma_sources_among(game, st, player, ids.drop_last(), reserved, by_ability, id);
    }
}

/// A card that is tapped is no source any more, where all that it makes mana with taps it. Neither
/// is one that has left for a zone other than the battlefield and the hand.
pub proof fn law_used_sources_are_out(
    game: GameState,
    st: PayingView,
    player: PlayerId,
    id: CardId,
    reserved: Seq<CardId>,
)
    requires
        ({
            ||| st.is_tapped(game, id) && (game.card_at(id) matches Some(c) ==> forall|i: int|
                0 <= i < c.activated_abilities@.len()
                    && (#[trigger] c.activated_abilities@[i]).is_mana_ability ==> has_tap(
                    c.activated_abilities@[i].cost@,
                ))
            ||| st.zone_of(game, id) != Some(ZoneType::Battlefield) && st.zone_of(game, id) != Some(
                ZoneType::Hand,
            )
        }),
    ensures
        !available_sources(game, st, player, reserved).contains(id),
{
    let field = sources_among(
        game,
        st,
        player,
        st.in_zone(game, ZoneType::Battlefield, player),
        reserved,
        false,
    );
    let hand = sources_among(
        game,
        st,
        player,
        st.in_zone(game, ZoneType::Hand, player),
        reserved,
        true,
    );
    if available_sources(game, st, player, reserved).contains(id) {
        let i = choose|i: int| 0 <= i < (field + hand).len() && (field + hand)[i] == id;
        if i < field.len() {
            assert(field[i] == id);
            lemma_sources_among(
                game,
                st,
                player,
                st.in_zone(game, ZoneType::Battlefield, player),
                reserved,
                false,
                id,
            );
        } else {
            assert(hand[i - field.len()] == id);
            lemma_sources_among(
                game,
                st,
                player,
                st.in_zone(game, ZoneType::Hand, player),
                reserved,
                true,
                id,
            );
        }
    }
}

} // verus!
