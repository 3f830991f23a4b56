//! Replacement of damage.

use vstd::prelude::*;
use crate::game::{Card, GameState, Player};
use crate::lists::{has_text, texts_have};
use crate::parsing::params::string_of;
use crate::replacement::effect::ReplacementEffect;
use crate::replacement::event::{
    event_amount, event_kind, event_subject, with_amount, ReplacementEvent, ReplacementResult,
    ReplacementType,
};
use crate::replacement::rules::{
    allows_card, allows_player, apply_chain, card_allowed, chain_applied, player_allowed,
    read_result, result_named,
};
use crate::replacement::value::{replace_number, resolve_replace_value};
use crate::spell::GameEntity;
use crate::svar::math::{divide, quotient};
use crate::svar::simple::{compare_numbers, compared};
use crate::text::{cut_two_bytes, has_prefix, starts_with, text_eq, two_bytes};
use crate::types::{CardId, PlayerId};

verus! {

/// The source of damage, where it is known.
pub open spec fn damage_source(event: ReplacementEvent) -> Option<CardId> {
    match event {
        ReplacementEvent::DamageToCard { source, .. } => source,
        ReplacementEvent::DamageToPlayer { source, .. } => source,
        _ => None,
    }
}

pub open spec fn is_combat_damage(event: ReplacementEvent) -> bool {
    match event {
        ReplacementEvent::DamageToCard { is_combat, .. } => is_combat,
        ReplacementEvent::DamageToPlayer { is_combat, .. } => is_combat,
        _ => false,
    }
}

/// Whether an amount passes a threshold such as `GE3`; the operand may be a value of the event.
pub open spec fn passes_threshold(
    text: Seq<char>,
    amount: i32,
    game: GameState,
    host: Card,
    event: ReplacementEvent,
) -> bool {
    let (operator, operand) = match two_bytes(text) {
        Some(k) => (text.take(k), text.skip(k)),
        None => ("GE"@, ""@),
    };
    let right = match replace_number(operand, game, host.id, event) {
        Some(n) => n,
        None => 0,
    };
    compared(amount, operator, right)
}

fn check_threshold(
    text: &str,
    amount: i32,
    game: &GameState,
    host: &Card,
    event: &ReplacementEvent,
) -> (r: bool)
    ensures
        r == passes_threshold(text@, amount, *game, *host, *event),
{
    let (op, operand) = match cut_two_bytes(text) {
        Some(ends) => ends,
        None => ("GE", ""),
    };
    let right: i32 = match resolve_replace_value(operand, game, host.id, event) {
        Some(n) => n,
        None => 0,
    };
    compare_numbers(amount, op, right)
}

/// The keyword of those to whom damage cannot be redirected.
pub open spec fn fixed_damage() -> Seq<char> {
    "Damage that would be dealt to CARDNAME can't be redirected."@
}

pub open spec fn has_fixed_damage(game: GameState, target: GameEntity) -> bool {
    match target {
        GameEntity::Player(id) => match game.player_at(id) {
            Some(p) => texts_have(p.keywords@, fixed_damage()),
            None => false,
        },
        GameEntity::Card(id) => match game.card_at(id) {
            Some(c) => c.keyword(fixed_damage()),
            None => false,
        },
    }
}

fn check_fixed_damage(game: &GameState, target: GameEntity) -> (r: bool)
    ensures
        r == has_fixed_damage(*game, target),
{
    let keyword = "Damage that would be dealt to CARDNAME can't be redirected.";
    match target {
        GameEntity::Player(id) => match game.player(id) {
            Some(p) => has_text(&p.keywords, keyword),
            None => false,
        },
        GameEntity::Card(id) => match game.card(id) {
            Some(c) => c.has_keyword(keyword),
            None => false,
        },
    }
}

/// Whether a player has left the game.
pub open spec fn has_left(game: GameState, player: PlayerId) -> bool {
    match game.player_at(player) {
        Some(p) => p.left_game,
        None => false,
    }
}

fn check_left(game: &GameState, player: PlayerId) -> (r: bool)
    ensures
        r == has_left(*game, player),
{
    match game.player(player) {
        Some(p) => p.left_game,
        None => false,
    }
}

/// Whether the controller of a card is still there.
pub open spec fn controller_stays(game: GameState, card: CardId) -> bool {
    match game.card_at(card) {
        Some(c) => !has_left(game, c.controller),
        None => true,
    }
}

fn check_controller_stays(game: &GameState, card: CardId) -> (r: bool)
    ensures
        r == controller_stays(*game, card),
{
    match game.card(card) {
        Some(c) => !check_left(game, c.controller),
        None => true,
    }
}

/// Whether damage can go where an effect would redirect it.
pub open spec fn redirectable(
    def: Seq<char>,
    event: ReplacementEvent,
    game: GameState,
    host: Card,
) -> bool {
    &&& !has_fixed_damage(game, event_subject(event))
    &&& if has_prefix(def, "Replaced"@) {
        if def == "ReplacedSourceController"@ {
            damage_source(event) is Some && controller_stays(game, damage_source(event)->0)
        } else if def == "ReplacedTargetController"@ {
            event_subject(event) is Card && controller_stays(game, event_subject(event)->Card_0)
        } else {
            false
        }
    } else {
        let players = game.facts.players_defined(def, host.id);
        let cards = game.facts.cards_defined(def, host.id);
        &&& forall|i: int| 0 <= i < players.len() ==> !has_left(game, #[trigger] players[i])
        &&& forall|i: int|
            0 <= i < cards.len() ==> (match game.card_at(#[trigger] cards[i]) {
                Some(c) => c.can_be_dealt_damage,
                None => true,
            })
    }
}

fn check_redirectable(
    def: &str,
    target: GameEntity,
    source: Option<CardId>,
    game: &GameState,
    host: &Card,
    Ghost(event): Ghost<ReplacementEvent>,
) -> (r: bool)
    requires
        target == event_subject(event),
        source == damage_source(event),
    ensures
        r == redirectable(def@, event, *game, *host),
{
    if check_fixed_damage(game, target) {
        return false;
    }
    if starts_with(def, "Replaced") {
        if text_eq(def, "ReplacedSourceController") {
            return match source {
                Some(id) => check_controller_stays(game, id),
                None => false,
            };
        }
        if text_eq(def, "ReplacedTargetController") {
            return match target {
                GameEntity::Card(id) => check_controller_stays(game, id),
                GameEntity::Player(_) => false,
            };
        }
        return false;
    }
    let players = game.facts.get_defined_players(def, host.id);
    let mut i: usize = 0;
    while i < players.len()
        invariant
            i <= players@.len(),
            players@ == game.facts.players_defined(def@, host.id),
            !has_prefix(def@, "Replaced"@),
            forall|k: int| 0 <= k < i ==> !has_left(*game, #[trigger] players@[k]),
        decreases players@.len() - i,
    {
        if check_left(game, players[i]) {
            assert(has_left(*game, players@[i as int]));
            return false;
        }
        i = i + 1;
    }
    let cards = game.facts.get_defined_cards(def, host.id);
    let mut j: usize = 0;
    while j < cards.len()
        invariant
            j <= cards@.len(),
            cards@ == game.facts.cards_defined(def@, host.id),
            !has_prefix(def@, "Replaced"@),
            forall|k: int|
                0 <= k < j ==> (match game.card_at(#[trigger] cards@[k]) {
                    Some(c) => c.can_be_dealt_damage,
                    None => true,
                }),
        decreases cards@.len() - j,
    {
        if let Some(c) = game.card(cards[j]) {
            if !c.can_be_dealt_damage {
                assert(game.card_at(cards@[j as int]) == Some(*c));
                return false;
            }
        }
        j = j + 1;
    }
    true
}

/// Whether an effect on damage applies.
pub open spec fn damage_replaceable(
    e: ReplacementEffect,
    event: ReplacementEvent,
    game: GameState,
    host: Card,
) -> bool {
    &&& e.event == ReplacementType::DamageDone
    &&& event_kind(event) == ReplacementType::DamageDone
    &&& event_amount(event) is Some
    &&& event_amount(event)->0 > 0
    &&& e.valid_source is Some ==> damage_source(event) is Some && card_allowed(
        game.facts,
        string_of(e.valid_source),
        host,
        damage_source(event)->0,
    )
    &&& match event_subject(event) {
        GameEntity::Player(p) => player_allowed(game.facts, string_of(e.valid_target), host, p),
        GameEntity::Card(c) => card_allowed(game.facts, string_of(e.valid_target), host, c),
    }
    &&& e.max_speed matches Some(b) ==> b == has_max_speed(game, host.controller)
    &&& e.is_combat matches Some(b) ==> b == is_combat_damage(event)
    &&& e.damage_amount matches Some(t) ==> passes_threshold(
        t@,
        event_amount(event)->0,
        game,
        host,
        event,
    )
    &&& e.damage_target matches Some(t) ==> redirectable(t@, event, game, host)
}

pub open spec fn has_max_speed(game: GameState, player: PlayerId) -> bool {
    match game.player_at(player) {
        Some(p) => p.speed == 4,
        None => false,
    }
}

/// Checks whether an effect on damage applies.
pub fn can_replace(
    e: &ReplacementEffect,
    event: &ReplacementEvent,
    game: &GameState,
    host: &Card,
) -> (r: bool)
    ensures
        r == damage_replaceable(*e, *event, *game, *host),
{
    match e.event {
        ReplacementType::DamageDone => {},
        _ => {
            return false;
        },
    }
    let (target, amount, source, is_combat) = match event {
        ReplacementEvent::DamageToCard { target, amount, source, is_combat } => (
            GameEntity::Card(*target),
            *amount,
            *source,
            *is_combat,
        ),
        ReplacementEvent::DamageToPlayer { target, amount, source, is_combat } => (
            GameEntity::Player(*target),
            *amount,
            *source,
            *is_combat,
        ),
        _ => {
            return false;
        },
    };
    if amount <= 0 {
        return false;
    }
    if e.valid_source.is_some() {
        match source {
            Some(id) => {
                if !allows_card(&game.facts, &e.valid_source, host, id) {
                    return false;
                }
            },
            None => {
                return false;
            },
        }
    }
    let target_matches = match target {
        GameEntity::Player(p) => allows_player(&game.facts, &e.valid_target, host, p),
        GameEntity::Card(c) => allows_card(&game.facts, &e.valid_target, host, c),
    };
    if !target_matches {
        return false;
    }
    if let Some(wanted) = e.max_speed {
        let fast = match game.player(host.controller) {
            Some(p) => p.speed == 4,
            None => false,
        };
        if wanted != fast {
            return false;
        }
    }
    if let Some(wanted) = e.is_combat {
        if wanted != is_combat {
            return false;
        }
    }
    if let Some(t) = &e.damage_amount {
        if !check_threshold(t.as_str(), amount, game, host, event) {
            return false;
        }
    }
    if let Some(t) = &e.damage_target {
        if !check_redirectable(t.as_str(), target, source, game, host, Ghost(*event)) {
            return false;
        }
    }
    true
}

/// The amount that a built-in mode makes of damage.
pub open spec fn built_in_amount(mode: Option<Seq<char>>, amount: i32) -> Option<i32> {
    match mode {
        Some(m) => if m == "DmgTwice"@ || m == "DoubleDamage"@ {
            Some(amount.wrapping_mul(2))
        } else if m == "DmgHalf"@ || m == "HalfDamage"@ {
            Some(quotient(amount.wrapping_add(1), 2))
        } else if m == "DmgPlus1"@ {
            Some(amount.wrapping_add(1))
        } else if m == "DmgPlus2"@ {
            Some(amount.wrapping_add(2))
        } else {
            None
        },
        None => None,
    }
}

fn read_built_in(mode: &Option<String>, amount: i32) -> (r: Option<i32>)
    ensures
        r == built_in_amount(string_of(*mode), amount),
{
    match mode {
        Some(m) => {
            let t = m.as_str();
            if text_eq(t, "DmgTwice") || text_eq(t, "DoubleDamage") {
                Some(amount.wrapping_mul(2))
            } else if text_eq(t, "DmgHalf") || text_eq(t, "HalfDamage") {
                Some(divide(amount.wrapping_add(1), 2))
            } else if text_eq(t, "DmgPlus1") {
                Some(amount.wrapping_add(1))
            } else if text_eq(t, "DmgPlus2") {
                Some(amount.wrapping_add(2))
            } else {
                None
            }
        },
        None => None,
    }
}

/// What an effect does to damage.
pub open spec fn damage_executed(
    e: ReplacementEffect,
    game: GameState,
    source: CardId,
    before: ReplacementEvent,
    after: ReplacementEvent,
    result: ReplacementResult,
) -> bool {
    match event_amount(before) {
        Some(amount) if event_kind(before) == ReplacementType::DamageDone => if e.prevents {
            after == with_amount(before, 0) && result == ReplacementResult::Prevented
        } else if let Some(n) = built_in_amount(string_of(e.replace_with), amount) {
            after == with_amount(before, n) && result == ReplacementResult::Updated
        } else {
            exists|updated: bool|
                #[trigger] chain_applied(e, game, source, before, after, updated) && result
                    == match result_named(string_of(e.replacement_result)) {
                    Some(r) => r,
                    None => if updated {
                        ReplacementResult::Updated
                    } else {
                        ReplacementResult::Replaced
                    },
                }
        },
        _ => after == before && result == ReplacementResult::NotReplaced,
    }
}

/// Sets the amount of damage.
fn put_damage(event: &mut ReplacementEvent, n: i32)
    requires
        event_kind(*old(event)) == ReplacementType::DamageDone,
    ensures
        *final(event) == with_amount(*old(event), n),
{
    match event {
        ReplacementEvent::DamageToCard { amount, .. } => {
            *amount = n;
        },
        ReplacementEvent::DamageToPlayer { amount, .. } => {
            *amount = n;
        },
        _ => {},
    }
}

/// Carries an effect on damage out.
pub fn execute(
    e: &ReplacementEffect,
    event: &mut ReplacementEvent,
    game: &GameState,
    source: CardId,
) -> (r: ReplacementResult)
    ensures
        damage_executed(*e, *game, source, *old(event), *final(event), r),
{
    let amount: i32 = match event {
        ReplacementEvent::DamageToCard { amount, .. } => *amount,
        ReplacementEvent::DamageToPlayer { amount, .. } => *amount,
        _ => {
            return ReplacementResult::NotReplaced;
        },
    };
    if e.prevents {
        put_damage(event, 0);
        return ReplacementResult::Prevented;
    }
    if let Some(n) = read_built_in(&e.replace_with, amount) {
        put_damage(event, n);
        return ReplacementResult::Updated;
    }
    let updated = apply_chain(e, game, source, event);
    match read_result(&e.replacement_result) {
        Some(r) => r,
        None => if updated {
            ReplacementResult::Updated
        } else {
            ReplacementResult::Replaced
        },
    }
}

} // verus!
