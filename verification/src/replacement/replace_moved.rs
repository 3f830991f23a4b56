//! Replacement of the moves of cards.

use vstd::prelude::*;
use crate::game::{find_svar, svar_value, Card, GameState};
use crate::parsing::params::{string_of, text_of};
use crate::replacement::effect::ReplacementEffect;
use crate::replacement::event::{ReplacementEvent, ReplacementResult, ReplacementType};
use crate::replacement::kinds::{Begun, BegunView};
use crate::replacement::rules::{allows_card, card_allowed, read_result, result_named};
use crate::svar::facts::{read_zones, zones_listed};
use crate::text::{text_eq, trim, trimmed};
use crate::types::{CardId, ZoneType};

verus! {

/// Whether a zone is among those that a text lists; `Any` lists all.
pub open spec fn zone_listed(text: Seq<char>, zone: ZoneType) -> bool {
    trimmed(text) == "Any"@ || zones_listed(text).contains(zone)
}

pub fn zone_matches(text: &str, zone: ZoneType) -> (r: bool)
    ensures
        r == zone_listed(text@, zone),
{
    if text_eq(trim(text), "Any") {
        return true;
    }
    let zones = read_zones(text);
    crate::lists::has_zone(&zones, zone)
}

/// Whether an effect on moves applies.
pub open spec fn move_replaceable(
    e: ReplacementEffect,
    event: ReplacementEvent,
    game: GameState,
    host: Card,
) -> bool {
    match event {
        ReplacementEvent::Moved {
            card,
            origin,
            destination,
            is_discard,
            stack_sa,
            fizzle,
            ..
        } => {
            &&& e.event == ReplacementType::Moved
            &&& e.discard matches Some(b) ==> b == is_discard
            &&& e.destination matches Some(t) ==> zone_listed(t@, destination)
            &&& e.exclude_destination matches Some(t) ==> !zone_listed(t@, destination)
            &&& e.origin matches Some(t) ==> zone_listed(t@, origin)
            &&& card_allowed(game.facts, string_of(e.valid_card), host, card)
            &&& e.flashback_cast ==> cast_so(game, card, true)
            &&& e.harmonize_cast ==> cast_so(game, card, false)
            &&& card_allowed(game.facts, string_of(e.valid_lki), host, card)
            &&& e.valid_stack_sa matches Some(t) ==> (stack_sa matches Some(sa)
                && game.facts.matches_ability(t@, sa.id, host.id))
            &&& e.fizzle is Some ==> e.fizzle == fizzle
            &&& destination == ZoneType::Battlefield ==> e.enters_allowed
        },
        _ => false,
    }
}

/// Whether a card was cast with flashback, or with harmonize.
pub open spec fn cast_so(game: GameState, card: CardId, flashback: bool) -> bool {
    match game.card_at(card) {
        Some(c) => if flashback {
            c.cast_with_flashback
        } else {
            c.cast_with_harmonize
        },
        None => false,
    }
}

fn was_cast_so(game: &GameState, card: CardId, flashback: bool) -> (r: bool)
    ensures
        r == cast_so(*game, card, flashback),
{
    match game.card(card) {
        Some(c) => if flashback {
            c.cast_with_flashback
        } else {
            c.cast_with_harmonize
        },
        None => false,
    }
}

/// Checks whether an effect on moves applies.
pub fn can_replace(
    e: &ReplacementEffect,
    event: &ReplacementEvent,
    game: &GameState,
    host: &Card,
) -> (r: bool)
    ensures
        r == move_replaceable(*e, *event, *game, *host),
{
    match e.event {
        ReplacementType::Moved => {},
        _ => {
            return false;
        },
    }
    match event {
        ReplacementEvent::Moved {
            card,
            origin,
            destination,
            is_discard,
            stack_sa,
            fizzle,
            ..
        } => {
            if let Some(wanted) = e.discard {
                if wanted != *is_discard {
                    return false;
                }
            }
            if let Some(t) = &e.destination {
                if !zone_matches(t.as_str(), *destination) {
                    return false;
                }
            }
            if let Some(t) = &e.exclude_destination {
                if zone_matches(t.as_str(), *destination) {
                    return false;
                }
            }
            if let Some(t) = &e.origin {
                if !zone_matches(t.as_str(), *origin) {
                    return false;
                }
            }
            if !allows_card(&game.facts, &e.valid_card, host, *card) {
                return false;
            }
            if e.flashback_cast && !was_cast_so(game, *card, true) {
                return false;
            }
            if e.harmonize_cast && !was_cast_so(game, *card, false) {
                return false;
            }
            if !allows_card(&game.facts, &e.valid_lki, host, *card) {
                return false;
            }
            if let Some(t) = &e.valid_stack_sa {
                match stack_sa {
                    Some(sa) => {
                        if !game.facts.ability_matches_filter(t.as_str(), sa.id, host.id) {
                            return false;
                        }
                    },
                    None => {
                        return false;
                    },
                }
            }
            if let Some(wanted) = e.fizzle {
                match *fizzle {
                    Some(b) => {
                        if wanted != b {
                            return false;
                        }
                    },
                    None => {
                        return false;
                    },
                }
            }
            *destination != ZoneType::Battlefield || e.enters_allowed
        },
        _ => false,
    }
}

/// The zone that a new destination names.
pub open spec fn new_zone(text: Option<Seq<char>>) -> Option<ZoneType> {
    match text {
        Some(s) => {
            let t = trimmed(s);
            if t == "Exile"@ {
                Some(ZoneType::Exile)
            } else if t == "Graveyard"@ {
                Some(ZoneType::Graveyard)
            } else if t == "Hand"@ {
                Some(ZoneType::Hand)
            } else if t == "Library"@ {
                Some(ZoneType::Library)
            } else if t == "Battlefield"@ {
                Some(ZoneType::Battlefield)
            } else if t == "Command"@ {
                Some(ZoneType::Command)
            } else {
                None
            }
        },
        None => None,
    }
}

fn read_new_zone(text: &Option<String>) -> (r: Option<ZoneType>)
    ensures
        r == new_zone(string_of(*text)),
{
    match text {
        Some(s) => {
            let t = trim(s.as_str());
            if text_eq(t, "Exile") {
                Some(ZoneType::Exile)
            } else if text_eq(t, "Graveyard") {
                Some(ZoneType::Graveyard)
            } else if text_eq(t, "Hand") {
                Some(ZoneType::Hand)
            } else if text_eq(t, "Library") {
                Some(ZoneType::Library)
            } else if text_eq(t, "Battlefield") {
                Some(ZoneType::Battlefield)
            } else if text_eq(t, "Command") {
                Some(ZoneType::Command)
            } else {
                None
            }
        },
        None => None,
    }
}

/// The move with another destination.
pub open spec fn moved_to(event: ReplacementEvent, zone: ZoneType) -> ReplacementEvent {
    match event {
        ReplacementEvent::Moved {
            card,
            origin,
            destination,
            is_discard,
            counter_map,
            counter_cause,
            counter_is_effect,
            after_replacement_static_abilities,
            stack_sa,
            fizzle,
        } => ReplacementEvent::Moved {
            card,
            origin,
            destination: zone,
            is_discard,
            counter_map,
            counter_cause,
            counter_is_effect,
            after_replacement_static_abilities,
            stack_sa,
            fizzle,
        },
        _ => event,
    }
}

/// The card that an exiling effect stands for.
pub open spec fn exiling_card(game: GameState, source: CardId) -> CardId {
    match game.card_at(source) {
        Some(c) => match c.effect_source {
            Some(id) => id,
            None => source,
        },
        None => source,
    }
}

/// A list with a card at its end, unless it is in it already.
pub open spec fn with_card(ids: Seq<CardId>, id: CardId) -> Seq<CardId> {
    if ids.contains(id) {
        ids
    } else {
        ids.push(id)
    }
}

/// Whether the game differs only in that a card knows what exiled it and the exiling card
/// remembers it.
pub open spec fn exile_linked(
    before: GameState,
    after: GameState,
    moving: CardId,
    exiler: CardId,
) -> bool {
    &&& after == (GameState { cards: after.cards, ..before })
    &&& after.cards@.len() == before.cards@.len()
    &&& forall|i: int|
        0 <= i < before.cards@.len() ==> linked_card(
            before.cards@[i],
            #[trigger] after.cards@[i],
            i == moving.0,
            exiler,
            if i == exiler.0 {
                Some(moving)
            } else {
                None
            },
        )
}

/// Whether a card differs only in what exiled it and in what it remembers.
#[verifier::opaque]
pub open spec fn has_links(
    c: Card,
    d: Card,
    exiled_by: Option<CardId>,
    remembered_cards: Vec<CardId>,
) -> bool {
    d == (Card { exiled_by, remembered_cards, ..c })
}

/// Whether a card has the links that an exile gives it.
pub open spec fn linked_card(c: Card, d: Card, exiled: bool, exiler: CardId, moving: Option<CardId>) -> bool {
    &&& has_links(
        c,
        d,
        if exiled {
            Some(exiler)
        } else {
            c.exiled_by
        },
        d.remembered_cards,
    )
    &&& match moving {
        Some(m) => d.remembered_cards@ == with_card(c.remembered_cards@, m),
        None => d.remembered_cards == c.remembered_cards,
    }
}

proof fn lemma_own_links(c: Card)
    ensures
        has_links(c, c, c.exiled_by, c.remembered_cards),
{
    reveal(has_links);
}

proof fn lemma_links(c: Card, d: Card, exiled_by: Option<CardId>, remembered: Vec<CardId>)
    requires
        has_links(c, d, exiled_by, remembered),
    ensures
        d.exiled_by == exiled_by,
        d.remembered_cards == remembered,
{
    reveal(has_links);
}

proof fn lemma_both_links(c: Card, d: Card, e: Card, exiled_by: Option<CardId>, remembered: Vec<CardId>)
    requires
        has_links(c, d, exiled_by, c.remembered_cards),
        has_links(d, e, exiled_by, remembered),
    ensures
        has_links(c, e, exiled_by, remembered),
{
    reveal(has_links);
}

fn set_exiled_by(c: &mut Card, exiler: CardId)
    ensures
        has_links(*old(c), *final(c), Some(exiler), old(c).remembered_cards),
{
    reveal(has_links);
    c.exiled_by = Some(exiler);
}

proof fn lemma_linked_card(c: Card, d: Card, e: Card, exiler: CardId, moving: CardId)
    ensures
        linked_card(c, c, false, exiler, None),
        has_links(c, d, Some(exiler), c.remembered_cards) ==> linked_card(
            c,
            d,
            true,
            exiler,
            None,
        ),
        has_links(c, d, Some(exiler), c.remembered_cards) && linked_card(
            d,
            e,
            false,
            exiler,
            Some(moving),
        ) ==> linked_card(c, e, true, exiler, Some(moving)),
{
    lemma_own_links(c);
    if has_links(c, d, Some(exiler), c.remembered_cards) {
        lemma_links(c, d, Some(exiler), c.remembered_cards);
        if linked_card(d, e, false, exiler, Some(moving)) {
            lemma_both_links(c, d, e, Some(exiler), e.remembered_cards);
        }
    }
}

fn remember(c: &mut Card, moving: CardId)
    ensures
        has_links(*old(c), *final(c), old(c).exiled_by, final(c).remembered_cards),
        final(c).remembered_cards@ == old(c).remembered_cards@.push(moving),
{
    reveal(has_links);
    c.remembered_cards.push(moving);
}

fn add_remembered_card(c: &mut Card, moving: CardId, exiler: CardId)
    ensures
        linked_card(*old(c), *final(c), false, exiler, Some(moving)),
{
    proof {
        lemma_own_links(*c);
    }
    if !crate::lists::has_card(&c.remembered_cards, moving) {
        remember(c, moving);
    }
}

pub fn link_exile(game: &mut GameState, moving: CardId, exiler: CardId)
    ensures
        exile_linked(*old(game), *final(game), moving, exiler),
{
    let m: usize = moving.0 as usize;
    let x: usize = exiler.0 as usize;
    let ghost start = game.cards@;
    if m < game.cards.len() {
        set_exiled_by(&mut game.cards[m], exiler);
    }
    let ghost mid = game.cards@;
    if x < game.cards.len() {
        add_remembered_card(&mut game.cards[x], moving, exiler);
    }
    proof {
        let end = game.cards@;
        assert forall|i: int| 0 <= i < start.len() implies linked_card(
            start[i],
            #[trigger] end[i],
            i == moving.0,
            exiler,
            if i == exiler.0 {
                Some(moving)
            } else {
                None
            },
        ) by {
            lemma_linked_card(start[i], mid[i], end[i], exiler, moving);
        }
    }
}

/// The result of a move whose effect let an ability happen.
pub open spec fn move_result(e: ReplacementEffect) -> ReplacementResult {
    match result_named(string_of(e.replacement_result)) {
        Some(ReplacementResult::NotReplaced) => ReplacementResult::Replaced,
        Some(r) => r,
        None => ReplacementResult::Replaced,
    }
}

pub(crate) fn read_move_result(e: &ReplacementEffect) -> (r: ReplacementResult)
    ensures
        r == move_result(*e),
{
    match read_result(&e.replacement_result) {
        Some(ReplacementResult::NotReplaced) => ReplacementResult::Replaced,
        Some(r) => r,
        None => ReplacementResult::Replaced,
    }
}

/// How an effect on moves begins. It changes the destination, or lets an ability happen; a script
/// that is not there replaces nothing.
pub open spec fn move_begun(
    e: ReplacementEffect,
    host: Option<Card>,
    before: ReplacementEvent,
) -> (ReplacementEvent, BegunView) {
    match before {
        ReplacementEvent::Moved { destination, .. } => if let Some(z) = new_zone(
            string_of(e.new_destination),
        ) {
            (moved_to(before, z), BegunView::Over(ReplacementResult::Updated))
        } else if let Some(name) = string_of(e.replace_with) {
            let script = match host {
                Some(h) => e.script(h, name),
                None => svar_value(e.svars@, name),
            };
            match script {
                Some(raw) => (before, BegunView::Ability(raw)),
                None => (before, BegunView::Over(ReplacementResult::NotReplaced)),
            }
        } else {
            match string_of(e.overriding_ability) {
                Some(raw) if destination != ZoneType::Battlefield => (
                    before,
                    BegunView::Ability(raw),
                ),
                _ => (before, BegunView::Over(move_result(e))),
            }
        },
        _ => (before, BegunView::Over(ReplacementResult::NotReplaced)),
    }
}

/// A card that is exiled and the card that exiles it.
#[derive(Debug, Clone, Copy, PartialEq, Eq, Structural)]
pub struct ExileLink {
    pub moving: CardId,
    pub exiler: CardId,
}

/// Whether an effect links the exiled card with what exiles it.
pub open spec fn links_exile(e: ReplacementEffect, event: ReplacementEvent) -> bool {
    event is Moved && new_zone(string_of(e.new_destination)) == Some(ZoneType::Exile)
        && e.exiled_with_effect_source
}

/// The moving card.
pub open spec fn moving_card(event: ReplacementEvent) -> CardId {
    match event {
        ReplacementEvent::Moved { card, .. } => card,
        _ => CardId(0),
    }
}

pub(crate) fn find_ability_script<'a>(e: &'a ReplacementEffect, game: &'a GameState, source: CardId, name: &str) -> (r:
    Option<&'a str>)
    ensures
        text_of(r) == (match game.card_at(source) {
            Some(h) => e.script(h, name@),
            None => svar_value(e.svars@, name@),
        }),
{
    match game.card(source) {
        Some(h) => e.find_script(h, name),
        None => find_svar(&e.svars, name),
    }
}

/// Begins an effect on moves.
pub fn execute(
    e: &ReplacementEffect,
    event: &mut ReplacementEvent,
    game: &GameState,
    source: CardId,
) -> (r: (Begun, Option<ExileLink>))
    ensures
        (*final(event), r.0@) == move_begun(*e, game.card_at(source), *old(event)),
        r.1 == if links_exile(*e, *old(event)) {
            Some(
                ExileLink { moving: moving_card(*old(event)), exiler: exiling_card(*game, source) },
            )
        } else {
            None
        },
{
    let (moving, to) = match event {
        ReplacementEvent::Moved { card, destination, .. } => (*card, *destination),
        _ => {
            return (Begun::Over(ReplacementResult::NotReplaced), None);
        },
    };
    if let Some(z) = read_new_zone(&e.new_destination) {
        if let ReplacementEvent::Moved { destination, .. } = event {
            *destination = z;
        }
        if z == ZoneType::Exile && e.exiled_with_effect_source {
            let exiler = match game.card(source) {
                Some(c) => match c.effect_source {
                    Some(id) => id,
                    None => source,
                },
                None => source,
            };
            return (Begun::Over(ReplacementResult::Updated), Some(ExileLink { moving, exiler }));
        }
        return (Begun::Over(ReplacementResult::Updated), None);
    }
    if let Some(name) = &e.replace_with {
        return match find_ability_script(e, game, source, name.as_str()) {
            Some(raw) => (Begun::Ability(raw.to_string()), None),
            None => (Begun::Over(ReplacementResult::NotReplaced), None),
        };
    }
    if let Some(raw) = &e.overriding_ability {
        if to != ZoneType::Battlefield {
            return (Begun::Ability(raw.as_str().to_string()), None);
        }
    }
    (Begun::Over(read_move_result(e)), None)
}

} // verus!
