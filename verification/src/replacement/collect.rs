//! Which effects of which cards apply to an event.

use vstd::prelude::*;
use crate::game::{Card, EffectKey, GameState, PhaseType};
use crate::parsing::params::string_of;
use crate::replacement::effect::ReplacementEffect;
use crate::replacement::event::{
    event_kind, ReplacementEvent, ReplacementLayer, ReplacementType,
};
use crate::replacement::kinds::{can_replace, replaceable};
use crate::replacement::rules::{allows_player, player_allowed};
use crate::text::{contains, has_part, has_prefix, starts_with};
use crate::types::{CardId, PlayerId, ZoneType};

verus! {

/// The last known battlefield copy of a card.
pub open spec fn lki_of(cards: Seq<Card>, id: CardId) -> Option<Card>
    decreases cards.len(),
{
    if cards.len() == 0 {
        None
    } else if cards[0].id == id {
        Some(cards[0])
    } else {
        lki_of(cards.skip(1), id)
    }
}

fn find_lki<'a>(cards: &'a Vec<Card>, id: CardId) -> (r: Option<&'a Card>)
    ensures
        r is Some == lki_of(cards@, id) is Some,
        r matches Some(c) ==> lki_of(cards@, id) == Some(*c),
{
    let mut i: usize = 0;
    assert(cards@.skip(0) =~= cards@);
    while i < cards.len()
        invariant
            i <= cards@.len(),
            lki_of(cards@, id) == lki_of(cards@.skip(i as int), id),
        decreases cards@.len() - i,
    {
        assert(cards@.skip(i as int).skip(1) =~= cards@.skip(i + 1));
        if cards[i].id == id {
            return Some(&cards[i]);
        }
        i = i + 1;
    }
    None
}

/// A card as an event sees it, with the zone from which its effects work. A card that is about to
/// enter is seen as it will be. A move looks at the battlefield as it last was.
pub open spec fn seen(
    game: GameState,
    event: ReplacementEvent,
    pre: Option<Card>,
    i: int,
) -> Option<(Card, ZoneType)> {
    let card = game.cards@[i];
    let id = CardId(i as u32);
    if pre is Some && (pre->0).id == id {
        Some((pre->0, (pre->0).zone))
    } else {
        match game.replacement_last_state_battlefield {
            Some(last) if event is Moved => {
                let was_there = last@.contains(id);
                if card.zone == ZoneType::Battlefield && !was_there {
                    None
                } else if was_there && card.zone != ZoneType::Battlefield {
                    Some(
                        (
                            match lki_of(game.battlefield_lki@, id) {
                                Some(c) => c,
                                None => card,
                            },
                            ZoneType::Battlefield,
                        ),
                    )
                } else {
                    Some((card, card.zone))
                }
            },
            _ => Some((card, card.zone)),
        }
    }
}

fn see<'a>(
    game: &'a GameState,
    event: &ReplacementEvent,
    pre: Option<&'a Card>,
    i: usize,
) -> (r: Option<(&'a Card, ZoneType)>)
    requires
        i < game.cards@.len(),
    ensures
        match r {
            Some((c, z)) => seen(*game, *event, owned(pre), i as int) == Some((*c, z)),
            None => seen(*game, *event, owned(pre), i as int) is None,
        },
{
    let card = &game.cards[i];
    let id = CardId(i as u32);
    if let Some(p) = pre {
        if p.id == id {
            return Some((p, p.zone));
        }
    }
    let moves = match event {
        ReplacementEvent::Moved { .. } => true,
        _ => false,
    };
    if moves {
        if let Some(last) = &game.replacement_last_state_battlefield {
            let was_there = crate::lists::has_card(last, id);
            if card.zone == ZoneType::Battlefield && !was_there {
                return None;
            }
            if was_there && card.zone != ZoneType::Battlefield {
                return match find_lki(&game.battlefield_lki, id) {
                    Some(c) => Some((c, ZoneType::Battlefield)),
                    None => Some((card, ZoneType::Battlefield)),
                };
            }
        }
    }
    Some((card, card.zone))
}

pub open spec fn owned(card: Option<&Card>) -> Option<Card> {
    match card {
        Some(c) => Some(*c),
        None => None,
    }
}

/// Whether the effects that the rules give every card are looked at.
pub open spec fn rules_apply(event: ReplacementEvent, layer: ReplacementLayer) -> bool {
    layer == ReplacementLayer::Other && (event_kind(event) == ReplacementType::DamageDone
        || event_kind(event) == ReplacementType::Moved)
}

/// The effects of a card: its own, or those of the rules.
pub open spec fn effects_in(card: Card, of_rules: bool) -> Seq<ReplacementEffect> {
    if of_rules {
        card.rules_replacement_effects@
    } else {
        card.replacement_effects@
    }
}

/// Whether an effect puts counters on its own card as that card enters.
pub open spec fn counters_on_itself(
    e: ReplacementEffect,
    event: ReplacementEvent,
    id: CardId,
) -> bool {
    match event {
        ReplacementEvent::Moved { card, destination, counter_map, .. } => {
            &&& destination == ZoneType::Battlefield
            &&& counter_map is Some
            &&& card == id
            &&& e.event == ReplacementType::AddCounter
            &&& e.valid_card is Some
            &&& has_prefix((e.valid_card->0)@, "Card.Self"@)
        },
        _ => false,
    }
}

fn puts_counters_on_itself(e: &ReplacementEffect, event: &ReplacementEvent, id: CardId) -> (r: bool)
    ensures
        r == counters_on_itself(*e, *event, id),
{
    match event {
        ReplacementEvent::Moved { card, destination, counter_map, .. } => {
            if *destination != ZoneType::Battlefield || counter_map.is_none() || *card != id {
                return false;
            }
            match e.event {
                ReplacementType::AddCounter => {},
                _ => {
                    return false;
                },
            }
            match &e.valid_card {
                Some(t) => starts_with(t.as_str(), "Card.Self"),
                None => false,
            }
        },
        _ => false,
    }
}

/// Whether an effect applies to an event in a layer.
pub open spec fn applies(
    e: ReplacementEffect,
    event: ReplacementEvent,
    layer: ReplacementLayer,
    game: GameState,
    card: Card,
    zone: ZoneType,
    id: CardId,
) -> bool {
    &&& e.layer == layer
    &&& e.works_in(zone) || counters_on_itself(e, event, id)
    &&& e.requirements_met
    &&& replaceable(e, event, game, card)
}

fn check_applies(
    e: &ReplacementEffect,
    event: &ReplacementEvent,
    layer: ReplacementLayer,
    game: &GameState,
    card: &Card,
    zone: ZoneType,
    id: CardId,
) -> (r: bool)
    ensures
        r == applies(*e, *event, layer, *game, *card, zone, id),
{
    e.layer == layer && (e.active_in_zone(zone) || puts_counters_on_itself(e, event, id))
        && e.requirements_met && can_replace(e, event, game, card)
}

/// The effects among the first `k` of a card that apply.
pub open spec fn card_effects(
    game: GameState,
    event: ReplacementEvent,
    layer: ReplacementLayer,
    card: Card,
    zone: ZoneType,
    id: CardId,
    of_rules: bool,
    k: nat,
) -> Seq<EffectKey>
    decreases k,
{
    if k == 0 {
        Seq::empty()
    } else {
        let before = card_effects(game, event, layer, card, zone, id, of_rules, (k - 1) as nat);
        let e = effects_in(card, of_rules)[k - 1];
        if applies(e, event, layer, game, card, zone, id) {
            before.push(EffectKey { card: id, of_rules, index: (k - 1) as usize, id: e.id })
        } else {
            before
        }
    }
}

/// The effects of a card that apply; those of the rules follow its own.
pub open spec fn all_card_effects(
    game: GameState,
    event: ReplacementEvent,
    layer: ReplacementLayer,
    card: Card,
    zone: ZoneType,
    id: CardId,
) -> Seq<EffectKey> {
    let own = card_effects(
        game,
        event,
        layer,
        card,
        zone,
        id,
        false,
        card.replacement_effects@.len(),
    );
    if rules_apply(event, layer) {
        own + card_effects(
            game,
            event,
            layer,
            card,
            zone,
            id,
            true,
            card.rules_replacement_effects@.len(),
        )
    } else {
        own
    }
}

/// The effects of the first `n` cards that apply.
pub open spec fn effects_of(
    game: GameState,
    event: ReplacementEvent,
    layer: ReplacementLayer,
    pre: Option<Card>,
    n: nat,
) -> Seq<EffectKey>
    decreases n,
{
    if n == 0 {
        Seq::empty()
    } else {
        let before = effects_of(game, event, layer, pre, (n - 1) as nat);
        match seen(game, event, pre, n - 1) {
            Some((card, zone)) => before + all_card_effects(
                game,
                event,
                layer,
                card,
                zone,
                CardId((n - 1) as u32),
            ),
            None => before,
        }
    }
}

/// The effects that apply to an event in a layer, card by card.
pub open spec fn applicable(
    game: GameState,
    event: ReplacementEvent,
    layer: ReplacementLayer,
    pre: Option<Card>,
) -> Seq<EffectKey> {
    effects_of(game, event, layer, pre, game.cards@.len())
}

fn collect_from(
    game: &GameState,
    event: &ReplacementEvent,
    layer: ReplacementLayer,
    card: &Card,
    zone: ZoneType,
    id: CardId,
    of_rules: bool,
    out: &mut Vec<EffectKey>,
)
    ensures
        final(out)@ == old(out)@ + card_effects(
            *game,
            *event,
            layer,
            *card,
            zone,
            id,
            of_rules,
            effects_in(*card, of_rules).len(),
        ),
{
    let ghost start = out@;
    let effects = if of_rules {
        &card.rules_replacement_effects
    } else {
        &card.replacement_effects
    };
    let mut k: usize = 0;
    assert(start + card_effects(*game, *event, layer, *card, zone, id, of_rules, 0) =~= start);
    while k < effects.len()
        invariant
            k <= effects@.len(),
            effects@ == effects_in(*card, of_rules),
            out@ == start + card_effects(
                *game,
                *event,
                layer,
                *card,
                zone,
                id,
                of_rules,
                k as nat,
            ),
        decreases effects@.len() - k,
    {
        let e = &effects[k];
        if check_applies(e, event, layer, game, card, zone, id) {
            let ghost before = card_effects(
                *game,
                *event,
                layer,
                *card,
                zone,
                id,
                of_rules,
                k as nat,
            );
            let key = EffectKey { card: id, of_rules, index: k, id: e.id };
            assert((start + before).push(key) =~= start + before.push(key));
            out.push(key);
        }
        k = k + 1;
    }
}

fn check_rules_apply(event: &ReplacementEvent, layer: ReplacementLayer) -> (r: bool)
    ensures
        r == rules_apply(*event, layer),
{
    if layer != ReplacementLayer::Other {
        return false;
    }
    match event {
        ReplacementEvent::DamageToCard { .. } => true,
        ReplacementEvent::DamageToPlayer { .. } => true,
        ReplacementEvent::Moved { .. } => true,
        _ => false,
    }
}

/// Lists the effects that apply to an event in a layer.
pub fn collect_effects(
    game: &GameState,
    event: &ReplacementEvent,
    layer: ReplacementLayer,
    pre: Option<&Card>,
) -> (r: Vec<EffectKey>)
    ensures
        r@ == applicable(*game, *event, layer, owned(pre)),
{
    let rules = check_rules_apply(event, layer);
    let mut out: Vec<EffectKey> = Vec::new();
    let mut i: usize = 0;
    while i < game.cards.len()
        invariant
            i <= game.cards@.len(),
            rules == rules_apply(*event, layer),
            out@ == effects_of(*game, *event, layer, owned(pre), i as nat),
        decreases game.cards@.len() - i,
    {
        if let Some((card, zone)) = see(game, event, pre, i) {
            let id = CardId(i as u32);
            let ghost before = out@;
            collect_from(game, event, layer, card, zone, id, false, &mut out);
            if rules {
                let ghost mid = out@;
                collect_from(game, event, layer, card, zone, id, true, &mut out);
                proof {
                    let a = card_effects(
                        *game,
                        *event,
                        layer,
                        *card,
                        zone,
                        id,
                        false,
                        card.replacement_effects@.len(),
                    );
                    let b = card_effects(
                        *game,
                        *event,
                        layer,
                        *card,
                        zone,
                        id,
                        true,
                        card.rules_replacement_effects@.len(),
                    );
                    assert((before + a) + b =~= before + (a + b));
                }
            }
        }
        i = i + 1;
    }
    out
}

/// The effect that a key names, as an event sees its card.
pub open spec fn effect_named(
    game: GameState,
    event: ReplacementEvent,
    pre: Option<Card>,
    key: EffectKey,
) -> Option<ReplacementEffect> {
    if key.card.0 < game.cards@.len() {
        match seen(game, event, pre, key.card.0 as int) {
            Some((card, _)) => if key.index < effects_in(card, key.of_rules).len() {
                Some(effects_in(card, key.of_rules)[key.index as int])
            } else {
                None
            },
            None => None,
        }
    } else {
        None
    }
}

pub fn find_effect<'a>(
    game: &'a GameState,
    event: &ReplacementEvent,
    pre: Option<&'a Card>,
    key: EffectKey,
) -> (r: Option<&'a ReplacementEffect>)
    ensures
        match r {
            Some(e) => effect_named(*game, *event, owned(pre), key) == Some(*e),
            None => effect_named(*game, *event, owned(pre), key) is None,
        },
{
    let i: usize = key.card.0 as usize;
    if i >= game.cards.len() {
        return None;
    }
    match see(game, event, pre, i) {
        Some((card, _)) => {
            let effects = if key.of_rules {
                &card.rules_replacement_effects
            } else {
                &card.replacement_effects
            };
            if key.index < effects.len() {
                Some(&effects[key.index])
            } else {
                None
            }
        },
        None => None,
    }
}

// ---- questions about effects ----

/// Whether an event sees a card on the battlefield.
pub open spec fn seen_in_play(game: GameState, event: ReplacementEvent, id: CardId) -> bool {
    id.0 < game.cards@.len() && (seen(game, event, None, id.0 as int) matches Some((_, zone))
        && zone == ZoneType::Battlefield)
}

/// Whether an effect of a card on the battlefield forbids an event.
pub open spec fn is_forbidden(game: GameState, event: ReplacementEvent) -> bool {
    let keys = applicable(game, event, ReplacementLayer::CantHappen, None);
    exists|k: int| 0 <= k < keys.len() && seen_in_play(game, event, (#[trigger] keys[k]).card)
}

fn check_seen_in_play(game: &GameState, event: &ReplacementEvent, id: CardId) -> (r: bool)
    ensures
        r == seen_in_play(*game, *event, id),
{
    let i: usize = id.0 as usize;
    if i >= game.cards.len() {
        return false;
    }
    match see(game, event, None, i) {
        Some((_, zone)) => zone == ZoneType::Battlefield,
        None => false,
    }
}

/// Whether an effect of a card on the battlefield forbids an event.
pub fn cant_happen_check(game: &GameState, event: &ReplacementEvent) -> (r: bool)
    ensures
        r == is_forbidden(*game, *event),
{
    let keys = collect_effects(game, event, ReplacementLayer::CantHappen, None);
    let mut k: usize = 0;
    while k < keys.len()
        invariant
            k <= keys@.len(),
            keys@ == applicable(*game, *event, ReplacementLayer::CantHappen, None),
            forall|j: int| 0 <= j < k ==> !seen_in_play(*game, *event, (#[trigger] keys@[j]).card),
        decreases keys@.len() - k,
    {
        if check_seen_in_play(game, event, keys[k].card) {
            assert(seen_in_play(*game, *event, keys@[k as int].card));
            return true;
        }
        k = k + 1;
    }
    false
}

/// The layers in the order in which they apply.
pub open spec fn layer_at(i: int) -> ReplacementLayer {
    if i == 0 {
        ReplacementLayer::CantHappen
    } else if i == 1 {
        ReplacementLayer::Control
    } else if i == 2 {
        ReplacementLayer::Copy
    } else if i == 3 {
        ReplacementLayer::Transform
    } else {
        ReplacementLayer::Other
    }
}

pub fn nth_layer(i: usize) -> (r: ReplacementLayer)
    ensures
        r == layer_at(i as int),
{
    if i == 0 {
        ReplacementLayer::CantHappen
    } else if i == 1 {
        ReplacementLayer::Control
    } else if i == 2 {
        ReplacementLayer::Copy
    } else if i == 3 {
        ReplacementLayer::Transform
    } else {
        ReplacementLayer::Other
    }
}

/// Whether any effect applies to an event.
pub fn has_applicable_effects(game: &GameState, event: &ReplacementEvent) -> (r: bool)
    ensures
        r == exists|layer: ReplacementLayer|
            #[trigger] applicable(*game, *event, layer, None).len() > 0,
{
    let mut i: usize = 0;
    while i < 5
        invariant
            i <= 5,
            forall|k: int| 0 <= k < i ==> applicable(*game, *event, #[trigger] layer_at(k), None).len() == 0,
        decreases 5 - i,
    {
        if collect_effects(game, event, nth_layer(i), None).len() > 0 {
            assert(applicable(*game, *event, layer_at(i as int), None).len() > 0);
            return true;
        }
        i = i + 1;
    }
    assert forall|layer: ReplacementLayer| #[trigger] applicable(
        *game,
        *event,
        layer,
        None,
    ).len() == 0 by {
        let k: int = match layer {
            ReplacementLayer::CantHappen => 0,
            ReplacementLayer::Control => 1,
            ReplacementLayer::Copy => 2,
            ReplacementLayer::Transform => 3,
            ReplacementLayer::Other => 4,
        };
        assert(layer_at(k) == layer);
    }
    false
}

/// Whether an effect skips a player's phase.
pub open spec fn skips_phase(
    e: ReplacementEffect,
    game: GameState,
    host: Card,
    player: PlayerId,
    phase: PhaseType,
) -> bool {
    &&& e.event == ReplacementType::BeginPhase
    &&& e.layer == ReplacementLayer::Control || e.layer == ReplacementLayer::CantHappen
    &&& e.works_during(phase)
    &&& player_allowed(game.facts, string_of(e.valid_player), host, player)
}

/// Whether an effect skips a player's extra turn.
pub open spec fn skips_turn(
    e: ReplacementEffect,
    game: GameState,
    host: Card,
    player: PlayerId,
) -> bool {
    &&& e.event == ReplacementType::BeginTurn
    &&& e.layer == ReplacementLayer::Other || e.layer == ReplacementLayer::CantHappen
    &&& player_allowed(game.facts, string_of(e.valid_player), host, player)
}

pub open spec fn card_skips_phase(
    c: Card,
    game: GameState,
    player: PlayerId,
    phase: PhaseType,
) -> bool {
    c.zone == ZoneType::Battlefield && exists|k: int|
        0 <= k < c.replacement_effects@.len() && skips_phase(
            #[trigger] c.replacement_effects@[k],
            game,
            c,
            player,
            phase,
        )
}

pub open spec fn card_skips_turn(c: Card, game: GameState, player: PlayerId) -> bool {
    c.zone == ZoneType::Battlefield && exists|k: int|
        0 <= k < c.replacement_effects@.len() && skips_turn(
            #[trigger] c.replacement_effects@[k],
            game,
            c,
            player,
        )
}

fn check_card_skips_phase(c: &Card, game: &GameState, player: PlayerId, phase: PhaseType) -> (r: bool)
    ensures
        r == card_skips_phase(*c, *game, player, phase),
{
    if c.zone != ZoneType::Battlefield {
        return false;
    }
    let mut k: usize = 0;
    while k < c.replacement_effects.len()
        invariant
            k <= c.replacement_effects@.len(),
            c.zone == ZoneType::Battlefield,
            forall|j: int|
                0 <= j < k ==> !skips_phase(
                    #[trigger] c.replacement_effects@[j],
                    *game,
                    *c,
                    player,
                    phase,
                ),
        decreases c.replacement_effects@.len() - k,
    {
        let e = &c.replacement_effects[k];
        if e.event == ReplacementType::BeginPhase && (e.layer == ReplacementLayer::Control
            || e.layer == ReplacementLayer::CantHappen) && e.matches_phase(phase) && allows_player(
            &game.facts,
            &e.valid_player,
            c,
            player,
        ) {
            assert(skips_phase(c.replacement_effects@[k as int], *game, *c, player, phase));
            return true;
        }
        k = k + 1;
    }
    false
}

fn check_card_skips_turn(c: &Card, game: &GameState, player: PlayerId) -> (r: bool)
    ensures
        r == card_skips_turn(*c, *game, player),
{
    if c.zone != ZoneType::Battlefield {
        return false;
    }
    let mut k: usize = 0;
    while k < c.replacement_effects.len()
        invariant
            k <= c.replacement_effects@.len(),
            c.zone == ZoneType::Battlefield,
            forall|j: int|
                0 <= j < k ==> !skips_turn(
                    #[trigger] c.replacement_effects@[j],
                    *game,
                    *c,
                    player,
                ),
        decreases c.replacement_effects@.len() - k,
    {
        let e = &c.replacement_effects[k];
        if e.event == ReplacementType::BeginTurn && (e.layer == ReplacementLayer::Other || e.layer
            == ReplacementLayer::CantHappen) && allows_player(
            &game.facts,
            &e.valid_player,
            c,
            player,
        ) {
            assert(skips_turn(c.replacement_effects@[k as int], *game, *c, player));
            return true;
        }
        k = k + 1;
    }
    false
}

/// Whether a phase of a player is skipped.
pub fn would_phase_be_skipped(game: &GameState, player: PlayerId, phase: PhaseType) -> (r: bool)
    ensures
        r == exists|i: int|
            0 <= i < game.cards@.len() && card_skips_phase(
                #[trigger] game.cards@[i],
                *game,
                player,
                phase,
            ),
{
    let mut i: usize = 0;
    while i < game.cards.len()
        invariant
            i <= game.cards@.len(),
            forall|j: int|
                0 <= j < i ==> !card_skips_phase(
                    #[trigger] game.cards@[j],
                    *game,
                    player,
                    phase,
                ),
        decreases game.cards@.len() - i,
    {
        if check_card_skips_phase(&game.cards[i], game, player, phase) {
            assert(card_skips_phase(game.cards@[i as int], *game, player, phase));
            return true;
        }
        i = i + 1;
    }
    false
}

/// Whether an extra turn of a player is skipped.
pub fn would_extra_turn_be_skipped(game: &GameState, player: PlayerId) -> (r: bool)
    ensures
        r == exists|i: int|
            0 <= i < game.cards@.len() && card_skips_turn(
                #[trigger] game.cards@[i],
                *game,
                player,
            ),
{
    let mut i: usize = 0;
    while i < game.cards.len()
        invariant
            i <= game.cards@.len(),
            forall|j: int|
                0 <= j < i ==> !card_skips_turn(#[trigger] game.cards@[j], *game, player),
        decreases game.cards@.len() - i,
    {
        if check_card_skips_turn(&game.cards[i], game, player) {
            assert(card_skips_turn(game.cards@[i as int], *game, player));
            return true;
        }
        i = i + 1;
    }
    false
}

/// Whether an effect of a card on the battlefield is of a kind, in a layer where one is asked for,
/// and works now.
pub open spec fn visited(
    e: ReplacementEffect,
    kind: ReplacementType,
    layer: Option<ReplacementLayer>,
    zone: ZoneType,
) -> bool {
    &&& layer matches Some(l) ==> e.layer == l
    &&& zone == ZoneType::Battlefield
    &&& e.works_in(zone)
    &&& e.event == kind
    &&& e.requirements_met
}

/// What a walk finds among effects of a card, each with its place; `place` is where they start.
pub open spec fn visits_in(
    effects: Seq<ReplacementEffect>,
    kind: ReplacementType,
    layer: Option<ReplacementLayer>,
    zone: ZoneType,
    id: CardId,
    place: int,
) -> Seq<(CardId, int)>
    decreases effects.len(),
{
    if effects.len() == 0 {
        Seq::empty()
    } else {
        let before = visits_in(effects.drop_last(), kind, layer, zone, id, place);
        if visited(effects.last(), kind, layer, zone) {
            before.push((id, place + effects.len() - 1))
        } else {
            before
        }
    }
}

/// How many effects the first cards have, which is where those of the next card start in a walk.
pub open spec fn effect_count(cards: Seq<Card>, n: nat) -> nat
    decreases n,
{
    if n == 0 {
        0
    } else {
        effect_count(cards, (n - 1) as nat) + cards[n - 1].replacement_effects@.len()
    }
}

/// What a walk over the first cards finds.
pub open spec fn visits(
    cards: Seq<Card>,
    kind: ReplacementType,
    layer: Option<ReplacementLayer>,
    n: nat,
) -> Seq<(CardId, int)>
    decreases n,
{
    if n == 0 {
        Seq::empty()
    } else {
        let c = cards[n - 1];
        visits(cards, kind, layer, (n - 1) as nat) + visits_in(
            c.replacement_effects@,
            kind,
            layer,
            c.zone,
            CardId((n - 1) as u32),
            effect_count(cards, (n - 1) as nat) as int,
        )
    }
}

/// Pairs with their places as numbers.
pub open spec fn numbered(v: Seq<(CardId, usize)>) -> Seq<(CardId, int)> {
    Seq::new(v.len(), |i: int| (v[i].0, v[i].1 as int))
}

/// The cards of pairs.
pub open spec fn found_cards(v: Seq<(CardId, int)>) -> Seq<CardId> {
    Seq::new(v.len(), |i: int| v[i].0)
}

proof fn lemma_found_anywhere(
    effects: Seq<ReplacementEffect>,
    kind: ReplacementType,
    layer: Option<ReplacementLayer>,
    zone: ZoneType,
    id: CardId,
    p: int,
    q: int,
)
    ensures
        found_cards(visits_in(effects, kind, layer, zone, id, p)) == found_cards(
            visits_in(effects, kind, layer, zone, id, q),
        ),
    decreases effects.len(),
{
    let a = visits_in(effects, kind, layer, zone, id, p);
    let b = visits_in(effects, kind, layer, zone, id, q);
    if effects.len() > 0 {
        let less = effects.drop_last();
        lemma_found_anywhere(less, kind, layer, zone, id, p, q);
        let x = visits_in(less, kind, layer, zone, id, p);
        let y = visits_in(less, kind, layer, zone, id, q);
        assert(found_cards(x).len() == x.len() && found_cards(y).len() == y.len());
        assert forall|i: int| 0 <= i < a.len() implies a[i].0 == b[i].0 by {
            if i < x.len() {
                assert(found_cards(x)[i] == found_cards(y)[i]);
            }
        }
    }
    assert(found_cards(a) =~= found_cards(b));
}

fn visit_card(
    c: &Card,
    kind: ReplacementType,
    layer: Option<ReplacementLayer>,
    id: CardId,
    place: usize,
    out: &mut Vec<(CardId, usize)>,
)
    ensures
        found_cards(numbered(final(out)@)) == found_cards(numbered(old(out)@)) + found_cards(
            visits_in(c.replacement_effects@, kind, layer, c.zone, id, place as int),
        ),
        place + c.replacement_effects@.len() <= usize::MAX ==> numbered(final(out)@) == numbered(
            old(out)@,
        ) + visits_in(c.replacement_effects@, kind, layer, c.zone, id, place as int),
{
    let ghost start = numbered(out@);
    let ghost all = c.replacement_effects@;
    let ghost fits = place + all.len() <= usize::MAX;
    let mut k: usize = 0;
    assert(start + visits_in(all.take(0), kind, layer, c.zone, id, place as int) =~= start);
    assert(found_cards(start) + found_cards(
        visits_in(all.take(0), kind, layer, c.zone, id, place as int),
    ) =~= found_cards(start));
    while k < c.replacement_effects.len()
        invariant
            k <= all.len(),
            all == c.replacement_effects@,
            fits == (place + all.len() <= usize::MAX),
            found_cards(numbered(out@)) == found_cards(start) + found_cards(
                visits_in(all.take(k as int), kind, layer, c.zone, id, place as int),
            ),
            fits ==> numbered(out@) == start + visits_in(
                all.take(k as int),
                kind,
                layer,
                c.zone,
                id,
                place as int,
            ),
        decreases all.len() - k,
    {
        assert(all.take(k + 1).drop_last() =~= all.take(k as int));
        let e = &c.replacement_effects[k];
        let in_layer = match layer {
            Some(l) => e.layer == l,
            None => true,
        };
        if in_layer && c.zone == ZoneType::Battlefield && e.active_in_zone(c.zone) && e.event
            == kind && e.requirements_met {
            let at: usize = place.wrapping_add(k);
            let ghost before = visits_in(
                all.take(k as int),
                kind,
                layer,
                c.zone,
                id,
                place as int,
            );
            let ghost held = out@;
            out.push((id, at));
            proof {
                let v = (id, place + k);
                assert(numbered(out@) =~= numbered(held).push((id, at as int)));
                assert(found_cards(numbered(out@)) =~= found_cards(numbered(held)).push(id));
                assert(found_cards(before.push(v)) =~= found_cards(before).push(id));
                assert((found_cards(start) + found_cards(before)).push(id) =~= found_cards(start)
                    + found_cards(before).push(id));
                assert((start + before).push(v) =~= start + before.push(v));
            }
        }
        k = k + 1;
    }
    assert(all.take(k as int) =~= all);
}

proof fn lemma_effect_count_grows(cards: Seq<Card>, n: nat, m: nat)
    requires
        n <= m,
    ensures
        effect_count(cards, n) <= effect_count(cards, m),
    decreases m,
{
    if n < m {
        lemma_effect_count_grows(cards, n, (m - 1) as nat);
    }
}

/// Walks over the effects of all cards and lists those of a kind that work now on the battlefield,
/// with their place in the walk, as far as places can be numbered.
pub fn visit(game: &GameState, kind: ReplacementType, layer: Option<ReplacementLayer>) -> (r: Vec<
    (CardId, usize),
>)
    ensures
        found_cards(numbered(r@)) == found_cards(
            visits(game.cards@, kind, layer, game.cards@.len()),
        ),
        effect_count(game.cards@, game.cards@.len()) <= usize::MAX ==> numbered(r@) == visits(
            game.cards@,
            kind,
            layer,
            game.cards@.len(),
        ),
{
    let ghost fits = effect_count(game.cards@, game.cards@.len()) <= usize::MAX;
    let mut out: Vec<(CardId, usize)> = Vec::new();
    let mut place: usize = 0;
    let mut i: usize = 0;
    assert(numbered(out@) =~= Seq::empty());
    while i < game.cards.len()
        invariant
            i <= game.cards@.len(),
            fits == (effect_count(game.cards@, game.cards@.len()) <= usize::MAX),
            fits ==> place == effect_count(game.cards@, i as nat),
            found_cards(numbered(out@)) == found_cards(visits(game.cards@, kind, layer, i as nat)),
            fits ==> numbered(out@) == visits(game.cards@, kind, layer, i as nat),
        decreases game.cards@.len() - i,
    {
        let ghost before = visits(game.cards@, kind, layer, i as nat);
        let ghost effects = game.cards@[i as int].replacement_effects@;
        let ghost zone = game.cards@[i as int].zone;
        let ghost at = place as int;
        proof {
            lemma_effect_count_grows(game.cards@, (i + 1) as nat, game.cards@.len());
        }
        visit_card(&game.cards[i], kind, layer, CardId(i as u32), place, &mut out);
        proof {
            let id = CardId(i as u32);
            let to = effect_count(game.cards@, i as nat) as int;
            lemma_found_anywhere(effects, kind, layer, zone, id, at, to);
            let more = visits_in(effects, kind, layer, zone, id, to);
            assert(found_cards(before + more) =~= found_cards(before) + found_cards(more));
        }
        place = place.wrapping_add(game.cards[i].replacement_effects.len());
        i = i + 1;
    }
    out
}

/// The layer of the effect at a place of a walk over the first cards.
pub open spec fn layer_at_place(cards: Seq<Card>, n: nat, place: int) -> ReplacementLayer
    decreases n,
{
    if n == 0 {
        ReplacementLayer::Other
    } else if place >= effect_count(cards, (n - 1) as nat) {
        cards[n - 1].replacement_effects@[place - effect_count(cards, (n - 1) as nat)].layer
    } else {
        layer_at_place(cards, (n - 1) as nat, place)
    }
}

/// The layer of an effect that a walk found.
pub open spec fn layer_found(cards: Seq<Card>, found: (CardId, int)) -> ReplacementLayer {
    layer_at_place(cards, cards.len(), found.1)
}

proof fn lemma_layer_at(cards: Seq<Card>, n: nat, k: int, j: int)
    requires
        0 <= k < n <= cards.len(),
        0 <= j < cards[k].replacement_effects@.len(),
    ensures
        layer_at_place(cards, n, effect_count(cards, k as nat) + j)
            == cards[k].replacement_effects@[j].layer,
    decreases n,
{
    if k < n - 1 {
        lemma_effect_count_grows(cards, (k + 1) as nat, (n - 1) as nat);
        lemma_layer_at(cards, (n - 1) as nat, k, j);
    }
}

/// Whether the places of what a walk found lie in a range and grow.
pub open spec fn places_grow(found: Seq<(CardId, int)>, from: int, to: int) -> bool {
    &&& forall|i: int| 0 <= i < found.len() ==> from <= (#[trigger] found[i]).1 < to
    &&& forall|i: int, j: int|
        0 <= i < j < found.len() ==> (#[trigger] found[i]).1 < (#[trigger] found[j]).1
}

proof fn lemma_visits_in(
    cards: Seq<Card>,
    n: int,
    effects: Seq<ReplacementEffect>,
    kind: ReplacementType,
    layer: ReplacementLayer,
)
    requires
        0 <= n < cards.len(),
        effects.is_prefix_of(cards[n].replacement_effects@),
    ensures
        ({
            let id = CardId(n as u32);
            let place = effect_count(cards, n as nat) as int;
            let all = visits_in(effects, kind, None, cards[n].zone, id, place);
            &&& visits_in(effects, kind, Some(layer), cards[n].zone, id, place) == all.filter(
                |v: (CardId, int)| layer_found(cards, v) == layer,
            )
            &&& places_grow(all, place, place + effects.len())
        }),
    decreases effects.len(),
{
    reveal(Seq::filter);
    let id = CardId(n as u32);
    let place = effect_count(cards, n as nat) as int;
    let p = |v: (CardId, int)| layer_found(cards, v) == layer;
    let all = visits_in(effects, kind, None, cards[n].zone, id, place);
    if effects.len() > 0 {
        let less = effects.drop_last();
        assert(less =~= cards[n].replacement_effects@.subrange(0, less.len() as int));
        lemma_visits_in(cards, n, less, kind, layer);
        let before = visits_in(less, kind, None, cards[n].zone, id, place);
        let v = (id, place + effects.len() - 1);
        assert(effects.last() == cards[n].replacement_effects@[effects.len() - 1]);
        lemma_layer_at(cards, cards.len(), n, effects.len() - 1);
        assert(layer_found(cards, v) == effects.last().layer);
        assert(before.push(v).drop_last() =~= before);
    } else {
        assert(all.filter(p) =~= Seq::empty());
    }
}

/// What a walk for one layer finds is the part of a walk for all layers that is in that layer, at
/// the same places. Places grow, so nothing is found twice; and each effect that a walk for all
/// layers finds is found by the walk for its own layer and by no other.
pub proof fn law_layers_part_a_walk(
    cards: Seq<Card>,
    kind: ReplacementType,
    layer: ReplacementLayer,
    n: nat,
)
    requires
        n <= cards.len(),
    ensures
        visits(cards, kind, Some(layer), n) == visits(cards, kind, None, n).filter(
            |v: (CardId, int)| layer_found(cards, v) == layer,
        ),
        places_grow(visits(cards, kind, None, n), 0, effect_count(cards, n) as int),
        places_grow(visits(cards, kind, Some(layer), n), 0, effect_count(cards, n) as int),
        forall|v: (CardId, int)|
            #![trigger visits(cards, kind, None, n).contains(v)]
            visits(cards, kind, None, n).contains(v) ==> (visits(
                cards,
                kind,
                Some(layer),
                n,
            ).contains(v) <==> layer_found(cards, v) == layer),
        forall|v: (CardId, int)|
            #![trigger visits(cards, kind, Some(layer), n).contains(v)]
            visits(cards, kind, Some(layer), n).contains(v) ==> visits(
                cards,
                kind,
                None,
                n,
            ).contains(v),
    decreases n,
{
    let p = |v: (CardId, int)| layer_found(cards, v) == layer;
    let all = visits(cards, kind, None, n);
    let part = visits(cards, kind, Some(layer), n);
    if n > 0 {
        let c = cards[n - 1];
        law_layers_part_a_walk(cards, kind, layer, (n - 1) as nat);
        assert(c.replacement_effects@ =~= c.replacement_effects@.subrange(
            0,
            c.replacement_effects@.len() as int,
        ));
        lemma_visits_in(cards, n - 1, c.replacement_effects@, kind, layer);
        let a = visits(cards, kind, None, (n - 1) as nat);
        let b = visits_in(
            c.replacement_effects@,
            kind,
            None,
            c.zone,
            CardId((n - 1) as u32),
            effect_count(cards, (n - 1) as nat) as int,
        );
        Seq::filter_distributes_over_add(a, b, p);
    } else {
        reveal(Seq::filter);
        assert(all.filter(p) =~= Seq::empty());
    }
    lemma_part_grows(all, p, effect_count(cards, n) as int);
    lemma_part_holds(all, p);
}

proof fn lemma_part_holds(all: Seq<(CardId, int)>, p: spec_fn((CardId, int)) -> bool)
    ensures
        forall|v: (CardId, int)| #[trigger]
            all.filter(p).contains(v) <==> all.contains(v) && p(v),
    decreases all.len(),
{
    reveal(Seq::filter);
    if all.len() > 0 {
        let less = all.drop_last();
        lemma_part_holds(less, p);
        assert(all =~= less.push(all.last()));
        let q = less.filter(p);
        assert forall|v: (CardId, int)| #[trigger] all.filter(p).contains(v) implies all.contains(v)
            && p(v) by {
            let i = choose|i: int| 0 <= i < all.filter(p).len() && all.filter(p)[i] == v;
            if i < q.len() {
                assert(q[i] == v);
                assert(q.contains(v));
                let j = choose|j: int| 0 <= j < less.len() && less[j] == v;
                assert(all[j] == v);
            } else {
                assert(all[all.len() - 1] == v);
            }
        }
        assert forall|v: (CardId, int)| all.contains(v) && p(v) implies #[trigger] all.filter(
            p,
        ).contains(v) by {
            let j = choose|j: int| 0 <= j < all.len() && all[j] == v;
            if j < less.len() {
                assert(less[j] == v);
                assert(q.contains(v));
                let i = choose|i: int| 0 <= i < q.len() && q[i] == v;
                assert(all.filter(p)[i] == v);
            } else {
                assert(all.filter(p)[q.len() as int] == v);
            }
        }
    }
}

proof fn lemma_part_grows(all: Seq<(CardId, int)>, p: spec_fn((CardId, int)) -> bool, to: int)
    requires
        places_grow(all, 0, to),
    ensures
        places_grow(all.filter(p), 0, to),
    decreases all.len(),
{
    reveal(Seq::filter);
    if all.len() > 0 {
        let less = all.drop_last();
        assert(places_grow(less, 0, all.last().1)) by {
            assert forall|i: int| 0 <= i < less.len() implies 0 <= (#[trigger] less[i]).1
                < all.last().1 by {
                assert(all[i].1 < all[all.len() - 1].1);
            }
        }
        lemma_part_grows(less, p, all.last().1);
        assert(all[all.len() - 1].1 < to);
    }
}

/// Whether a static ability may give a card that is about to enter a keyword that replaces how it
/// enters, so that the card is to be seen as it will be.
pub open spec fn needs_look_ahead(game: GameState, event: ReplacementEvent) -> bool {
    match event {
        ReplacementEvent::Moved { destination, .. } => destination == ZoneType::Battlefield
            && exists|i: int|
            0 <= i < game.cards@.len() && grants_riot(#[trigger] game.cards@[i]),
        _ => false,
    }
}

/// Whether static abilities work from a zone.
pub open spec fn is_static_source(zone: ZoneType) -> bool {
    match zone {
        ZoneType::Battlefield => true,
        ZoneType::Graveyard => true,
        ZoneType::Exile => true,
        ZoneType::Command => true,
        ZoneType::Stack => true,
        _ => false,
    }
}

pub open spec fn grants_riot(c: Card) -> bool {
    is_static_source(c.zone) && exists|k: int|
        0 <= k < c.static_abilities@.len() && has_part(
            match string_of((#[trigger] c.static_abilities@[k]).add_keyword_text) {
                Some(t) => t,
                None => ""@,
            },
            "Riot"@,
        ) && c.static_abilities@[k].add_keyword_text is Some
}

fn check_grants_riot(c: &Card) -> (r: bool)
    ensures
        r == grants_riot(*c),
{
    let works = match c.zone {
        ZoneType::Battlefield => true,
        ZoneType::Graveyard => true,
        ZoneType::Exile => true,
        ZoneType::Command => true,
        ZoneType::Stack => true,
        _ => false,
    };
    if !works {
        return false;
    }
    let mut k: usize = 0;
    while k < c.static_abilities.len()
        invariant
            k <= c.static_abilities@.len(),
            is_static_source(c.zone),
            forall|j: int|
                0 <= j < k ==> !(has_part(
                    match string_of((#[trigger] c.static_abilities@[j]).add_keyword_text) {
                        Some(t) => t,
                        None => ""@,
                    },
                    "Riot"@,
                ) && c.static_abilities@[j].add_keyword_text is Some),
        decreases c.static_abilities@.len() - k,
    {
        if let Some(t) = &c.static_abilities[k].add_keyword_text {
            if contains(t.as_str(), "Riot") {
                assert(c.static_abilities@[k as int].add_keyword_text == Some(*t));
                return true;
            }
        }
        k = k + 1;
    }
    false
}

/// Says whether the card of an event is to be looked at as it will be on the battlefield.
pub fn battlefield_pre_list_needed(game: &GameState, event: &ReplacementEvent) -> (r: bool)
    ensures
        r == needs_look_ahead(*game, *event),
{
    match event {
        ReplacementEvent::Moved { destination, .. } => {
            if *destination != ZoneType::Battlefield {
                return false;
            }
        },
        _ => {
            return false;
        },
    }
    let mut i: usize = 0;
    while i < game.cards.len()
        invariant
            i <= game.cards@.len(),
            forall|j: int| 0 <= j < i ==> !grants_riot(#[trigger] game.cards@[j]),
            event is Moved,
            event->Moved_destination == ZoneType::Battlefield,
        decreases game.cards@.len() - i,
    {
        if check_grants_riot(&game.cards[i]) {
            assert(grants_riot(game.cards@[i as int]));
            return true;
        }
        i = i + 1;
    }
    false
}

} // verus!
