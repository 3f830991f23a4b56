//! The events that replacement effects look at, and the amounts in them.

use vstd::prelude::*;
use crate::game::{Counter, GameState, PhaseType};
use crate::spell::{GameEntity, SpellAbility};
use crate::text::text_eq;
use crate::types::{CardId, PlayerId, ZoneType};

verus! {

/// The kinds of events that can be replaced.
#[derive(Debug, Clone, Copy, PartialEq, Eq, Structural)]
pub enum ReplacementType {
    DamageDone,
    Draw,
    Destroy,
    Moved,
    GainLife,
    CreateToken,
    AddCounter,
    GameLoss,
    GameWin,
    Counter,
    ProduceMana,
    DrawCards,
    AssembleContraption,
    AssignDealDamage,
    Attached,
    BeginPhase,
    BeginTurn,
    Cascade,
    Connive,
    CopySpell,
    DealtDamage,
    DeclareBlocker,
    Explore,
    Learn,
    LifeReduced,
    LoseMana,
    Mill,
    PayLife,
    PlanarDiceResult,
    Planeswalk,
    Proliferate,
    RemoveCounter,
    RollDice,
    RollPlanarDice,
    Scry,
    SetInMotion,
    Tap,
    Transform,
    TurnFaceUp,
    Untap,
    Other,
}

/// The layers in which effects apply, first to last.
#[derive(Debug, Clone, Copy, PartialEq, Eq, Structural)]
pub enum ReplacementLayer {
    CantHappen,
    Control,
    Copy,
    Transform,
    Other,
}

/// What became of an event.
#[derive(Debug, Clone, Copy, PartialEq, Eq, Structural)]
pub enum ReplacementResult {
    NotReplaced,
    Updated,
    Replaced,
    Skipped,
    Prevented,
}

#[derive(Debug, Clone, Copy, PartialEq, Eq, Structural)]
pub enum GameLossReason {
    LifeReachedZero,
    Milled,
    Poisoned,
    CommanderDamage,
    SpellEffect,
    Conceded,
}

#[derive(Debug, Clone, Copy, PartialEq, Eq, Structural)]
pub enum PlanarDieFace {
    Planeswalk,
    Chaos,
    Blank,
}

/// The face of a planar die by its name.
pub open spec fn face_named(name: Seq<char>) -> Option<PlanarDieFace> {
    if name == "Planeswalk"@ {
        Some(PlanarDieFace::Planeswalk)
    } else if name == "Chaos"@ {
        Some(PlanarDieFace::Chaos)
    } else if name == "Blank"@ {
        Some(PlanarDieFace::Blank)
    } else {
        None
    }
}

impl PlanarDieFace {
    pub fn parse(name: &str) -> (r: Option<PlanarDieFace>)
        ensures
            r == face_named(name@),
    {
        if text_eq(name, "Planeswalk") {
            Some(PlanarDieFace::Planeswalk)
        } else if text_eq(name, "Chaos") {
            Some(PlanarDieFace::Chaos)
        } else if text_eq(name, "Blank") {
            Some(PlanarDieFace::Blank)
        } else {
            None
        }
    }
}

/// The counters that a player puts on something.
pub struct CounterMapValue {
    pub source: Option<PlayerId>,
    pub counters: Vec<Counter>,
}

/// Static abilities that apply once a replacement is over.
pub struct AfterReplacement {
    pub card: CardId,
    pub abilities: Vec<String>,
}

/// Tokens that a player is about to create, by the card that they copy.
pub struct TokenEntry {
    pub player: PlayerId,
    pub token: CardId,
    pub amount: u32,
}

pub struct TokenCreateTable {
    pub entries: Vec<TokenEntry>,
}

/// Dice that a player may choose to ignore.
#[derive(Debug, Clone, Copy, PartialEq, Eq, Structural)]
pub struct IgnoredDice {
    pub player: PlayerId,
    pub amount: i32,
}

/// An event with the values that an effect may change.
pub enum ReplacementEvent {
    Draw { player: PlayerId, extra_draws: i32, is_first_in_draw_step: bool },
    DamageToCard { target: CardId, amount: i32, source: Option<CardId>, is_combat: bool },
    DamageToPlayer { target: PlayerId, amount: i32, source: Option<CardId>, is_combat: bool },
    Destroy { target: CardId },
    Moved {
        card: CardId,
        origin: ZoneType,
        destination: ZoneType,
        is_discard: bool,
        counter_map: Option<Vec<CounterMapValue>>,
        counter_cause: Option<Box<SpellAbility>>,
        counter_is_effect: bool,
        after_replacement_static_abilities: Vec<AfterReplacement>,
        stack_sa: Option<Box<SpellAbility>>,
        fizzle: Option<bool>,
    },
    GainLife { player: PlayerId, amount: i32 },
    CreateToken { player: PlayerId, token_table: TokenCreateTable, is_effect: bool },
    AddCounter {
        target: GameEntity,
        source: Option<PlayerId>,
        counter_type: String,
        count: i32,
        counter_map: Vec<CounterMapValue>,
        after_replacement_static_abilities: Vec<AfterReplacement>,
        cause: Option<Box<SpellAbility>>,
        is_effect: bool,
    },
    GameLoss { player: PlayerId, reason: GameLossReason },
    GameWin { player: PlayerId },
    Counter { card: CardId },
    ProduceMana { source: CardId, activator: PlayerId, mana: String },
    Tap { card: CardId },
    Untap { card: CardId, player: Option<PlayerId> },
    LifeReduced { player: PlayerId, amount: i32, is_damage: bool },
    RemoveCounter { target: CardId, counter_type: String, count: i32 },
    DealtDamage { target: CardId, amount: i32, source: Option<CardId> },
    DrawCards { player: PlayerId, count: i32 },
    Mill { player: PlayerId, count: i32 },
    PayLife { player: PlayerId, amount: i32 },
    Scry { player: PlayerId, count: i32 },
    Attached { card: CardId, target: CardId },
    BeginPhase { player: PlayerId, phase: PhaseType },
    BeginTurn { player: PlayerId },
    Explore { card: CardId },
    Connive { card: CardId },
    DeclareBlocker { player: PlayerId },
    AssignDealDamage { card: CardId },
    Transform { card: CardId },
    TurnFaceUp { card: CardId },
    CopySpell { player: PlayerId, count: i32 },
    Proliferate { player: PlayerId, count: i32 },
    Cascade { player: PlayerId },
    Learn { player: PlayerId },
    LoseMana { player: PlayerId, mana: u16 },
    RollDice {
        player: PlayerId,
        sides: i32,
        number: i32,
        ignore: i32,
        ignore_chosen: Vec<IgnoredDice>,
        dice_pt_exchanges: Vec<CardId>,
    },
    RollPlanarDice { player: PlayerId, number: i32, ignore: i32 },
    PlanarDiceResult { player: PlayerId, result: PlanarDieFace },
    Planeswalk { player: PlayerId },
    SetInMotion { player: PlayerId },
    AssembleContraption { player: PlayerId },
}

/// Whom an event is about: a player, or the controller of a card.
pub open spec fn event_subject(event: ReplacementEvent) -> GameEntity {
    match event {
        ReplacementEvent::Draw { player, .. } => GameEntity::Player(player),
        ReplacementEvent::DamageToPlayer { target, .. } => GameEntity::Player(target),
        ReplacementEvent::GainLife { player, .. } => GameEntity::Player(player),
        ReplacementEvent::CreateToken { player, .. } => GameEntity::Player(player),
        ReplacementEvent::GameLoss { player, .. } => GameEntity::Player(player),
        ReplacementEvent::GameWin { player, .. } => GameEntity::Player(player),
        ReplacementEvent::LifeReduced { player, .. } => GameEntity::Player(player),
        ReplacementEvent::DrawCards { player, .. } => GameEntity::Player(player),
        ReplacementEvent::Mill { player, .. } => GameEntity::Player(player),
        ReplacementEvent::PayLife { player, .. } => GameEntity::Player(player),
        ReplacementEvent::Scry { player, .. } => GameEntity::Player(player),
        ReplacementEvent::BeginPhase { player, .. } => GameEntity::Player(player),
        ReplacementEvent::BeginTurn { player, .. } => GameEntity::Player(player),
        ReplacementEvent::DeclareBlocker { player, .. } => GameEntity::Player(player),
        ReplacementEvent::CopySpell { player, .. } => GameEntity::Player(player),
        ReplacementEvent::Proliferate { player, .. } => GameEntity::Player(player),
        ReplacementEvent::Cascade { player, .. } => GameEntity::Player(player),
        ReplacementEvent::Learn { player, .. } => GameEntity::Player(player),
        ReplacementEvent::LoseMana { player, .. } => GameEntity::Player(player),
        ReplacementEvent::RollDice { player, .. } => GameEntity::Player(player),
        ReplacementEvent::RollPlanarDice { player, .. } => GameEntity::Player(player),
        ReplacementEvent::PlanarDiceResult { player, .. } => GameEntity::Player(player),
        ReplacementEvent::Planeswalk { player, .. } => GameEntity::Player(player),
        ReplacementEvent::SetInMotion { player, .. } => GameEntity::Player(player),
        ReplacementEvent::AssembleContraption { player, .. } => GameEntity::Player(player),
        ReplacementEvent::DamageToCard { target, .. } => GameEntity::Card(target),
        ReplacementEvent::Destroy { target, .. } => GameEntity::Card(target),
        ReplacementEvent::Moved { card, .. } => GameEntity::Card(card),
        ReplacementEvent::Counter { card, .. } => GameEntity::Card(card),
        ReplacementEvent::Tap { card, .. } => GameEntity::Card(card),
        ReplacementEvent::Untap { card, .. } => GameEntity::Card(card),
        ReplacementEvent::RemoveCounter { target, .. } => GameEntity::Card(target),
        ReplacementEvent::DealtDamage { target, .. } => GameEntity::Card(target),
        ReplacementEvent::Attached { card, .. } => GameEntity::Card(card),
        ReplacementEvent::Explore { card, .. } => GameEntity::Card(card),
        ReplacementEvent::Connive { card, .. } => GameEntity::Card(card),
        ReplacementEvent::AssignDealDamage { card, .. } => GameEntity::Card(card),
        ReplacementEvent::Transform { card, .. } => GameEntity::Card(card),
        ReplacementEvent::TurnFaceUp { card, .. } => GameEntity::Card(card),
        ReplacementEvent::AddCounter { target, .. } => target,
        ReplacementEvent::ProduceMana { activator, .. } => GameEntity::Player(activator),
    }
}

pub fn subject_of_event(event: &ReplacementEvent) -> (r: GameEntity)
    ensures
        r == event_subject(*event),
{
    match event {
        ReplacementEvent::Draw { player, .. } => GameEntity::Player(*player),
        ReplacementEvent::DamageToPlayer { target, .. } => GameEntity::Player(*target),
        ReplacementEvent::GainLife { player, .. } => GameEntity::Player(*player),
        ReplacementEvent::CreateToken { player, .. } => GameEntity::Player(*player),
        ReplacementEvent::GameLoss { player, .. } => GameEntity::Player(*player),
        ReplacementEvent::GameWin { player, .. } => GameEntity::Player(*player),
        ReplacementEvent::LifeReduced { player, .. } => GameEntity::Player(*player),
        ReplacementEvent::DrawCards { player, .. } => GameEntity::Player(*player),
        ReplacementEvent::Mill { player, .. } => GameEntity::Player(*player),
        ReplacementEvent::PayLife { player, .. } => GameEntity::Player(*player),
        ReplacementEvent::Scry { player, .. } => GameEntity::Player(*player),
        ReplacementEvent::BeginPhase { player, .. } => GameEntity::Player(*player),
        ReplacementEvent::BeginTurn { player, .. } => GameEntity::Player(*player),
        ReplacementEvent::DeclareBlocker { player, .. } => GameEntity::Player(*player),
        ReplacementEvent::CopySpell { player, .. } => GameEntity::Player(*player),
        ReplacementEvent::Proliferate { player, .. } => GameEntity::Player(*player),
        ReplacementEvent::Cascade { player, .. } => GameEntity::Player(*player),
        ReplacementEvent::Learn { player, .. } => GameEntity::Player(*player),
        ReplacementEvent::LoseMana { player, .. } => GameEntity::Player(*player),
        ReplacementEvent::RollDice { player, .. } => GameEntity::Player(*player),
        ReplacementEvent::RollPlanarDice { player, .. } => GameEntity::Player(*player),
        ReplacementEvent::PlanarDiceResult { player, .. } => GameEntity::Player(*player),
        ReplacementEvent::Planeswalk { player, .. } => GameEntity::Player(*player),
        ReplacementEvent::SetInMotion { player, .. } => GameEntity::Player(*player),
        ReplacementEvent::AssembleContraption { player, .. } => GameEntity::Player(*player),
        ReplacementEvent::DamageToCard { target, .. } => GameEntity::Card(*target),
        ReplacementEvent::Destroy { target, .. } => GameEntity::Card(*target),
        ReplacementEvent::Moved { card, .. } => GameEntity::Card(*card),
        ReplacementEvent::Counter { card, .. } => GameEntity::Card(*card),
        ReplacementEvent::Tap { card, .. } => GameEntity::Card(*card),
        ReplacementEvent::Untap { card, .. } => GameEntity::Card(*card),
        ReplacementEvent::RemoveCounter { target, .. } => GameEntity::Card(*target),
        ReplacementEvent::DealtDamage { target, .. } => GameEntity::Card(*target),
        ReplacementEvent::Attached { card, .. } => GameEntity::Card(*card),
        ReplacementEvent::Explore { card, .. } => GameEntity::Card(*card),
        ReplacementEvent::Connive { card, .. } => GameEntity::Card(*card),
        ReplacementEvent::AssignDealDamage { card, .. } => GameEntity::Card(*card),
        ReplacementEvent::Transform { card, .. } => GameEntity::Card(*card),
        ReplacementEvent::TurnFaceUp { card, .. } => GameEntity::Card(*card),
        ReplacementEvent::AddCounter { target, .. } => *target,
        ReplacementEvent::ProduceMana { activator, .. } => GameEntity::Player(*activator),
    }
}

/// The player of an entity; a card that is not there belongs to nobody.
pub open spec fn player_of_entity(entity: GameEntity, game: GameState) -> Option<PlayerId> {
    match entity {
        GameEntity::Player(p) => Some(p),
        GameEntity::Card(c) => match game.card_at(c) {
            Some(card) => Some(card.controller),
            None => None,
        },
    }
}

/// The player who is affected by an event.
pub fn affected_player_for_event(event: &ReplacementEvent, game: &GameState) -> (r: Option<PlayerId>)
    ensures
        r == player_of_entity(event_subject(*event), *game),
{
    match subject_of_event(event) {
        GameEntity::Player(p) => Some(p),
        GameEntity::Card(c) => match game.card(c) {
            Some(card) => Some(card.controller),
            None => None,
        },
    }
}

/// The kind of an event.
pub open spec fn event_kind(event: ReplacementEvent) -> ReplacementType {
    match event {
        ReplacementEvent::Draw { .. } => ReplacementType::Draw,
        ReplacementEvent::DamageToPlayer { .. } => ReplacementType::DamageDone,
        ReplacementEvent::GainLife { .. } => ReplacementType::GainLife,
        ReplacementEvent::CreateToken { .. } => ReplacementType::CreateToken,
        ReplacementEvent::GameLoss { .. } => ReplacementType::GameLoss,
        ReplacementEvent::GameWin { .. } => ReplacementType::GameWin,
        ReplacementEvent::LifeReduced { .. } => ReplacementType::LifeReduced,
        ReplacementEvent::DrawCards { .. } => ReplacementType::DrawCards,
        ReplacementEvent::Mill { .. } => ReplacementType::Mill,
        ReplacementEvent::PayLife { .. } => ReplacementType::PayLife,
        ReplacementEvent::Scry { .. } => ReplacementType::Scry,
        ReplacementEvent::BeginPhase { .. } => ReplacementType::BeginPhase,
        ReplacementEvent::BeginTurn { .. } => ReplacementType::BeginTurn,
        ReplacementEvent::DeclareBlocker { .. } => ReplacementType::DeclareBlocker,
        ReplacementEvent::CopySpell { .. } => ReplacementType::CopySpell,
        ReplacementEvent::Proliferate { .. } => ReplacementType::Proliferate,
        ReplacementEvent::Cascade { .. } => ReplacementType::Cascade,
        ReplacementEvent::Learn { .. } => ReplacementType::Learn,
        ReplacementEvent::LoseMana { .. } => ReplacementType::LoseMana,
        ReplacementEvent::RollDice { .. } => ReplacementType::RollDice,
        ReplacementEvent::RollPlanarDice { .. } => ReplacementType::RollPlanarDice,
        ReplacementEvent::PlanarDiceResult { .. } => ReplacementType::PlanarDiceResult,
        ReplacementEvent::Planeswalk { .. } => ReplacementType::Planeswalk,
        ReplacementEvent::SetInMotion { .. } => ReplacementType::SetInMotion,
        ReplacementEvent::AssembleContraption { .. } => ReplacementType::AssembleContraption,
        ReplacementEvent::DamageToCard { .. } => ReplacementType::DamageDone,
        ReplacementEvent::Destroy { .. } => ReplacementType::Destroy,
        ReplacementEvent::Moved { .. } => ReplacementType::Moved,
        ReplacementEvent::Counter { .. } => ReplacementType::Counter,
        ReplacementEvent::Tap { .. } => ReplacementType::Tap,
        ReplacementEvent::Untap { .. } => ReplacementType::Untap,
        ReplacementEvent::RemoveCounter { .. } => ReplacementType::RemoveCounter,
        ReplacementEvent::DealtDamage { .. } => ReplacementType::DealtDamage,
        ReplacementEvent::Attached { .. } => ReplacementType::Attached,
        ReplacementEvent::Explore { .. } => ReplacementType::Explore,
        ReplacementEvent::Connive { .. } => ReplacementType::Connive,
        ReplacementEvent::AssignDealDamage { .. } => ReplacementType::AssignDealDamage,
        ReplacementEvent::Transform { .. } => ReplacementType::Transform,
        ReplacementEvent::TurnFaceUp { .. } => ReplacementType::TurnFaceUp,
        ReplacementEvent::AddCounter { .. } => ReplacementType::AddCounter,
        ReplacementEvent::ProduceMana { .. } => ReplacementType::ProduceMana,
    }
}

pub fn kind_of_event(event: &ReplacementEvent) -> (r: ReplacementType)
    ensures
        r == event_kind(*event),
{
    match event {
        ReplacementEvent::Draw { .. } => ReplacementType::Draw,
        ReplacementEvent::DamageToPlayer { .. } => ReplacementType::DamageDone,
        ReplacementEvent::GainLife { .. } => ReplacementType::GainLife,
        ReplacementEvent::CreateToken { .. } => ReplacementType::CreateToken,
        ReplacementEvent::GameLoss { .. } => ReplacementType::GameLoss,
        ReplacementEvent::GameWin { .. } => ReplacementType::GameWin,
        ReplacementEvent::LifeReduced { .. } => ReplacementType::LifeReduced,
        ReplacementEvent::DrawCards { .. } => ReplacementType::DrawCards,
        ReplacementEvent::Mill { .. } => ReplacementType::Mill,
        ReplacementEvent::PayLife { .. } => ReplacementType::PayLife,
        ReplacementEvent::Scry { .. } => ReplacementType::Scry,
        ReplacementEvent::BeginPhase { .. } => ReplacementType::BeginPhase,
        ReplacementEvent::BeginTurn { .. } => ReplacementType::BeginTurn,
        ReplacementEvent::DeclareBlocker { .. } => ReplacementType::DeclareBlocker,
        ReplacementEvent::CopySpell { .. } => ReplacementType::CopySpell,
        ReplacementEvent::Proliferate { .. } => ReplacementType::Proliferate,
        ReplacementEvent::Cascade { .. } => ReplacementType::Cascade,
        ReplacementEvent::Learn { .. } => ReplacementType::Learn,
        ReplacementEvent::LoseMana { .. } => ReplacementType::LoseMana,
        ReplacementEvent::RollDice { .. } => ReplacementType::RollDice,
        ReplacementEvent::RollPlanarDice { .. } => ReplacementType::RollPlanarDice,
        ReplacementEvent::PlanarDiceResult { .. } => ReplacementType::PlanarDiceResult,
        ReplacementEvent::Planeswalk { .. } => ReplacementType::Planeswalk,
        ReplacementEvent::SetInMotion { .. } => ReplacementType::SetInMotion,
        ReplacementEvent::AssembleContraption { .. } => ReplacementType::AssembleContraption,
        ReplacementEvent::DamageToCard { .. } => ReplacementType::DamageDone,
        ReplacementEvent::Destroy { .. } => ReplacementType::Destroy,
        ReplacementEvent::Moved { .. } => ReplacementType::Moved,
        ReplacementEvent::Counter { .. } => ReplacementType::Counter,
        ReplacementEvent::Tap { .. } => ReplacementType::Tap,
        ReplacementEvent::Untap { .. } => ReplacementType::Untap,
        ReplacementEvent::RemoveCounter { .. } => ReplacementType::RemoveCounter,
        ReplacementEvent::DealtDamage { .. } => ReplacementType::DealtDamage,
        ReplacementEvent::Attached { .. } => ReplacementType::Attached,
        ReplacementEvent::Explore { .. } => ReplacementType::Explore,
        ReplacementEvent::Connive { .. } => ReplacementType::Connive,
        ReplacementEvent::AssignDealDamage { .. } => ReplacementType::AssignDealDamage,
        ReplacementEvent::Transform { .. } => ReplacementType::Transform,
        ReplacementEvent::TurnFaceUp { .. } => ReplacementType::TurnFaceUp,
        ReplacementEvent::AddCounter { .. } => ReplacementType::AddCounter,
        ReplacementEvent::ProduceMana { .. } => ReplacementType::ProduceMana,
    }
}

// ---- amounts ----

/// The amount of an event, where it has one.
pub open spec fn event_amount(event: ReplacementEvent) -> Option<i32> {
    match event {
        ReplacementEvent::DamageToCard { amount, .. } => Some(amount),
        ReplacementEvent::DamageToPlayer { amount, .. } => Some(amount),
        ReplacementEvent::GainLife { amount, .. } => Some(amount),
        ReplacementEvent::LifeReduced { amount, .. } => Some(amount),
        ReplacementEvent::AddCounter { count, .. } => Some(count),
        ReplacementEvent::DrawCards { count, .. } => Some(count),
        ReplacementEvent::Mill { count, .. } => Some(count),
        ReplacementEvent::PayLife { amount, .. } => Some(amount),
        ReplacementEvent::Scry { count, .. } => Some(count),
        ReplacementEvent::CopySpell { count, .. } => Some(count),
        ReplacementEvent::Proliferate { count, .. } => Some(count),
        ReplacementEvent::RollDice { number, .. } => Some(number),
        ReplacementEvent::RollPlanarDice { number, .. } => Some(number),
        _ => None,
    }
}

pub fn replacement_event_amount(event: &ReplacementEvent) -> (r: Option<i32>)
    ensures
        r == event_amount(*event),
{
    match event {
        ReplacementEvent::DamageToCard { amount, .. } => Some(*amount),
        ReplacementEvent::DamageToPlayer { amount, .. } => Some(*amount),
        ReplacementEvent::GainLife { amount, .. } => Some(*amount),
        ReplacementEvent::LifeReduced { amount, .. } => Some(*amount),
        ReplacementEvent::AddCounter { count, .. } => Some(*count),
        ReplacementEvent::DrawCards { count, .. } => Some(*count),
        ReplacementEvent::Mill { count, .. } => Some(*count),
        ReplacementEvent::PayLife { amount, .. } => Some(*amount),
        ReplacementEvent::Scry { count, .. } => Some(*count),
        ReplacementEvent::CopySpell { count, .. } => Some(*count),
        ReplacementEvent::Proliferate { count, .. } => Some(*count),
        ReplacementEvent::RollDice { number, .. } => Some(*number),
        ReplacementEvent::RollPlanarDice { number, .. } => Some(*number),
        _ => None,
    }
}

/// A number, or zero where it is negative.
pub open spec fn not_negative(n: i32) -> i32 {
    if n < 0 {
        0
    } else {
        n
    }
}

/// The event with another amount, as it stands where it has none.
pub open spec fn with_amount(event: ReplacementEvent, value: i32) -> ReplacementEvent {
    match event {
        ReplacementEvent::DamageToCard { amount, target, source, is_combat } => ReplacementEvent::DamageToCard {
            amount: value,
            target,
            source,
            is_combat,
        },
        ReplacementEvent::DamageToPlayer { amount, target, source, is_combat } => ReplacementEvent::DamageToPlayer {
            amount: value,
            target,
            source,
            is_combat,
        },
        ReplacementEvent::GainLife { amount, player } => ReplacementEvent::GainLife {
            amount: value,
            player,
        },
        ReplacementEvent::LifeReduced { amount, player, is_damage } => ReplacementEvent::LifeReduced {
            amount: value,
            player,
            is_damage,
        },
        ReplacementEvent::AddCounter { count, target, source, counter_type, counter_map, after_replacement_static_abilities, cause, is_effect } => ReplacementEvent::AddCounter {
            count: value,
            target,
            source,
            counter_type,
            counter_map,
            after_replacement_static_abilities,
            cause,
            is_effect,
        },
        ReplacementEvent::DrawCards { count, player } => ReplacementEvent::DrawCards {
            count: value,
            player,
        },
        ReplacementEvent::Mill { count, player } => ReplacementEvent::Mill {
            count: value,
            player,
        },
        ReplacementEvent::PayLife { amount, player } => ReplacementEvent::PayLife {
            amount: value,
            player,
        },
        ReplacementEvent::Scry { count, player } => ReplacementEvent::Scry {
            count: value,
            player,
        },
        ReplacementEvent::CopySpell { count, player } => ReplacementEvent::CopySpell {
            count: value,
            player,
        },
        ReplacementEvent::Proliferate { count, player } => ReplacementEvent::Proliferate {
            count: value,
            player,
        },
        ReplacementEvent::RollDice { number, player, sides, ignore, ignore_chosen, dice_pt_exchanges } => ReplacementEvent::RollDice {
            number: value,
            player,
            sides,
            ignore,
            ignore_chosen,
            dice_pt_exchanges,
        },
        ReplacementEvent::RollPlanarDice { number, player, ignore } => ReplacementEvent::RollPlanarDice {
            number: value,
            player,
            ignore,
        },
        _ => event,
    }
}

/// Sets the amount of an event, at least zero; says whether it has one.
pub fn set_replacement_event_amount(event: &mut ReplacementEvent, value: i32) -> (r: bool)
    ensures
        r == (event_amount(*old(event)) is Some),
        *final(event) == with_amount(*old(event), not_negative(value)),
{
    let v: i32 = if value < 0 {
        0
    } else {
        value
    };
    match event {
        ReplacementEvent::DamageToCard { amount, .. } => {
            *amount = v;
        },
        ReplacementEvent::DamageToPlayer { amount, .. } => {
            *amount = v;
        },
        ReplacementEvent::GainLife { amount, .. } => {
            *amount = v;
        },
        ReplacementEvent::LifeReduced { amount, .. } => {
            *amount = v;
        },
        ReplacementEvent::AddCounter { count, .. } => {
            *count = v;
        },
        ReplacementEvent::DrawCards { count, .. } => {
            *count = v;
        },
        ReplacementEvent::Mill { count, .. } => {
            *count = v;
        },
        ReplacementEvent::PayLife { amount, .. } => {
            *amount = v;
        },
        ReplacementEvent::Scry { count, .. } => {
            *count = v;
        },
        ReplacementEvent::CopySpell { count, .. } => {
            *count = v;
        },
        ReplacementEvent::Proliferate { count, .. } => {
            *count = v;
        },
        ReplacementEvent::RollDice { number, .. } => {
            *number = v;
        },
        ReplacementEvent::RollPlanarDice { number, .. } => {
            *number = v;
        },
        _ => {
            return false;
        },
    }
    true
}

/// The event with its damage redirected; other events stay.
pub open spec fn with_affected(event: ReplacementEvent, affected: GameEntity) -> ReplacementEvent {
    match event {
        ReplacementEvent::DamageToCard { amount, source, is_combat, .. } => damage_event(
            affected,
            amount,
            source,
            is_combat,
        ),
        ReplacementEvent::DamageToPlayer { amount, source, is_combat, .. } => damage_event(
            affected,
            amount,
            source,
            is_combat,
        ),
        _ => event,
    }
}

/// Damage to a card or a player.
pub open spec fn damage_event(
    target: GameEntity,
    amount: i32,
    source: Option<CardId>,
    is_combat: bool,
) -> ReplacementEvent {
    match target {
        GameEntity::Card(target) => ReplacementEvent::DamageToCard {
            target,
            amount,
            source,
            is_combat,
        },
        GameEntity::Player(target) => ReplacementEvent::DamageToPlayer {
            target,
            amount,
            source,
            is_combat,
        },
    }
}

pub fn make_damage_event(
    target: GameEntity,
    amount: i32,
    source: Option<CardId>,
    is_combat: bool,
) -> (r: ReplacementEvent)
    ensures
        r == damage_event(target, amount, source, is_combat),
{
    match target {
        GameEntity::Card(target) => ReplacementEvent::DamageToCard {
            target,
            amount,
            source,
            is_combat,
        },
        GameEntity::Player(target) => ReplacementEvent::DamageToPlayer {
            target,
            amount,
            source,
            is_combat,
        },
    }
}

/// The damage that a source deals to a target, as an event.
pub fn damage_run_params(source: CardId, target: GameEntity, amount: i32, is_combat: bool) -> (r:
    ReplacementEvent)
    ensures
        r == damage_event(target, amount, Some(source), is_combat),
{
    make_damage_event(target, amount, Some(source), is_combat)
}

/// Redirects the damage of an event.
pub fn set_replacement_event_affected(event: &mut ReplacementEvent, affected: GameEntity)
    ensures
        *final(event) == with_affected(*old(event), affected),
{
    let redirected = match event {
        ReplacementEvent::DamageToCard { amount, source, is_combat, .. } => make_damage_event(
            affected,
            *amount,
            *source,
            *is_combat,
        ),
        ReplacementEvent::DamageToPlayer { amount, source, is_combat, .. } => make_damage_event(
            affected,
            *amount,
            *source,
            *is_combat,
        ),
        _ => {
            return;
        },
    };
    *event = redirected;
}

/// What an amount reads after it was set: the value, at least zero.
pub proof fn law_amount_reads_back(event: ReplacementEvent, value: i32)
    requires
        event_amount(event) is Some,
    ensures
        event_amount(with_amount(event, not_negative(value))) == Some(not_negative(value)),
        event_kind(with_amount(event, value)) == event_kind(event),
        event_subject(with_amount(event, value)) == event_subject(event),
{
}

/// Redirecting damage keeps its amount, its source and whether it is combat damage.
pub proof fn law_redirection_keeps_the_amount(event: ReplacementEvent, affected: GameEntity)
    requires
        event_kind(event) == ReplacementType::DamageDone,
    ensures
        event_kind(with_affected(event, affected)) == ReplacementType::DamageDone,
        event_amount(with_affected(event, affected)) == event_amount(event),
        event_subject(with_affected(event, affected)) == affected,
{
}

} // verus!
