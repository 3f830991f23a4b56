//! Card selectors and the predicates that they are made of.

use vstd::prelude::*;
use crate::types::{AbilityKey, AlternativeCost, OptionalCost, ZoneType};

verus! {

/// One condition of a selector.
#[derive(Debug, PartialEq, Eq)]
pub enum SelectorPredicate {
    Any,
    Player,
    CardType(CardSelectorType),
    CardIdentity(CardIdentitySelector),
    CardController(ControllerSelector),
    CardOwner(ControllerSelector),
    PlayerController(ControllerSelector),
    CardSupertype(CardSupertypeSelector),
    Tapped(bool),
    StartedTurnTapped(bool),
    CameUnderControlSinceLastUpkeep,
    Zone(ZoneType),
    RememberedCard,
    TriggerRememberedCard,
    EffectSource,
    NoName,
    Commander,
    Legendary,
    PowerLtToughness,
    PowerGtBasePower,
    CastSaSource,
    Kicked,
    Monstrous,
    Renowned,
    Foretold,
    Goaded,
    DoubleFaced,
    Transformed,
    FrontSide,
    BackSide,
    CanProduceMana,
    NoAbilities,
    CastWith(AlternativeCost),
    CastWithOptional(OptionalCost),
    Token(bool),
    Color(CardColorSelector),
    Multicolor,
    Monocolor,
    Colorless,
    SourceColor(CardColorSelector),
    SourceColorless,
    ChosenColorSource,
    CardState(CardStateSelector),
    Context(ContextPredicate),
    Relation(RelationPredicate),
    DamagedBy,
    AttachedBy,
    WasCast {
        by_you: bool,
    },
    ChosenType,
    Keyword {
        name: String,
        present: bool,
    },
    NumericComparison {
        property: NumericSelectorProperty,
        operator: SelectorCompareOperator,
        value: SelectorNumericOperand,
    },
    NumericParity {
        property: NumericSelectorProperty,
        even: bool,
    },
    CounterComparison {
        operator: SelectorCompareOperator,
        value: SelectorNumericOperand,
        counter_type: String,
    },
    Not(Box<SelectorPredicate>),
    Raw(String),
}

/// Card types, names and subtypes.
#[derive(Debug, Clone, PartialEq, Eq)]
pub enum CardSelectorType {
    Card,
    Creature,
    Land,
    Instant,
    Sorcery,
    Artifact,
    Enchantment,
    Planeswalker,
    Permanent,
    Spell,
    NonLand,
    NonCreature,
    Named(String),
    Subtype(String),
}

/// Supertypes that a selector can ask for.
#[derive(Debug, Clone, Copy, PartialEq, Eq, Structural)]
pub enum CardSupertypeSelector {
    Basic,
    Snow,
}

/// Whose side a card or player is on, seen from the source's controller.
#[derive(Debug, Clone, Copy, PartialEq, Eq, Structural)]
pub enum ControllerSelector {
    You,
    Opponent,
}

/// Whether a card is the source itself.
#[derive(Debug, Clone, Copy, PartialEq, Eq, Structural)]
pub enum CardIdentitySelector {
    Self_,
    Other,
}

/// The five colours.
#[derive(Debug, Clone, Copy, PartialEq, Eq, Structural)]
pub enum CardColorSelector {
    White,
    Blue,
    Black,
    Red,
    Green,
}

/// Predicates that need more than the candidate card.
#[derive(Debug, Clone, PartialEq, Eq)]
pub enum ContextPredicate {
    Attacking(Option<TargetRef>),
    AttackingAlone,
    Blocking(Option<TargetRef>),
    BlockedByValidThisTurn(TargetRef),
    BlockedByValidThisTurnType(CardSelectorType),
    BlockedValidThisTurn(CardSelectorType),
    BlockingValid(CardSelectorType),
    Blocked,
    Unblocked,
    AttackedThisTurn,
    AttackedThisCombat,
    BlockingSource,
    BlockedBySource,
    WasCastFrom(CastOrigin),
    EnteredThisTurnFrom(ZoneType),
    EnteredUnder(TargetRef),
    TopLibrary,
    ExiledWithSource,
    ExiledWithEffectSource,
    CastSa(String),
    RememberedPlayerCtrl,
    RememberedPlayerOwn,
    TargetedPlayerCtrl,
    TargetedBy,
    ActivePlayerCtrl,
    DefenderCtrl,
    EnchantedController,
    ControlledBy(String),
    GreatestPower(Option<String>),
    LeastPower(Option<String>),
    NotDefinedTargeted,
    Triggered(AbilityKey),
}

/// Predicates that relate a card to another object.
#[derive(Debug, Clone, PartialEq, Eq)]
pub enum RelationPredicate {
    SharesNameWith(TargetRef),
    SharesNameWithValid(String),
    DoesNotShareNameWith(TargetRef),
    DoesNotShareNameWithValid(String),
    SharesCardTypeWith(TargetRef),
    SharesCardTypeWithOther(TargetRef),
    SharesCreatureTypeWith(TargetRef),
    SharesColorWith(TargetRef),
    SharesManaValueWith(TargetRef),
    AttachedTo(TargetRef),
    AttachedToType(CardSelectorType),
    OwnedBy(TargetRef),
    OpponentOf(TargetRef),
    IsTargeting(TargetRef),
}

/// An object that a relation refers to.
#[derive(Debug, Clone, Copy, PartialEq, Eq, Structural)]
pub enum TargetRef {
    Source,
    Remembered,
    RememberedLki,
    Imprinted,
    ChosenCard,
    ChosenPlayer,
    Targeted,
    Player,
    Opponent,
    Battlefield,
    OtherYourBattlefield,
    YourGraveyard,
    TriggeredTarget,
    TriggeredPlayer,
    TriggeredCard,
    TriggeredCardController,
    TriggeredDefendingPlayer,
    TriggeredAttackedTarget,
    Commander,
}

/// Where a spell was cast from, and by whom.
#[derive(Debug, Clone, Copy, PartialEq, Eq, Structural)]
pub enum CastOrigin {
    Hand,
    YourHand,
    YourHandByYou,
    TheirHand,
    Exile,
    Graveyard,
    YourGraveyard,
    YourGraveyardByYou,
    YourLibrary,
}

/// States of a card that need no further context.
#[derive(Debug, Clone, Copy, PartialEq, Eq, Structural)]
pub enum CardStateSelector {
    FaceDown,
    Paired,
    PairedWithSource,
    Attached,
    Equipped,
    Enchanted,
    HasCounters,
    IsImprinted,
    Chosen,
    ChosenCard,
    NamedCard,
    ChosenColor,
    EnteredThisTurn,
    WasDealtDamageThisTurn,
    DealtDamageThisTurn,
    DealtDamageToAny,
    DealtCombatDamageToAny,
    Historic,
    Modified,
    Saddled,
    MayPlaySource,
    Suspended,
    HasXCost,
    SingleTarget,
    PromisedGift,
    RingBearer,
    Worthy,
}

/// Numbers that a selector can compare.
#[derive(Debug, Clone, Copy, PartialEq, Eq, Structural)]
pub enum NumericSelectorProperty {
    ManaValue,
    Power,
    Toughness,
    TotalPT,
    TargetCount,
    ManaSpent,
}

/// The right-hand side of a comparison.
#[derive(Debug, Clone, PartialEq, Eq)]
pub enum SelectorNumericOperand {
    Literal(i32),
    Symbol(String),
}

/// Comparison operators.
#[derive(Debug, Clone, Copy, PartialEq, Eq, Structural)]
pub enum SelectorCompareOperator {
    Eq,
    Ne,
    Lt,
    Le,
    Gt,
    Ge,
}

/// One part of a selector alternative and the mark that stood before it.
#[derive(Debug, Clone, PartialEq, Eq)]
pub struct CompiledSelectorPart {
    pub separator: Option<char>,
    pub value: String,
}

/// One alternative of a selector as it was written.
#[derive(Debug, Clone, PartialEq, Eq)]
pub struct CompiledSelectorAlternative {
    pub raw: String,
    pub parts: Vec<CompiledSelectorPart>,
}

/// The conditions that one alternative asks for, all of them at once.
#[derive(Debug, PartialEq, Eq)]
pub struct SelectorAlt {
    pub predicates: Vec<SelectorPredicate>,
}

/// A selector: a card matches where one alternative does.
#[derive(Debug, PartialEq, Eq)]
pub struct Selector {
    pub alternatives: Vec<SelectorAlt>,
}

/// A selector as written, with the predicates that it stands for.
#[derive(Debug, PartialEq, Eq)]
pub struct CompiledSelector {
    pub alternatives: Vec<CompiledSelectorAlternative>,
    pub ir: Selector,
}

/// The rank by which the conditions of an alternative are tried: cheap ones first.
pub open spec fn predicate_rank(predicate: SelectorPredicate) -> u8
    decreases predicate,
{
    match predicate {
        SelectorPredicate::Any
        | SelectorPredicate::CardType(_)
        | SelectorPredicate::CardSupertype(_)
        | SelectorPredicate::Zone(_)
        | SelectorPredicate::CardController(_)
        | SelectorPredicate::CardOwner(_)
        | SelectorPredicate::Tapped(_)
        | SelectorPredicate::StartedTurnTapped(_)
        | SelectorPredicate::CameUnderControlSinceLastUpkeep
        | SelectorPredicate::Token(_)
        | SelectorPredicate::Color(_)
        | SelectorPredicate::Multicolor
        | SelectorPredicate::Monocolor
        | SelectorPredicate::Colorless
        | SelectorPredicate::Commander
        | SelectorPredicate::Legendary
        | SelectorPredicate::PowerLtToughness
        | SelectorPredicate::PowerGtBasePower
        | SelectorPredicate::CastSaSource
        | SelectorPredicate::Kicked
        | SelectorPredicate::Monstrous
        | SelectorPredicate::Renowned
        | SelectorPredicate::Foretold
        | SelectorPredicate::Goaded
        | SelectorPredicate::DoubleFaced
        | SelectorPredicate::Transformed
        | SelectorPredicate::FrontSide
        | SelectorPredicate::BackSide
        | SelectorPredicate::CanProduceMana
        | SelectorPredicate::NoAbilities
        | SelectorPredicate::CastWith(_)
        | SelectorPredicate::CastWithOptional(_) => 0,
        SelectorPredicate::CardIdentity(_) | SelectorPredicate::PlayerController(_) => 1,
        SelectorPredicate::NumericComparison { .. }
        | SelectorPredicate::NumericParity { .. }
        | SelectorPredicate::CounterComparison { .. }
        | SelectorPredicate::Keyword { .. }
        | SelectorPredicate::CardState(_)
        | SelectorPredicate::ChosenType
        | SelectorPredicate::WasCast { .. }
        | SelectorPredicate::SourceColor(_)
        | SelectorPredicate::SourceColorless
        | SelectorPredicate::ChosenColorSource => 2,
        SelectorPredicate::Context(_) => 3,
        SelectorPredicate::Relation(_) => 4,
        SelectorPredicate::RememberedCard
        | SelectorPredicate::TriggerRememberedCard
        | SelectorPredicate::EffectSource
        | SelectorPredicate::NoName
        | SelectorPredicate::DamagedBy
        | SelectorPredicate::AttachedBy => 5,
        SelectorPredicate::Not(inner) => {
            let r = predicate_rank(*inner);
            if r == u8::MAX { r } else { (r + 1) as u8 }
        },
        SelectorPredicate::Player => 6,
        SelectorPredicate::Raw(_) => 7,
    }
}

pub fn selector_predicate_order(predicate: &SelectorPredicate) -> (r: u8)
    ensures
        r == predicate_rank(*predicate),
    decreases predicate,
{
    match predicate {
        SelectorPredicate::Any
        | SelectorPredicate::CardType(_)
        | SelectorPredicate::CardSupertype(_)
        | SelectorPredicate::Zone(_)
        | SelectorPredicate::CardController(_)
        | SelectorPredicate::CardOwner(_)
        | SelectorPredicate::Tapped(_)
        | SelectorPredicate::StartedTurnTapped(_)
        | SelectorPredicate::CameUnderControlSinceLastUpkeep
        | SelectorPredicate::Token(_)
        | SelectorPredicate::Color(_)
        | SelectorPredicate::Multicolor
        | SelectorPredicate::Monocolor
        | SelectorPredicate::Colorless
        | SelectorPredicate::Commander
        | SelectorPredicate::Legendary
        | SelectorPredicate::PowerLtToughness
        | SelectorPredicate::PowerGtBasePower
        | SelectorPredicate::CastSaSource
        | SelectorPredicate::Kicked
        | SelectorPredicate::Monstrous
        | SelectorPredicate::Renowned
        | SelectorPredicate::Foretold
        | SelectorPredicate::Goaded
        | SelectorPredicate::DoubleFaced
        | SelectorPredicate::Transformed
        | SelectorPredicate::FrontSide
        | SelectorPredicate::BackSide
        | SelectorPredicate::CanProduceMana
        | SelectorPredicate::NoAbilities
        | SelectorPredicate::CastWith(_)
        | SelectorPredicate::CastWithOptional(_) => 0,
        SelectorPredicate::CardIdentity(_) | SelectorPredicate::PlayerController(_) => 1,
        SelectorPredicate::NumericComparison { .. }
        | SelectorPredicate::NumericParity { .. }
        | SelectorPredicate::CounterComparison { .. }
        | SelectorPredicate::Keyword { .. }
        | SelectorPredicate::CardState(_)
        | SelectorPredicate::ChosenType
        | SelectorPredicate::WasCast { .. }
        | SelectorPredicate::SourceColor(_)
        | SelectorPredicate::SourceColorless
        | SelectorPredicate::ChosenColorSource => 2,
        SelectorPredicate::Context(_) => 3,
        SelectorPredicate::Relation(_) => 4,
        SelectorPredicate::RememberedCard
        | SelectorPredicate::TriggerRememberedCard
        | SelectorPredicate::EffectSource
        | SelectorPredicate::NoName
        | SelectorPredicate::DamagedBy
        | SelectorPredicate::AttachedBy => 5,
        SelectorPredicate::Not(inner) => {
            let r: u8 = selector_predicate_order(inner);
            if r == u8::MAX { r } else { r + 1 }
        },
        SelectorPredicate::Player => 6,
        SelectorPredicate::Raw(_) => 7,
    }
}

} // verus!
