//! The fixed vocabulary of card selectors: which word stands for which predicate.

use vstd::prelude::*;
use crate::parsing::selector::{
    CardColorSelector, CardIdentitySelector, CardSelectorType, CardStateSelector,
    CardSupertypeSelector, CastOrigin, ContextPredicate, ControllerSelector, RelationPredicate,
    SelectorCompareOperator, SelectorPredicate, TargetRef,
};
use crate::text::{eq_ignore_case, same_ignoring_case, text_eq};
use crate::types::{AlternativeCost, OptionalCost, ZoneType};

verus! {

/// Words with a meaning of their own at the head of a selector.
pub open spec fn first_word(word: Seq<char>) -> Option<SelectorPredicate> {
    if word == "any"@ {
        Some(SelectorPredicate::Any)
    } else if word == "card"@ {
        Some(SelectorPredicate::CardType(CardSelectorType::Card))
    } else if word == "creature"@ {
        Some(SelectorPredicate::CardType(CardSelectorType::Creature))
    } else if word == "land"@ {
        Some(SelectorPredicate::CardType(CardSelectorType::Land))
    } else if word == "instant"@ {
        Some(SelectorPredicate::CardType(CardSelectorType::Instant))
    } else if word == "sorcery"@ {
        Some(SelectorPredicate::CardType(CardSelectorType::Sorcery))
    } else if word == "artifact"@ {
        Some(SelectorPredicate::CardType(CardSelectorType::Artifact))
    } else if word == "enchantment"@ {
        Some(SelectorPredicate::CardType(CardSelectorType::Enchantment))
    } else if word == "planeswalker"@ {
        Some(SelectorPredicate::CardType(CardSelectorType::Planeswalker))
    } else if word == "permanent"@ {
        Some(SelectorPredicate::CardType(CardSelectorType::Permanent))
    } else if word == "spell"@ {
        Some(SelectorPredicate::CardType(CardSelectorType::Spell))
    } else if word == "nonland"@ {
        Some(SelectorPredicate::CardType(CardSelectorType::NonLand))
    } else if word == "noncreature"@ {
        Some(SelectorPredicate::CardType(CardSelectorType::NonCreature))
    } else if word == "player"@ || word == "each"@ || word == "player.ingame"@ {
        Some(SelectorPredicate::Player)
    } else if word == "you"@ || word == "youctrl"@ {
        Some(SelectorPredicate::PlayerController(ControllerSelector::You))
    } else if word == "opponent"@ || word == "oppctrl"@ || word == "opponentctrl"@ {
        Some(SelectorPredicate::PlayerController(ControllerSelector::Opponent))
    } else {
        None
    }
}

pub fn first_word_of(word: &str) -> (r: Option<SelectorPredicate>)
    ensures
        r == first_word(word@),
{
    if text_eq(word, "any") {
        Some(SelectorPredicate::Any)
    } else if text_eq(word, "card") {
        Some(SelectorPredicate::CardType(CardSelectorType::Card))
    } else if text_eq(word, "creature") {
        Some(SelectorPredicate::CardType(CardSelectorType::Creature))
    } else if text_eq(word, "land") {
        Some(SelectorPredicate::CardType(CardSelectorType::Land))
    } else if text_eq(word, "instant") {
        Some(SelectorPredicate::CardType(CardSelectorType::Instant))
    } else if text_eq(word, "sorcery") {
        Some(SelectorPredicate::CardType(CardSelectorType::Sorcery))
    } else if text_eq(word, "artifact") {
        Some(SelectorPredicate::CardType(CardSelectorType::Artifact))
    } else if text_eq(word, "enchantment") {
        Some(SelectorPredicate::CardType(CardSelectorType::Enchantment))
    } else if text_eq(word, "planeswalker") {
        Some(SelectorPredicate::CardType(CardSelectorType::Planeswalker))
    } else if text_eq(word, "permanent") {
        Some(SelectorPredicate::CardType(CardSelectorType::Permanent))
    } else if text_eq(word, "spell") {
        Some(SelectorPredicate::CardType(CardSelectorType::Spell))
    } else if text_eq(word, "nonland") {
        Some(SelectorPredicate::CardType(CardSelectorType::NonLand))
    } else if text_eq(word, "noncreature") {
        Some(SelectorPredicate::CardType(CardSelectorType::NonCreature))
    } else if text_eq(word, "player") || text_eq(word, "each") || text_eq(word, "player.ingame") {
        Some(SelectorPredicate::Player)
    } else if text_eq(word, "you") || text_eq(word, "youctrl") {
        Some(SelectorPredicate::PlayerController(ControllerSelector::You))
    } else if text_eq(word, "opponent") || text_eq(word, "oppctrl") || text_eq(word, "opponentctrl") {
        Some(SelectorPredicate::PlayerController(ControllerSelector::Opponent))
    } else {
        None
    }
}

/// Qualifiers on identity, control, ownership, tapping and zone.
pub open spec fn owner_word(word: Seq<char>) -> Option<SelectorPredicate> {
    if word == "self"@ || word == "strictlyself"@ {
        Some(SelectorPredicate::CardIdentity(CardIdentitySelector::Self_))
    } else if word == "other"@ || word == "strictlyother"@ {
        Some(SelectorPredicate::CardIdentity(CardIdentitySelector::Other))
    } else if word == "you"@ || word == "youctrl"@ || word == "youcontrol"@ {
        Some(SelectorPredicate::CardController(ControllerSelector::You))
    } else if word == "opponent"@ || word == "oppctrl"@ || word == "opponentctrl"@ {
        Some(SelectorPredicate::CardController(ControllerSelector::Opponent))
    } else if word == "youown"@ {
        Some(SelectorPredicate::CardOwner(ControllerSelector::You))
    } else if word == "oppown"@ || word == "opponentown"@ {
        Some(SelectorPredicate::CardOwner(ControllerSelector::Opponent))
    } else if word == "youdontctrl"@ {
        Some(SelectorPredicate::Not(Box::new(SelectorPredicate::CardController(ControllerSelector::You))))
    } else if word == "youdontown"@ {
        Some(SelectorPredicate::Not(Box::new(SelectorPredicate::CardOwner(ControllerSelector::You))))
    } else if word == "tapped"@ {
        Some(SelectorPredicate::Tapped(true))
    } else if word == "untapped"@ {
        Some(SelectorPredicate::Tapped(false))
    } else if word == "startedtheturntapped"@ {
        Some(SelectorPredicate::StartedTurnTapped(true))
    } else if word == "startedtheturnuntapped"@ {
        Some(SelectorPredicate::StartedTurnTapped(false))
    } else if word == "cameundercontrolsincelastupkeep"@ {
        Some(SelectorPredicate::CameUnderControlSinceLastUpkeep)
    } else if word == "inzonebattlefield"@ || word == "inrealzonebattlefield"@ {
        Some(SelectorPredicate::Zone(ZoneType::Battlefield))
    } else if word == "inzonegraveyard"@ || word == "inrealzonegraveyard"@ {
        Some(SelectorPredicate::Zone(ZoneType::Graveyard))
    } else if word == "inzonehand"@ || word == "inrealzonehand"@ {
        Some(SelectorPredicate::Zone(ZoneType::Hand))
    } else if word == "inzoneexile"@ || word == "inrealzoneexile"@ {
        Some(SelectorPredicate::Zone(ZoneType::Exile))
    } else if word == "inzonestack"@ || word == "inrealzonestack"@ {
        Some(SelectorPredicate::Zone(ZoneType::Stack))
    } else {
        None
    }
}

pub fn owner_word_of(word: &str) -> (r: Option<SelectorPredicate>)
    ensures
        r == owner_word(word@),
{
    if text_eq(word, "self") || text_eq(word, "strictlyself") {
        Some(SelectorPredicate::CardIdentity(CardIdentitySelector::Self_))
    } else if text_eq(word, "other") || text_eq(word, "strictlyother") {
        Some(SelectorPredicate::CardIdentity(CardIdentitySelector::Other))
    } else if text_eq(word, "you") || text_eq(word, "youctrl") || text_eq(word, "youcontrol") {
        Some(SelectorPredicate::CardController(ControllerSelector::You))
    } else if text_eq(word, "opponent") || text_eq(word, "oppctrl") || text_eq(word, "opponentctrl") {
        Some(SelectorPredicate::CardController(ControllerSelector::Opponent))
    } else if text_eq(word, "youown") {
        Some(SelectorPredicate::CardOwner(ControllerSelector::You))
    } else if text_eq(word, "oppown") || text_eq(word, "opponentown") {
        Some(SelectorPredicate::CardOwner(ControllerSelector::Opponent))
    } else if text_eq(word, "youdontctrl") {
        Some(SelectorPredicate::Not(Box::new(SelectorPredicate::CardController(ControllerSelector::You))))
    } else if text_eq(word, "youdontown") {
        Some(SelectorPredicate::Not(Box::new(SelectorPredicate::CardOwner(ControllerSelector::You))))
    } else if text_eq(word, "tapped") {
        Some(SelectorPredicate::Tapped(true))
    } else if text_eq(word, "untapped") {
        Some(SelectorPredicate::Tapped(false))
    } else if text_eq(word, "startedtheturntapped") {
        Some(SelectorPredicate::StartedTurnTapped(true))
    } else if text_eq(word, "startedtheturnuntapped") {
        Some(SelectorPredicate::StartedTurnTapped(false))
    } else if text_eq(word, "cameundercontrolsincelastupkeep") {
        Some(SelectorPredicate::CameUnderControlSinceLastUpkeep)
    } else if text_eq(word, "inzonebattlefield") || text_eq(word, "inrealzonebattlefield") {
        Some(SelectorPredicate::Zone(ZoneType::Battlefield))
    } else if text_eq(word, "inzonegraveyard") || text_eq(word, "inrealzonegraveyard") {
        Some(SelectorPredicate::Zone(ZoneType::Graveyard))
    } else if text_eq(word, "inzonehand") || text_eq(word, "inrealzonehand") {
        Some(SelectorPredicate::Zone(ZoneType::Hand))
    } else if text_eq(word, "inzoneexile") || text_eq(word, "inrealzoneexile") {
        Some(SelectorPredicate::Zone(ZoneType::Exile))
    } else if text_eq(word, "inzonestack") || text_eq(word, "inrealzonestack") {
        Some(SelectorPredicate::Zone(ZoneType::Stack))
    } else {
        None
    }
}

/// Qualifiers on what a card is and how it was cast.
pub open spec fn trait_word(word: Seq<char>) -> Option<SelectorPredicate> {
    if word == "isremembered"@ {
        Some(SelectorPredicate::RememberedCard)
    } else if word == "istriggerremembered"@ {
        Some(SelectorPredicate::TriggerRememberedCard)
    } else if word == "effectsource"@ {
        Some(SelectorPredicate::EffectSource)
    } else if word == "noname"@ {
        Some(SelectorPredicate::NoName)
    } else if word == "iscommander"@ {
        Some(SelectorPredicate::Commander)
    } else if word == "legendary"@ {
        Some(SelectorPredicate::Legendary)
    } else if word == "powerlttoughness"@ {
        Some(SelectorPredicate::PowerLtToughness)
    } else if word == "powergtbasepower"@ {
        Some(SelectorPredicate::PowerGtBasePower)
    } else if word == "basic"@ {
        Some(SelectorPredicate::CardSupertype(CardSupertypeSelector::Basic))
    } else if word == "snow"@ {
        Some(SelectorPredicate::CardSupertype(CardSupertypeSelector::Snow))
    } else if word == "castsasource"@ {
        Some(SelectorPredicate::CastSaSource)
    } else if word == "kicked"@ {
        Some(SelectorPredicate::Kicked)
    } else if word == "ismonstrous"@ {
        Some(SelectorPredicate::Monstrous)
    } else if word == "isrenowned"@ {
        Some(SelectorPredicate::Renowned)
    } else if word == "foretold"@ {
        Some(SelectorPredicate::Foretold)
    } else if word == "isgoaded"@ {
        Some(SelectorPredicate::Goaded)
    } else if word == "doublefaced"@ {
        Some(SelectorPredicate::DoubleFaced)
    } else if word == "transformed"@ {
        Some(SelectorPredicate::Transformed)
    } else if word == "frontside"@ {
        Some(SelectorPredicate::FrontSide)
    } else if word == "backside"@ {
        Some(SelectorPredicate::BackSide)
    } else if word == "canproducemana"@ {
        Some(SelectorPredicate::CanProduceMana)
    } else if word == "noabilities"@ {
        Some(SelectorPredicate::NoAbilities)
    } else if word == "escaped"@ {
        Some(SelectorPredicate::CastWith(AlternativeCost::Escape))
    } else if word == "prowled"@ {
        Some(SelectorPredicate::CastWith(AlternativeCost::Prowl))
    } else if word == "spectacle"@ {
        Some(SelectorPredicate::CastWith(AlternativeCost::Spectacle))
    } else if word == "surged"@ {
        Some(SelectorPredicate::CastWith(AlternativeCost::Surge))
    } else if word == "blitzed"@ {
        Some(SelectorPredicate::CastWith(AlternativeCost::Blitz))
    } else if word == "dashed"@ {
        Some(SelectorPredicate::CastWith(AlternativeCost::Dash))
    } else if word == "evoked"@ {
        Some(SelectorPredicate::CastWith(AlternativeCost::Evoke))
    } else if word == "impended"@ {
        Some(SelectorPredicate::CastWith(AlternativeCost::Impending))
    } else if word == "webslinged"@ {
        Some(SelectorPredicate::CastWith(AlternativeCost::WebSlinging))
    } else if word == "teamwork"@ {
        Some(SelectorPredicate::CastWithOptional(OptionalCost::Teamwork))
    } else if word == "bargained"@ {
        Some(SelectorPredicate::CastWithOptional(OptionalCost::Bargain))
    } else if word == "token"@ {
        Some(SelectorPredicate::Token(true))
    } else if word == "nontoken"@ {
        Some(SelectorPredicate::Token(false))
    } else {
        None
    }
}

pub fn trait_word_of(word: &str) -> (r: Option<SelectorPredicate>)
    ensures
        r == trait_word(word@),
{
    if text_eq(word, "isremembered") {
        Some(SelectorPredicate::RememberedCard)
    } else if text_eq(word, "istriggerremembered") {
        Some(SelectorPredicate::TriggerRememberedCard)
    } else if text_eq(word, "effectsource") {
        Some(SelectorPredicate::EffectSource)
    } else if text_eq(word, "noname") {
        Some(SelectorPredicate::NoName)
    } else if text_eq(word, "iscommander") {
        Some(SelectorPredicate::Commander)
    } else if text_eq(word, "legendary") {
        Some(SelectorPredicate::Legendary)
    } else if text_eq(word, "powerlttoughness") {
        Some(SelectorPredicate::PowerLtToughness)
    } else if text_eq(word, "powergtbasepower") {
        Some(SelectorPredicate::PowerGtBasePower)
    } else if text_eq(word, "basic") {
        Some(SelectorPredicate::CardSupertype(CardSupertypeSelector::Basic))
    } else if text_eq(word, "snow") {
        Some(SelectorPredicate::CardSupertype(CardSupertypeSelector::Snow))
    } else if text_eq(word, "castsasource") {
        Some(SelectorPredicate::CastSaSource)
    } else if text_eq(word, "kicked") {
        Some(SelectorPredicate::Kicked)
    } else if text_eq(word, "ismonstrous") {
        Some(SelectorPredicate::Monstrous)
    } else if text_eq(word, "isrenowned") {
        Some(SelectorPredicate::Renowned)
    } else if text_eq(word, "foretold") {
        Some(SelectorPredicate::Foretold)
    } else if text_eq(word, "isgoaded") {
        Some(SelectorPredicate::Goaded)
    } else if text_eq(word, "doublefaced") {
        Some(SelectorPredicate::DoubleFaced)
    } else if text_eq(word, "transformed") {
        Some(SelectorPredicate::Transformed)
    } else if text_eq(word, "frontside") {
        Some(SelectorPredicate::FrontSide)
    } else if text_eq(word, "backside") {
        Some(SelectorPredicate::BackSide)
    } else if text_eq(word, "canproducemana") {
        Some(SelectorPredicate::CanProduceMana)
    } else if text_eq(word, "noabilities") {
        Some(SelectorPredicate::NoAbilities)
    } else if text_eq(word, "escaped") {
        Some(SelectorPredicate::CastWith(AlternativeCost::Escape))
    } else if text_eq(word, "prowled") {
        Some(SelectorPredicate::CastWith(AlternativeCost::Prowl))
    } else if text_eq(word, "spectacle") {
        Some(SelectorPredicate::CastWith(AlternativeCost::Spectacle))
    } else if text_eq(word, "surged") {
        Some(SelectorPredicate::CastWith(AlternativeCost::Surge))
    } else if text_eq(word, "blitzed") {
        Some(SelectorPredicate::CastWith(AlternativeCost::Blitz))
    } else if text_eq(word, "dashed") {
        Some(SelectorPredicate::CastWith(AlternativeCost::Dash))
    } else if text_eq(word, "evoked") {
        Some(SelectorPredicate::CastWith(AlternativeCost::Evoke))
    } else if text_eq(word, "impended") {
        Some(SelectorPredicate::CastWith(AlternativeCost::Impending))
    } else if text_eq(word, "webslinged") {
        Some(SelectorPredicate::CastWith(AlternativeCost::WebSlinging))
    } else if text_eq(word, "teamwork") {
        Some(SelectorPredicate::CastWithOptional(OptionalCost::Teamwork))
    } else if text_eq(word, "bargained") {
        Some(SelectorPredicate::CastWithOptional(OptionalCost::Bargain))
    } else if text_eq(word, "token") {
        Some(SelectorPredicate::Token(true))
    } else if text_eq(word, "nontoken") {
        Some(SelectorPredicate::Token(false))
    } else {
        None
    }
}

/// Qualifiers on card types and colours.
pub open spec fn type_word(word: Seq<char>) -> Option<SelectorPredicate> {
    if word == "creature"@ {
        Some(SelectorPredicate::CardType(CardSelectorType::Creature))
    } else if word == "land"@ {
        Some(SelectorPredicate::CardType(CardSelectorType::Land))
    } else if word == "instant"@ {
        Some(SelectorPredicate::CardType(CardSelectorType::Instant))
    } else if word == "sorcery"@ {
        Some(SelectorPredicate::CardType(CardSelectorType::Sorcery))
    } else if word == "artifact"@ {
        Some(SelectorPredicate::CardType(CardSelectorType::Artifact))
    } else if word == "enchantment"@ {
        Some(SelectorPredicate::CardType(CardSelectorType::Enchantment))
    } else if word == "planeswalker"@ {
        Some(SelectorPredicate::CardType(CardSelectorType::Planeswalker))
    } else if word == "permanent"@ {
        Some(SelectorPredicate::CardType(CardSelectorType::Permanent))
    } else if word == "noncreature"@ {
        Some(SelectorPredicate::CardType(CardSelectorType::NonCreature))
    } else if word == "nonland"@ {
        Some(SelectorPredicate::CardType(CardSelectorType::NonLand))
    } else if word == "white"@ {
        Some(SelectorPredicate::Color(CardColorSelector::White))
    } else if word == "blue"@ {
        Some(SelectorPredicate::Color(CardColorSelector::Blue))
    } else if word == "black"@ {
        Some(SelectorPredicate::Color(CardColorSelector::Black))
    } else if word == "red"@ {
        Some(SelectorPredicate::Color(CardColorSelector::Red))
    } else if word == "green"@ {
        Some(SelectorPredicate::Color(CardColorSelector::Green))
    } else if word == "multicolor"@ {
        Some(SelectorPredicate::Multicolor)
    } else if word == "monocolor"@ {
        Some(SelectorPredicate::Monocolor)
    } else if word == "colorless"@ {
        Some(SelectorPredicate::Colorless)
    } else if word == "whitesource"@ {
        Some(SelectorPredicate::SourceColor(CardColorSelector::White))
    } else if word == "bluesource"@ {
        Some(SelectorPredicate::SourceColor(CardColorSelector::Blue))
    } else if word == "blacksource"@ {
        Some(SelectorPredicate::SourceColor(CardColorSelector::Black))
    } else if word == "redsource"@ {
        Some(SelectorPredicate::SourceColor(CardColorSelector::Red))
    } else if word == "greensource"@ {
        Some(SelectorPredicate::SourceColor(CardColorSelector::Green))
    } else if word == "colorlesssource"@ {
        Some(SelectorPredicate::SourceColorless)
    } else if word == "chosencolorsource"@ {
        Some(SelectorPredicate::ChosenColorSource)
    } else {
        None
    }
}

pub fn type_word_of(word: &str) -> (r: Option<SelectorPredicate>)
    ensures
        r == type_word(word@),
{
    if text_eq(word, "creature") {
        Some(SelectorPredicate::CardType(CardSelectorType::Creature))
    } else if text_eq(word, "land") {
        Some(SelectorPredicate::CardType(CardSelectorType::Land))
    } else if text_eq(word, "instant") {
        Some(SelectorPredicate::CardType(CardSelectorType::Instant))
    } else if text_eq(word, "sorcery") {
        Some(SelectorPredicate::CardType(CardSelectorType::Sorcery))
    } else if text_eq(word, "artifact") {
        Some(SelectorPredicate::CardType(CardSelectorType::Artifact))
    } else if text_eq(word, "enchantment") {
        Some(SelectorPredicate::CardType(CardSelectorType::Enchantment))
    } else if text_eq(word, "planeswalker") {
        Some(SelectorPredicate::CardType(CardSelectorType::Planeswalker))
    } else if text_eq(word, "permanent") {
        Some(SelectorPredicate::CardType(CardSelectorType::Permanent))
    } else if text_eq(word, "noncreature") {
        Some(SelectorPredicate::CardType(CardSelectorType::NonCreature))
    } else if text_eq(word, "nonland") {
        Some(SelectorPredicate::CardType(CardSelectorType::NonLand))
    } else if text_eq(word, "white") {
        Some(SelectorPredicate::Color(CardColorSelector::White))
    } else if text_eq(word, "blue") {
        Some(SelectorPredicate::Color(CardColorSelector::Blue))
    } else if text_eq(word, "black") {
        Some(SelectorPredicate::Color(CardColorSelector::Black))
    } else if text_eq(word, "red") {
        Some(SelectorPredicate::Color(CardColorSelector::Red))
    } else if text_eq(word, "green") {
        Some(SelectorPredicate::Color(CardColorSelector::Green))
    } else if text_eq(word, "multicolor") {
        Some(SelectorPredicate::Multicolor)
    } else if text_eq(word, "monocolor") {
        Some(SelectorPredicate::Monocolor)
    } else if text_eq(word, "colorless") {
        Some(SelectorPredicate::Colorless)
    } else if text_eq(word, "whitesource") {
        Some(SelectorPredicate::SourceColor(CardColorSelector::White))
    } else if text_eq(word, "bluesource") {
        Some(SelectorPredicate::SourceColor(CardColorSelector::Blue))
    } else if text_eq(word, "blacksource") {
        Some(SelectorPredicate::SourceColor(CardColorSelector::Black))
    } else if text_eq(word, "redsource") {
        Some(SelectorPredicate::SourceColor(CardColorSelector::Red))
    } else if text_eq(word, "greensource") {
        Some(SelectorPredicate::SourceColor(CardColorSelector::Green))
    } else if text_eq(word, "colorlesssource") {
        Some(SelectorPredicate::SourceColorless)
    } else if text_eq(word, "chosencolorsource") {
        Some(SelectorPredicate::ChosenColorSource)
    } else {
        None
    }
}

/// Qualifiers on combat, casting and the surrounding game.
pub open spec fn context_word(word: Seq<char>) -> Option<SelectorPredicate> {
    if word == "attackingalone"@ {
        Some(SelectorPredicate::Context(ContextPredicate::AttackingAlone))
    } else if word == "attacking"@ {
        Some(SelectorPredicate::Context(ContextPredicate::Attacking(None)))
    } else if word == "attackingyou"@ {
        Some(SelectorPredicate::Context(ContextPredicate::Attacking(Some(TargetRef::Source))))
    } else if word == "blocking"@ {
        Some(SelectorPredicate::Context(ContextPredicate::Blocking(None)))
    } else if word == "blocked"@ {
        Some(SelectorPredicate::Context(ContextPredicate::Blocked))
    } else if word == "unblocked"@ {
        Some(SelectorPredicate::Context(ContextPredicate::Unblocked))
    } else if word == "attackedthisturn"@ {
        Some(SelectorPredicate::Context(ContextPredicate::AttackedThisTurn))
    } else if word == "attackedthiscombat"@ {
        Some(SelectorPredicate::Context(ContextPredicate::AttackedThisCombat))
    } else if word == "blockingsource"@ {
        Some(SelectorPredicate::Context(ContextPredicate::BlockingSource))
    } else if word == "blockedbysource"@ {
        Some(SelectorPredicate::Context(ContextPredicate::BlockedBySource))
    } else if word == "samename"@ {
        Some(SelectorPredicate::Relation(RelationPredicate::SharesNameWith(TargetRef::Source)))
    } else if word == "damagedby"@ {
        Some(SelectorPredicate::DamagedBy)
    } else if word == "equippedby"@ || word == "enchantedby"@ || word == "attachedby"@ {
        Some(SelectorPredicate::AttachedBy)
    } else if word == "exiledwithsource"@ {
        Some(SelectorPredicate::Context(ContextPredicate::ExiledWithSource))
    } else if word == "exiledwitheffectsource"@ {
        Some(SelectorPredicate::Context(ContextPredicate::ExiledWithEffectSource))
    } else if word == "toplibrary"@ {
        Some(SelectorPredicate::Context(ContextPredicate::TopLibrary))
    } else if word == "targetedplayerctrl"@ {
        Some(SelectorPredicate::Context(ContextPredicate::TargetedPlayerCtrl))
    } else if word == "targetedby"@ {
        Some(SelectorPredicate::Context(ContextPredicate::TargetedBy))
    } else if word == "activeplayerctrl"@ {
        Some(SelectorPredicate::Context(ContextPredicate::ActivePlayerCtrl))
    } else if word == "defenderctrl"@ {
        Some(SelectorPredicate::Context(ContextPredicate::DefenderCtrl))
    } else if word == "enchantedcontroller"@ {
        Some(SelectorPredicate::Context(ContextPredicate::EnchantedController))
    } else if word == "notdefinedtargeted"@ {
        Some(SelectorPredicate::Context(ContextPredicate::NotDefinedTargeted))
    } else if word == "wascast"@ {
        Some(SelectorPredicate::WasCast { by_you: false })
    } else if word == "wascastbyyou"@ {
        Some(SelectorPredicate::WasCast { by_you: true })
    } else if word == "chosentype"@ {
        Some(SelectorPredicate::ChosenType)
    } else {
        None
    }
}

pub fn context_word_of(word: &str) -> (r: Option<SelectorPredicate>)
    ensures
        r == context_word(word@),
{
    if text_eq(word, "attackingalone") {
        Some(SelectorPredicate::Context(ContextPredicate::AttackingAlone))
    } else if text_eq(word, "attacking") {
        Some(SelectorPredicate::Context(ContextPredicate::Attacking(None)))
    } else if text_eq(word, "attackingyou") {
        Some(SelectorPredicate::Context(ContextPredicate::Attacking(Some(TargetRef::Source))))
    } else if text_eq(word, "blocking") {
        Some(SelectorPredicate::Context(ContextPredicate::Blocking(None)))
    } else if text_eq(word, "blocked") {
        Some(SelectorPredicate::Context(ContextPredicate::Blocked))
    } else if text_eq(word, "unblocked") {
        Some(SelectorPredicate::Context(ContextPredicate::Unblocked))
    } else if text_eq(word, "attackedthisturn") {
        Some(SelectorPredicate::Context(ContextPredicate::AttackedThisTurn))
    } else if text_eq(word, "attackedthiscombat") {
        Some(SelectorPredicate::Context(ContextPredicate::AttackedThisCombat))
    } else if text_eq(word, "blockingsource") {
        Some(SelectorPredicate::Context(ContextPredicate::BlockingSource))
    } else if text_eq(word, "blockedbysource") {
        Some(SelectorPredicate::Context(ContextPredicate::BlockedBySource))
    } else if text_eq(word, "samename") {
        Some(SelectorPredicate::Relation(RelationPredicate::SharesNameWith(TargetRef::Source)))
    } else if text_eq(word, "damagedby") {
        Some(SelectorPredicate::DamagedBy)
    } else if text_eq(word, "equippedby") || text_eq(word, "enchantedby") || text_eq(word, "attachedby") {
        Some(SelectorPredicate::AttachedBy)
    } else if text_eq(word, "exiledwithsource") {
        Some(SelectorPredicate::Context(ContextPredicate::ExiledWithSource))
    } else if text_eq(word, "exiledwitheffectsource") {
        Some(SelectorPredicate::Context(ContextPredicate::ExiledWithEffectSource))
    } else if text_eq(word, "toplibrary") {
        Some(SelectorPredicate::Context(ContextPredicate::TopLibrary))
    } else if text_eq(word, "targetedplayerctrl") {
        Some(SelectorPredicate::Context(ContextPredicate::TargetedPlayerCtrl))
    } else if text_eq(word, "targetedby") {
        Some(SelectorPredicate::Context(ContextPredicate::TargetedBy))
    } else if text_eq(word, "activeplayerctrl") {
        Some(SelectorPredicate::Context(ContextPredicate::ActivePlayerCtrl))
    } else if text_eq(word, "defenderctrl") {
        Some(SelectorPredicate::Context(ContextPredicate::DefenderCtrl))
    } else if text_eq(word, "enchantedcontroller") {
        Some(SelectorPredicate::Context(ContextPredicate::EnchantedController))
    } else if text_eq(word, "notdefinedtargeted") {
        Some(SelectorPredicate::Context(ContextPredicate::NotDefinedTargeted))
    } else if text_eq(word, "wascast") {
        Some(SelectorPredicate::WasCast { by_you: false })
    } else if text_eq(word, "wascastbyyou") {
        Some(SelectorPredicate::WasCast { by_you: true })
    } else if text_eq(word, "chosentype") {
        Some(SelectorPredicate::ChosenType)
    } else {
        None
    }
}

/// Qualifiers on the state of a card.
pub open spec fn state_word(word: Seq<char>) -> Option<SelectorPredicate> {
    if word == "worthy"@ {
        Some(SelectorPredicate::CardState(CardStateSelector::Worthy))
    } else if word == "facedown"@ {
        Some(SelectorPredicate::CardState(CardStateSelector::FaceDown))
    } else if word == "faceup"@ {
        Some(SelectorPredicate::Not(Box::new(SelectorPredicate::CardState(CardStateSelector::FaceDown))))
    } else if word == "paired"@ {
        Some(SelectorPredicate::CardState(CardStateSelector::Paired))
    } else if word == "pairedwith"@ {
        Some(SelectorPredicate::CardState(CardStateSelector::PairedWithSource))
    } else if word == "attached"@ {
        Some(SelectorPredicate::CardState(CardStateSelector::Attached))
    } else if word == "equipped"@ {
        Some(SelectorPredicate::CardState(CardStateSelector::Equipped))
    } else if word == "enchanted"@ {
        Some(SelectorPredicate::CardState(CardStateSelector::Enchanted))
    } else if word == "hascounters"@ {
        Some(SelectorPredicate::CardState(CardStateSelector::HasCounters))
    } else if word == "isimprinted"@ {
        Some(SelectorPredicate::CardState(CardStateSelector::IsImprinted))
    } else if word == "chosen"@ {
        Some(SelectorPredicate::CardState(CardStateSelector::Chosen))
    } else if word == "chosencard"@ || word == "chosencardstrict"@ {
        Some(SelectorPredicate::CardState(CardStateSelector::ChosenCard))
    } else if word == "namedcard"@ {
        Some(SelectorPredicate::CardState(CardStateSelector::NamedCard))
    } else if word == "chosencolor"@ {
        Some(SelectorPredicate::CardState(CardStateSelector::ChosenColor))
    } else if word == "thisturnentered"@ {
        Some(SelectorPredicate::CardState(CardStateSelector::EnteredThisTurn))
    } else if word == "wasdealtdamagethisturn"@ {
        Some(SelectorPredicate::CardState(CardStateSelector::WasDealtDamageThisTurn))
    } else if word == "dealtdamagethisturn"@ {
        Some(SelectorPredicate::CardState(CardStateSelector::DealtDamageThisTurn))
    } else if word == "dealtdamagetoany"@ {
        Some(SelectorPredicate::CardState(CardStateSelector::DealtDamageToAny))
    } else if word == "dealtcombatdamagetoany"@ {
        Some(SelectorPredicate::CardState(CardStateSelector::DealtCombatDamageToAny))
    } else if word == "historic"@ {
        Some(SelectorPredicate::CardState(CardStateSelector::Historic))
    } else if word == "modified"@ {
        Some(SelectorPredicate::CardState(CardStateSelector::Modified))
    } else if word == "issaddled"@ {
        Some(SelectorPredicate::CardState(CardStateSelector::Saddled))
    } else if word == "mayplaysource"@ {
        Some(SelectorPredicate::CardState(CardStateSelector::MayPlaySource))
    } else if word == "suspended"@ {
        Some(SelectorPredicate::CardState(CardStateSelector::Suspended))
    } else if word == "hasxcost"@ {
        Some(SelectorPredicate::CardState(CardStateSelector::HasXCost))
    } else if word == "singletarget"@ {
        Some(SelectorPredicate::CardState(CardStateSelector::SingleTarget))
    } else if word == "promisedgift"@ {
        Some(SelectorPredicate::CardState(CardStateSelector::PromisedGift))
    } else if word == "isringbearer"@ {
        Some(SelectorPredicate::CardState(CardStateSelector::RingBearer))
    } else {
        None
    }
}

pub fn state_word_of(word: &str) -> (r: Option<SelectorPredicate>)
    ensures
        r == state_word(word@),
{
    if text_eq(word, "worthy") {
        Some(SelectorPredicate::CardState(CardStateSelector::Worthy))
    } else if text_eq(word, "facedown") {
        Some(SelectorPredicate::CardState(CardStateSelector::FaceDown))
    } else if text_eq(word, "faceup") {
        Some(SelectorPredicate::Not(Box::new(SelectorPredicate::CardState(CardStateSelector::FaceDown))))
    } else if text_eq(word, "paired") {
        Some(SelectorPredicate::CardState(CardStateSelector::Paired))
    } else if text_eq(word, "pairedwith") {
        Some(SelectorPredicate::CardState(CardStateSelector::PairedWithSource))
    } else if text_eq(word, "attached") {
        Some(SelectorPredicate::CardState(CardStateSelector::Attached))
    } else if text_eq(word, "equipped") {
        Some(SelectorPredicate::CardState(CardStateSelector::Equipped))
    } else if text_eq(word, "enchanted") {
        Some(SelectorPredicate::CardState(CardStateSelector::Enchanted))
    } else if text_eq(word, "hascounters") {
        Some(SelectorPredicate::CardState(CardStateSelector::HasCounters))
    } else if text_eq(word, "isimprinted") {
        Some(SelectorPredicate::CardState(CardStateSelector::IsImprinted))
    } else if text_eq(word, "chosen") {
        Some(SelectorPredicate::CardState(CardStateSelector::Chosen))
    } else if text_eq(word, "chosencard") || text_eq(word, "chosencardstrict") {
        Some(SelectorPredicate::CardState(CardStateSelector::ChosenCard))
    } else if text_eq(word, "namedcard") {
        Some(SelectorPredicate::CardState(CardStateSelector::NamedCard))
    } else if text_eq(word, "chosencolor") {
        Some(SelectorPredicate::CardState(CardStateSelector::ChosenColor))
    } else if text_eq(word, "thisturnentered") {
        Some(SelectorPredicate::CardState(CardStateSelector::EnteredThisTurn))
    } else if text_eq(word, "wasdealtdamagethisturn") {
        Some(SelectorPredicate::CardState(CardStateSelector::WasDealtDamageThisTurn))
    } else if text_eq(word, "dealtdamagethisturn") {
        Some(SelectorPredicate::CardState(CardStateSelector::DealtDamageThisTurn))
    } else if text_eq(word, "dealtdamagetoany") {
        Some(SelectorPredicate::CardState(CardStateSelector::DealtDamageToAny))
    } else if text_eq(word, "dealtcombatdamagetoany") {
        Some(SelectorPredicate::CardState(CardStateSelector::DealtCombatDamageToAny))
    } else if text_eq(word, "historic") {
        Some(SelectorPredicate::CardState(CardStateSelector::Historic))
    } else if text_eq(word, "modified") {
        Some(SelectorPredicate::CardState(CardStateSelector::Modified))
    } else if text_eq(word, "issaddled") {
        Some(SelectorPredicate::CardState(CardStateSelector::Saddled))
    } else if text_eq(word, "mayplaysource") {
        Some(SelectorPredicate::CardState(CardStateSelector::MayPlaySource))
    } else if text_eq(word, "suspended") {
        Some(SelectorPredicate::CardState(CardStateSelector::Suspended))
    } else if text_eq(word, "hasxcost") {
        Some(SelectorPredicate::CardState(CardStateSelector::HasXCost))
    } else if text_eq(word, "singletarget") {
        Some(SelectorPredicate::CardState(CardStateSelector::SingleTarget))
    } else if text_eq(word, "promisedgift") {
        Some(SelectorPredicate::CardState(CardStateSelector::PromisedGift))
    } else if text_eq(word, "isringbearer") {
        Some(SelectorPredicate::CardState(CardStateSelector::RingBearer))
    } else {
        None
    }
}

/// What `non`, put before a word, negates.
pub open spec fn negated_word(word: Seq<char>) -> Option<SelectorPredicate> {
    if word == "white"@ {
        Some(SelectorPredicate::Color(CardColorSelector::White))
    } else if word == "blue"@ {
        Some(SelectorPredicate::Color(CardColorSelector::Blue))
    } else if word == "black"@ {
        Some(SelectorPredicate::Color(CardColorSelector::Black))
    } else if word == "red"@ {
        Some(SelectorPredicate::Color(CardColorSelector::Red))
    } else if word == "green"@ {
        Some(SelectorPredicate::Color(CardColorSelector::Green))
    } else if word == "colorless"@ {
        Some(SelectorPredicate::Colorless)
    } else if word == "creature"@ {
        Some(SelectorPredicate::CardType(CardSelectorType::Creature))
    } else if word == "land"@ {
        Some(SelectorPredicate::CardType(CardSelectorType::Land))
    } else if word == "artifact"@ {
        Some(SelectorPredicate::CardType(CardSelectorType::Artifact))
    } else if word == "enchantment"@ {
        Some(SelectorPredicate::CardType(CardSelectorType::Enchantment))
    } else if word == "legendary"@ {
        Some(SelectorPredicate::Legendary)
    } else if word == "basic"@ {
        Some(SelectorPredicate::CardSupertype(CardSupertypeSelector::Basic))
    } else if word == "snow"@ {
        Some(SelectorPredicate::CardSupertype(CardSupertypeSelector::Snow))
    } else if word == "token"@ {
        Some(SelectorPredicate::Token(true))
    } else if word == "chosencard"@ {
        Some(SelectorPredicate::CardState(CardStateSelector::ChosenCard))
    } else {
        None
    }
}

pub fn negated_word_of(word: &str) -> (r: Option<SelectorPredicate>)
    ensures
        r == negated_word(word@),
{
    if text_eq(word, "white") {
        Some(SelectorPredicate::Color(CardColorSelector::White))
    } else if text_eq(word, "blue") {
        Some(SelectorPredicate::Color(CardColorSelector::Blue))
    } else if text_eq(word, "black") {
        Some(SelectorPredicate::Color(CardColorSelector::Black))
    } else if text_eq(word, "red") {
        Some(SelectorPredicate::Color(CardColorSelector::Red))
    } else if text_eq(word, "green") {
        Some(SelectorPredicate::Color(CardColorSelector::Green))
    } else if text_eq(word, "colorless") {
        Some(SelectorPredicate::Colorless)
    } else if text_eq(word, "creature") {
        Some(SelectorPredicate::CardType(CardSelectorType::Creature))
    } else if text_eq(word, "land") {
        Some(SelectorPredicate::CardType(CardSelectorType::Land))
    } else if text_eq(word, "artifact") {
        Some(SelectorPredicate::CardType(CardSelectorType::Artifact))
    } else if text_eq(word, "enchantment") {
        Some(SelectorPredicate::CardType(CardSelectorType::Enchantment))
    } else if text_eq(word, "legendary") {
        Some(SelectorPredicate::Legendary)
    } else if text_eq(word, "basic") {
        Some(SelectorPredicate::CardSupertype(CardSupertypeSelector::Basic))
    } else if text_eq(word, "snow") {
        Some(SelectorPredicate::CardSupertype(CardSupertypeSelector::Snow))
    } else if text_eq(word, "token") {
        Some(SelectorPredicate::Token(true))
    } else if text_eq(word, "chosencard") {
        Some(SelectorPredicate::CardState(CardStateSelector::ChosenCard))
    } else {
        None
    }
}

/// Card types that a combat qualifier can name.
pub open spec fn card_type_word(word: Seq<char>) -> Option<CardSelectorType> {
    if word == "card"@ {
        Some(CardSelectorType::Card)
    } else if word == "creature"@ {
        Some(CardSelectorType::Creature)
    } else if word == "land"@ {
        Some(CardSelectorType::Land)
    } else if word == "artifact"@ {
        Some(CardSelectorType::Artifact)
    } else if word == "enchantment"@ {
        Some(CardSelectorType::Enchantment)
    } else if word == "planeswalker"@ {
        Some(CardSelectorType::Planeswalker)
    } else if word == "permanent"@ {
        Some(CardSelectorType::Permanent)
    } else if word == "nonland"@ {
        Some(CardSelectorType::NonLand)
    } else if word == "noncreature"@ {
        Some(CardSelectorType::NonCreature)
    } else {
        None
    }
}

pub fn card_type_word_of(word: &str) -> (r: Option<CardSelectorType>)
    ensures
        r == card_type_word(word@),
{
    if text_eq(word, "card") {
        Some(CardSelectorType::Card)
    } else if text_eq(word, "creature") {
        Some(CardSelectorType::Creature)
    } else if text_eq(word, "land") {
        Some(CardSelectorType::Land)
    } else if text_eq(word, "artifact") {
        Some(CardSelectorType::Artifact)
    } else if text_eq(word, "enchantment") {
        Some(CardSelectorType::Enchantment)
    } else if text_eq(word, "planeswalker") {
        Some(CardSelectorType::Planeswalker)
    } else if text_eq(word, "permanent") {
        Some(CardSelectorType::Permanent)
    } else if text_eq(word, "nonland") {
        Some(CardSelectorType::NonLand)
    } else if text_eq(word, "noncreature") {
        Some(CardSelectorType::NonCreature)
    } else {
        None
    }
}

/// Card types that an attachment qualifier can name.
pub open spec fn attached_type_word(word: Seq<char>) -> Option<CardSelectorType> {
    if word == "card"@ {
        Some(CardSelectorType::Card)
    } else if word == "creature"@ {
        Some(CardSelectorType::Creature)
    } else if word == "land"@ {
        Some(CardSelectorType::Land)
    } else if word == "artifact"@ {
        Some(CardSelectorType::Artifact)
    } else if word == "enchantment"@ {
        Some(CardSelectorType::Enchantment)
    } else if word == "permanent"@ {
        Some(CardSelectorType::Permanent)
    } else {
        None
    }
}

pub fn attached_type_word_of(word: &str) -> (r: Option<CardSelectorType>)
    ensures
        r == attached_type_word(word@),
{
    if text_eq(word, "card") {
        Some(CardSelectorType::Card)
    } else if text_eq(word, "creature") {
        Some(CardSelectorType::Creature)
    } else if text_eq(word, "land") {
        Some(CardSelectorType::Land)
    } else if text_eq(word, "artifact") {
        Some(CardSelectorType::Artifact)
    } else if text_eq(word, "enchantment") {
        Some(CardSelectorType::Enchantment)
    } else if text_eq(word, "permanent") {
        Some(CardSelectorType::Permanent)
    } else {
        None
    }
}

/// Zones that a card can have entered from.
pub open spec fn entered_zone(word: Seq<char>) -> Option<ZoneType> {
    if word == "battlefield"@ {
        Some(ZoneType::Battlefield)
    } else if word == "graveyard"@ {
        Some(ZoneType::Graveyard)
    } else if word == "library"@ {
        Some(ZoneType::Library)
    } else if word == "hand"@ {
        Some(ZoneType::Hand)
    } else if word == "exile"@ {
        Some(ZoneType::Exile)
    } else {
        None
    }
}

pub fn entered_zone_of(word: &str) -> (r: Option<ZoneType>)
    ensures
        r == entered_zone(word@),
{
    if text_eq(word, "battlefield") {
        Some(ZoneType::Battlefield)
    } else if text_eq(word, "graveyard") {
        Some(ZoneType::Graveyard)
    } else if text_eq(word, "library") {
        Some(ZoneType::Library)
    } else if text_eq(word, "hand") {
        Some(ZoneType::Hand)
    } else if text_eq(word, "exile") {
        Some(ZoneType::Exile)
    } else {
        None
    }
}

/// Where a spell was cast from.
pub open spec fn cast_origin(word: Seq<char>) -> Option<CastOrigin> {
    if word == "wascastfromhand"@ {
        Some(CastOrigin::Hand)
    } else if word == "wascastfromyourhand"@ {
        Some(CastOrigin::YourHand)
    } else if word == "wascastfromyourhandbyyou"@ {
        Some(CastOrigin::YourHandByYou)
    } else if word == "wascastfromtheirhand"@ {
        Some(CastOrigin::TheirHand)
    } else if word == "wascastfromexile"@ {
        Some(CastOrigin::Exile)
    } else if word == "wascastfromgraveyard"@ {
        Some(CastOrigin::Graveyard)
    } else if word == "wascastfromyourgraveyard"@ {
        Some(CastOrigin::YourGraveyard)
    } else if word == "wascastfromyourgraveyardbyyou"@ {
        Some(CastOrigin::YourGraveyardByYou)
    } else if word == "wascastfromyourlibrary"@ {
        Some(CastOrigin::YourLibrary)
    } else {
        None
    }
}

pub fn cast_origin_of(word: &str) -> (r: Option<CastOrigin>)
    ensures
        r == cast_origin(word@),
{
    if text_eq(word, "wascastfromhand") {
        Some(CastOrigin::Hand)
    } else if text_eq(word, "wascastfromyourhand") {
        Some(CastOrigin::YourHand)
    } else if text_eq(word, "wascastfromyourhandbyyou") {
        Some(CastOrigin::YourHandByYou)
    } else if text_eq(word, "wascastfromtheirhand") {
        Some(CastOrigin::TheirHand)
    } else if text_eq(word, "wascastfromexile") {
        Some(CastOrigin::Exile)
    } else if text_eq(word, "wascastfromgraveyard") {
        Some(CastOrigin::Graveyard)
    } else if text_eq(word, "wascastfromyourgraveyard") {
        Some(CastOrigin::YourGraveyard)
    } else if text_eq(word, "wascastfromyourgraveyardbyyou") {
        Some(CastOrigin::YourGraveyardByYou)
    } else if text_eq(word, "wascastfromyourlibrary") {
        Some(CastOrigin::YourLibrary)
    } else {
        None
    }
}

/// The comparison operators, in lower case.
pub open spec fn operator_word(word: Seq<char>) -> Option<SelectorCompareOperator> {
    if word == "eq"@ {
        Some(SelectorCompareOperator::Eq)
    } else if word == "ne"@ {
        Some(SelectorCompareOperator::Ne)
    } else if word == "lt"@ {
        Some(SelectorCompareOperator::Lt)
    } else if word == "le"@ {
        Some(SelectorCompareOperator::Le)
    } else if word == "gt"@ {
        Some(SelectorCompareOperator::Gt)
    } else if word == "ge"@ {
        Some(SelectorCompareOperator::Ge)
    } else {
        None
    }
}

pub fn operator_word_of(word: &str) -> (r: Option<SelectorCompareOperator>)
    ensures
        r == operator_word(word@),
{
    if text_eq(word, "eq") {
        Some(SelectorCompareOperator::Eq)
    } else if text_eq(word, "ne") {
        Some(SelectorCompareOperator::Ne)
    } else if text_eq(word, "lt") {
        Some(SelectorCompareOperator::Lt)
    } else if text_eq(word, "le") {
        Some(SelectorCompareOperator::Le)
    } else if text_eq(word, "gt") {
        Some(SelectorCompareOperator::Gt)
    } else if text_eq(word, "ge") {
        Some(SelectorCompareOperator::Ge)
    } else {
        None
    }
}

/// The object that a relation refers to; no name means the source.
pub open spec fn target_named(word: Seq<char>) -> Option<TargetRef> {
    if word.len() == 0 || same_ignoring_case(word, "Self"@) || same_ignoring_case(word, "Source"@) || same_ignoring_case(word, "You"@) || same_ignoring_case(word, "YouCtrl"@) {
        Some(TargetRef::Source)
    } else if same_ignoring_case(word, "Remembered"@) {
        Some(TargetRef::Remembered)
    } else if same_ignoring_case(word, "RememberedLKI"@) {
        Some(TargetRef::RememberedLki)
    } else if same_ignoring_case(word, "Imprinted"@) {
        Some(TargetRef::Imprinted)
    } else if same_ignoring_case(word, "ChosenCard"@) {
        Some(TargetRef::ChosenCard)
    } else if same_ignoring_case(word, "ChosenPlayer"@) {
        Some(TargetRef::ChosenPlayer)
    } else if same_ignoring_case(word, "Targeted"@) || same_ignoring_case(word, "TargetedPlayer"@) || same_ignoring_case(word, "TargetedController"@) {
        Some(TargetRef::Targeted)
    } else if same_ignoring_case(word, "Player"@) {
        Some(TargetRef::Player)
    } else if same_ignoring_case(word, "Opponent"@) {
        Some(TargetRef::Opponent)
    } else if same_ignoring_case(word, "Battlefield"@) {
        Some(TargetRef::Battlefield)
    } else if same_ignoring_case(word, "OtherYourBattlefield"@) {
        Some(TargetRef::OtherYourBattlefield)
    } else if same_ignoring_case(word, "YourGraveyard"@) {
        Some(TargetRef::YourGraveyard)
    } else if same_ignoring_case(word, "TriggeredTarget"@) {
        Some(TargetRef::TriggeredTarget)
    } else if same_ignoring_case(word, "TriggeredPlayer"@) {
        Some(TargetRef::TriggeredPlayer)
    } else if same_ignoring_case(word, "TriggeredCard"@) {
        Some(TargetRef::TriggeredCard)
    } else if same_ignoring_case(word, "TriggeredCardController"@) {
        Some(TargetRef::TriggeredCardController)
    } else if same_ignoring_case(word, "TriggeredDefendingPlayer"@) {
        Some(TargetRef::TriggeredDefendingPlayer)
    } else if same_ignoring_case(word, "TriggeredAttackedTarget"@) {
        Some(TargetRef::TriggeredAttackedTarget)
    } else if same_ignoring_case(word, "Commander"@) {
        Some(TargetRef::Commander)
    } else {
        None
    }
}

pub fn target_named_of(word: &str) -> (r: Option<TargetRef>)
    ensures
        r == target_named(word@),
{
    if word.unicode_len() == 0 || eq_ignore_case(word, "Self") || eq_ignore_case(word, "Source") || eq_ignore_case(word, "You") || eq_ignore_case(word, "YouCtrl") {
        Some(TargetRef::Source)
    } else if eq_ignore_case(word, "Remembered") {
        Some(TargetRef::Remembered)
    } else if eq_ignore_case(word, "RememberedLKI") {
        Some(TargetRef::RememberedLki)
    } else if eq_ignore_case(word, "Imprinted") {
        Some(TargetRef::Imprinted)
    } else if eq_ignore_case(word, "ChosenCard") {
        Some(TargetRef::ChosenCard)
    } else if eq_ignore_case(word, "ChosenPlayer") {
        Some(TargetRef::ChosenPlayer)
    } else if eq_ignore_case(word, "Targeted") || eq_ignore_case(word, "TargetedPlayer") || eq_ignore_case(word, "TargetedController") {
        Some(TargetRef::Targeted)
    } else if eq_ignore_case(word, "Player") {
        Some(TargetRef::Player)
    } else if eq_ignore_case(word, "Opponent") {
        Some(TargetRef::Opponent)
    } else if eq_ignore_case(word, "Battlefield") {
        Some(TargetRef::Battlefield)
    } else if eq_ignore_case(word, "OtherYourBattlefield") {
        Some(TargetRef::OtherYourBattlefield)
    } else if eq_ignore_case(word, "YourGraveyard") {
        Some(TargetRef::YourGraveyard)
    } else if eq_ignore_case(word, "TriggeredTarget") {
        Some(TargetRef::TriggeredTarget)
    } else if eq_ignore_case(word, "TriggeredPlayer") {
        Some(TargetRef::TriggeredPlayer)
    } else if eq_ignore_case(word, "TriggeredCard") {
        Some(TargetRef::TriggeredCard)
    } else if eq_ignore_case(word, "TriggeredCardController") {
        Some(TargetRef::TriggeredCardController)
    } else if eq_ignore_case(word, "TriggeredDefendingPlayer") {
        Some(TargetRef::TriggeredDefendingPlayer)
    } else if eq_ignore_case(word, "TriggeredAttackedTarget") {
        Some(TargetRef::TriggeredAttackedTarget)
    } else if eq_ignore_case(word, "Commander") {
        Some(TargetRef::Commander)
    } else {
        None
    }
}

/// Qualifiers that stay as text until a card is matched.
pub open spec fn is_textual_word(word: Seq<char>) -> bool {
    ||| word == "chosenctrl"@
    ||| word == "hasabasiclandtype"@
    ||| word == "adventurecard"@
    ||| word == "issuspected"@
    ||| word == "issolved"@
    ||| word == "sneaked"@
    ||| word == "harnessed"@
    ||| word == "crewedthisturn"@
    ||| word == "crewedbysourcethisturn"@
    ||| word == "targetedplayerown"@
    ||| word == "targetedown"@
    ||| word == "targetedowner"@
    ||| word == "saddledthisturn"@
}

pub fn textual_word(word: &str) -> (r: bool)
    ensures
        r == is_textual_word(word@),
{
    text_eq(word, "chosenctrl")
        || text_eq(word, "hasabasiclandtype")
        || text_eq(word, "adventurecard")
        || text_eq(word, "issuspected")
        || text_eq(word, "issolved")
        || text_eq(word, "sneaked")
        || text_eq(word, "harnessed")
        || text_eq(word, "crewedthisturn")
        || text_eq(word, "crewedbysourcethisturn")
        || text_eq(word, "targetedplayerown")
        || text_eq(word, "targetedown")
        || text_eq(word, "targetedowner")
        || text_eq(word, "saddledthisturn")
}

/// A qualifier made of one fixed word.
pub open spec fn fixed_word(word: Seq<char>) -> Option<SelectorPredicate> {
    match owner_word(word) {
        Some(p) => Some(p),
        None => match trait_word(word) {
            Some(p) => Some(p),
            None => match type_word(word) {
                Some(p) => Some(p),
                None => match context_word(word) {
                    Some(p) => Some(p),
                    None => state_word(word),
                },
            },
        },
    }
}

pub fn fixed_word_of(word: &str) -> (r: Option<SelectorPredicate>)
    ensures
        r == fixed_word(word@),
{
    if let Some(p) = owner_word_of(word) {
        return Some(p);
    }
    if let Some(p) = trait_word_of(word) {
        return Some(p);
    }
    if let Some(p) = type_word_of(word) {
        return Some(p);
    }
    if let Some(p) = context_word_of(word) {
        return Some(p);
    }
    state_word_of(word)
}

} // verus!
