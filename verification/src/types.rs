//! Identifiers and the small closed vocabularies that every part of the engine shares.

use vstd::prelude::*;
use crate::text::{eq_ignore_case, same_ignoring_case, text_eq};

verus! {

#[derive(Debug, Clone, Copy, PartialEq, Eq, Structural, PartialOrd, Ord, Hash)]
pub struct CardId(pub u32);

#[derive(Debug, Clone, Copy, PartialEq, Eq, Structural, PartialOrd, Ord, Hash)]
pub struct PlayerId(pub u32);

/// A place where cards can be.
#[derive(Debug, Clone, Copy, PartialEq, Eq, Structural, Hash)]
pub enum ZoneType {
    Nowhere,
    Library,
    Hand,
    Battlefield,
    Graveyard,
    Exile,
    Stack,
    Command,
    Sideboard,
    Ante,
}

/// The zone that a name stands for, whatever the case of its letters.
pub open spec fn zone_named(name: Seq<char>) -> Option<ZoneType> {
    if same_ignoring_case(name, "None"@) {
        Some(ZoneType::Nowhere)
    } else if same_ignoring_case(name, "Library"@) {
        Some(ZoneType::Library)
    } else if same_ignoring_case(name, "Hand"@) {
        Some(ZoneType::Hand)
    } else if same_ignoring_case(name, "Battlefield"@) {
        Some(ZoneType::Battlefield)
    } else if same_ignoring_case(name, "Graveyard"@) {
        Some(ZoneType::Graveyard)
    } else if same_ignoring_case(name, "Exile"@) {
        Some(ZoneType::Exile)
    } else if same_ignoring_case(name, "Stack"@) {
        Some(ZoneType::Stack)
    } else if same_ignoring_case(name, "Command"@) {
        Some(ZoneType::Command)
    } else if same_ignoring_case(name, "Sideboard"@) {
        Some(ZoneType::Sideboard)
    } else if same_ignoring_case(name, "Ante"@) {
        Some(ZoneType::Ante)
    } else {
        None
    }
}

impl ZoneType {
    /// Reads a zone name, ignoring case.
    pub fn from_str_compat(name: &str) -> (r: Option<ZoneType>)
        ensures
            r == zone_named(name@),
    {
        if eq_ignore_case(name, "None") {
            Some(ZoneType::Nowhere)
        } else if eq_ignore_case(name, "Library") {
            Some(ZoneType::Library)
        } else if eq_ignore_case(name, "Hand") {
            Some(ZoneType::Hand)
        } else if eq_ignore_case(name, "Battlefield") {
            Some(ZoneType::Battlefield)
        } else if eq_ignore_case(name, "Graveyard") {
            Some(ZoneType::Graveyard)
        } else if eq_ignore_case(name, "Exile") {
            Some(ZoneType::Exile)
        } else if eq_ignore_case(name, "Stack") {
            Some(ZoneType::Stack)
        } else if eq_ignore_case(name, "Command") {
            Some(ZoneType::Command)
        } else if eq_ignore_case(name, "Sideboard") {
            Some(ZoneType::Sideboard)
        } else if eq_ignore_case(name, "Ante") {
            Some(ZoneType::Ante)
        } else {
            None
        }
    }
}

/// What a triggered ability can remember of the event that triggered it.
#[derive(Debug, Clone, Copy, PartialEq, Eq, Structural, Hash)]
pub enum AbilityKey {
    Activator,
    Amount,
    AttackedTarget,
    Attacker,
    Attackers,
    AttackingPlayer,
    Blocker,
    Card,
    CardLKI,
    Cards,
    Cause,
    DamageAmount,
    Defender,
    Defenders,
    DefendingPlayer,
    Explored,
    Explorer,
    LifeAmount,
    NewCard,
    Player,
    Produced,
    RememberedLKI,
    ReplacedCard,
    Result,
    ScryNum,
    Source,
    Sources,
    SpellAbility,
    Target,
    TargetCard,
    TargetPlayer,
    Targets,
}

/// The key that a name stands for.
pub open spec fn key_named(name: Seq<char>) -> Option<AbilityKey> {
    if name == "Activator"@ {
        Some(AbilityKey::Activator)
    } else if name == "Amount"@ {
        Some(AbilityKey::Amount)
    } else if name == "AttackedTarget"@ {
        Some(AbilityKey::AttackedTarget)
    } else if name == "Attacker"@ {
        Some(AbilityKey::Attacker)
    } else if name == "Attackers"@ {
        Some(AbilityKey::Attackers)
    } else if name == "AttackingPlayer"@ {
        Some(AbilityKey::AttackingPlayer)
    } else if name == "Blocker"@ {
        Some(AbilityKey::Blocker)
    } else if name == "Card"@ {
        Some(AbilityKey::Card)
    } else if name == "CardLKI"@ {
        Some(AbilityKey::CardLKI)
    } else if name == "Cards"@ {
        Some(AbilityKey::Cards)
    } else if name == "Cause"@ {
        Some(AbilityKey::Cause)
    } else if name == "DamageAmount"@ {
        Some(AbilityKey::DamageAmount)
    } else if name == "Defender"@ {
        Some(AbilityKey::Defender)
    } else if name == "Defenders"@ {
        Some(AbilityKey::Defenders)
    } else if name == "DefendingPlayer"@ {
        Some(AbilityKey::DefendingPlayer)
    } else if name == "Explored"@ {
        Some(AbilityKey::Explored)
    } else if name == "Explorer"@ {
        Some(AbilityKey::Explorer)
    } else if name == "LifeAmount"@ {
        Some(AbilityKey::LifeAmount)
    } else if name == "NewCard"@ {
        Some(AbilityKey::NewCard)
    } else if name == "Player"@ {
        Some(AbilityKey::Player)
    } else if name == "Produced"@ {
        Some(AbilityKey::Produced)
    } else if name == "RememberedLKI"@ {
        Some(AbilityKey::RememberedLKI)
    } else if name == "ReplacedCard"@ {
        Some(AbilityKey::ReplacedCard)
    } else if name == "Result"@ {
        Some(AbilityKey::Result)
    } else if name == "ScryNum"@ {
        Some(AbilityKey::ScryNum)
    } else if name == "Source"@ {
        Some(AbilityKey::Source)
    } else if name == "Sources"@ {
        Some(AbilityKey::Sources)
    } else if name == "SpellAbility"@ {
        Some(AbilityKey::SpellAbility)
    } else if name == "Target"@ {
        Some(AbilityKey::Target)
    } else if name == "TargetCard"@ {
        Some(AbilityKey::TargetCard)
    } else if name == "TargetPlayer"@ {
        Some(AbilityKey::TargetPlayer)
    } else if name == "Targets"@ {
        Some(AbilityKey::Targets)
    } else {
        None
    }
}

impl AbilityKey {
    pub fn from_name(name: &str) -> (r: Option<AbilityKey>)
        ensures
            r == key_named(name@),
    {
        if text_eq(name, "Activator") {
            Some(AbilityKey::Activator)
        } else if text_eq(name, "Amount") {
            Some(AbilityKey::Amount)
        } else if text_eq(name, "AttackedTarget") {
            Some(AbilityKey::AttackedTarget)
        } else if text_eq(name, "Attacker") {
            Some(AbilityKey::Attacker)
        } else if text_eq(name, "Attackers") {
            Some(AbilityKey::Attackers)
        } else if text_eq(name, "AttackingPlayer") {
            Some(AbilityKey::AttackingPlayer)
        } else if text_eq(name, "Blocker") {
            Some(AbilityKey::Blocker)
        } else if text_eq(name, "Card") {
            Some(AbilityKey::Card)
        } else if text_eq(name, "CardLKI") {
            Some(AbilityKey::CardLKI)
        } else if text_eq(name, "Cards") {
            Some(AbilityKey::Cards)
        } else if text_eq(name, "Cause") {
            Some(AbilityKey::Cause)
        } else if text_eq(name, "DamageAmount") {
            Some(AbilityKey::DamageAmount)
        } else if text_eq(name, "Defender") {
            Some(AbilityKey::Defender)
        } else if text_eq(name, "Defenders") {
            Some(AbilityKey::Defenders)
        } else if text_eq(name, "DefendingPlayer") {
            Some(AbilityKey::DefendingPlayer)
        } else if text_eq(name, "Explored") {
            Some(AbilityKey::Explored)
        } else if text_eq(name, "Explorer") {
            Some(AbilityKey::Explorer)
        } else if text_eq(name, "LifeAmount") {
            Some(AbilityKey::LifeAmount)
        } else if text_eq(name, "NewCard") {
            Some(AbilityKey::NewCard)
        } else if text_eq(name, "Player") {
            Some(AbilityKey::Player)
        } else if text_eq(name, "Produced") {
            Some(AbilityKey::Produced)
        } else if text_eq(name, "RememberedLKI") {
            Some(AbilityKey::RememberedLKI)
        } else if text_eq(name, "ReplacedCard") {
            Some(AbilityKey::ReplacedCard)
        } else if text_eq(name, "Result") {
            Some(AbilityKey::Result)
        } else if text_eq(name, "ScryNum") {
            Some(AbilityKey::ScryNum)
        } else if text_eq(name, "Source") {
            Some(AbilityKey::Source)
        } else if text_eq(name, "Sources") {
            Some(AbilityKey::Sources)
        } else if text_eq(name, "SpellAbility") {
            Some(AbilityKey::SpellAbility)
        } else if text_eq(name, "Target") {
            Some(AbilityKey::Target)
        } else if text_eq(name, "TargetCard") {
            Some(AbilityKey::TargetCard)
        } else if text_eq(name, "TargetPlayer") {
            Some(AbilityKey::TargetPlayer)
        } else if text_eq(name, "Targets") {
            Some(AbilityKey::Targets)
        } else {
            None
        }
    }
}

/// Alternative ways to cast a spell that selectors can ask for.
#[derive(Debug, Clone, Copy, PartialEq, Eq, Structural, Hash)]
pub enum AlternativeCost {
    Escape,
    Prowl,
    Spectacle,
    Surge,
    Blitz,
    Dash,
    Evoke,
    Impending,
    WebSlinging,
}

/// Optional extra costs of a spell.
#[derive(Debug, Clone, Copy, PartialEq, Eq, Structural, Hash)]
pub enum OptionalCost {
    Kicker,
    Bargain,
    Teamwork,
}

} // verus!
