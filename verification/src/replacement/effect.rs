//! Replacement effects as data, and how their scripts are read.

use vstd::prelude::*;
use crate::game::{find_svar, svar_value, Card, PhaseType, SVar};
use crate::parsing::params::{found, params_of, string_of, text_of, Params};
use crate::replacement::event::{ReplacementLayer, ReplacementType};
use crate::svar::facts::{read_zones, zones_listed};
use crate::text::{
    eq_ignore_case, has_prefix, int_value, pieces, same_ignoring_case, split, strip_prefix, text_eq,
    trim, trimmed, views,
};
use crate::types::ZoneType;

verus! {

/// A replacement effect. `requirements_met` says whether its conditions hold now.
pub struct ReplacementEffect {
    pub id: i32,
    pub event: ReplacementType,
    pub layer: ReplacementLayer,
    pub active_zones: Option<Vec<ZoneType>>,
    pub active_phases: Option<Vec<PhaseType>>,
    pub requirements_met: bool,
    pub enters_allowed: bool,
    pub prevents: bool,
    pub prevention_effect: bool,
    pub skips: bool,
    pub optional: bool,
    pub effect_only: bool,
    pub exiled_with_effect_source: bool,
    pub discard: Option<bool>,
    pub flashback_cast: bool,
    pub harmonize_cast: bool,
    pub fizzle: Option<bool>,
    pub max_speed: Option<bool>,
    pub is_combat: Option<bool>,
    pub valid_sides: Option<i32>,
    pub optional_decider: Option<String>,
    pub valid_card: Option<String>,
    pub valid_source: Option<String>,
    pub valid_target: Option<String>,
    pub valid_player: Option<String>,
    pub valid_explorer: Option<String>,
    pub valid_token: Option<String>,
    pub valid_lki: Option<String>,
    pub valid_stack_sa: Option<String>,
    pub destination: Option<String>,
    pub exclude_destination: Option<String>,
    pub origin: Option<String>,
    pub new_destination: Option<String>,
    pub damage_amount: Option<String>,
    pub damage_target: Option<String>,
    pub replace_with: Option<String>,
    pub replacement_result: Option<String>,
    pub execute_mode: Option<String>,
    pub svars: Vec<SVar>,
    pub overriding_ability: Option<String>,
}

/// The kind of event that a name stands for.
pub open spec fn type_named(name: Seq<char>) -> ReplacementType {
    if name == "DamageDone"@ {
        ReplacementType::DamageDone
    } else if name == "Draw"@ {
        ReplacementType::Draw
    } else if name == "Destroy"@ {
        ReplacementType::Destroy
    } else if name == "Moved"@ {
        ReplacementType::Moved
    } else if name == "GainLife"@ {
        ReplacementType::GainLife
    } else if name == "CreateToken"@ {
        ReplacementType::CreateToken
    } else if name == "AddCounter"@ {
        ReplacementType::AddCounter
    } else if name == "GameLoss"@ {
        ReplacementType::GameLoss
    } else if name == "GameWin"@ {
        ReplacementType::GameWin
    } else if name == "Counter"@ {
        ReplacementType::Counter
    } else if name == "ProduceMana"@ {
        ReplacementType::ProduceMana
    } else if name == "DrawCards"@ {
        ReplacementType::DrawCards
    } else if name == "AssembleContraption"@ {
        ReplacementType::AssembleContraption
    } else if name == "AssignDealDamage"@ {
        ReplacementType::AssignDealDamage
    } else if name == "Attached"@ {
        ReplacementType::Attached
    } else if name == "BeginPhase"@ {
        ReplacementType::BeginPhase
    } else if name == "BeginTurn"@ {
        ReplacementType::BeginTurn
    } else if name == "Cascade"@ {
        ReplacementType::Cascade
    } else if name == "Connive"@ {
        ReplacementType::Connive
    } else if name == "CopySpell"@ {
        ReplacementType::CopySpell
    } else if name == "DealtDamage"@ {
        ReplacementType::DealtDamage
    } else if name == "DeclareBlocker"@ {
        ReplacementType::DeclareBlocker
    } else if name == "Explore"@ {
        ReplacementType::Explore
    } else if name == "Learn"@ {
        ReplacementType::Learn
    } else if name == "LifeReduced"@ {
        ReplacementType::LifeReduced
    } else if name == "LoseMana"@ {
        ReplacementType::LoseMana
    } else if name == "Mill"@ {
        ReplacementType::Mill
    } else if name == "PayLife"@ {
        ReplacementType::PayLife
    } else if name == "PlanarDiceResult"@ {
        ReplacementType::PlanarDiceResult
    } else if name == "Planeswalk"@ {
        ReplacementType::Planeswalk
    } else if name == "Proliferate"@ {
        ReplacementType::Proliferate
    } else if name == "RemoveCounter"@ {
        ReplacementType::RemoveCounter
    } else if name == "RollDice"@ {
        ReplacementType::RollDice
    } else if name == "RollPlanarDice"@ {
        ReplacementType::RollPlanarDice
    } else if name == "Scry"@ {
        ReplacementType::Scry
    } else if name == "SetInMotion"@ {
        ReplacementType::SetInMotion
    } else if name == "Tap"@ {
        ReplacementType::Tap
    } else if name == "Transform"@ {
        ReplacementType::Transform
    } else if name == "TurnFaceUp"@ {
        ReplacementType::TurnFaceUp
    } else if name == "Untap"@ {
        ReplacementType::Untap
    } else {
        ReplacementType::Other
    }
}

fn read_type(name: &str) -> (r: ReplacementType)
    ensures
        r == type_named(name@),
{
    if text_eq(name, "DamageDone") {
        ReplacementType::DamageDone
    } else if text_eq(name, "Draw") {
        ReplacementType::Draw
    } else if text_eq(name, "Destroy") {
        ReplacementType::Destroy
    } else if text_eq(name, "Moved") {
        ReplacementType::Moved
    } else if text_eq(name, "GainLife") {
        ReplacementType::GainLife
    } else if text_eq(name, "CreateToken") {
        ReplacementType::CreateToken
    } else if text_eq(name, "AddCounter") {
        ReplacementType::AddCounter
    } else if text_eq(name, "GameLoss") {
        ReplacementType::GameLoss
    } else if text_eq(name, "GameWin") {
        ReplacementType::GameWin
    } else if text_eq(name, "Counter") {
        ReplacementType::Counter
    } else if text_eq(name, "ProduceMana") {
        ReplacementType::ProduceMana
    } else if text_eq(name, "DrawCards") {
        ReplacementType::DrawCards
    } else if text_eq(name, "AssembleContraption") {
        ReplacementType::AssembleContraption
    } else if text_eq(name, "AssignDealDamage") {
        ReplacementType::AssignDealDamage
    } else if text_eq(name, "Attached") {
        ReplacementType::Attached
    } else if text_eq(name, "BeginPhase") {
        ReplacementType::BeginPhase
    } else if text_eq(name, "BeginTurn") {
        ReplacementType::BeginTurn
    } else if text_eq(name, "Cascade") {
        ReplacementType::Cascade
    } else if text_eq(name, "Connive") {
        ReplacementType::Connive
    } else if text_eq(name, "CopySpell") {
        ReplacementType::CopySpell
    } else if text_eq(name, "DealtDamage") {
        ReplacementType::DealtDamage
    } else if text_eq(name, "DeclareBlocker") {
        ReplacementType::DeclareBlocker
    } else if text_eq(name, "Explore") {
        ReplacementType::Explore
    } else if text_eq(name, "Learn") {
        ReplacementType::Learn
    } else if text_eq(name, "LifeReduced") {
        ReplacementType::LifeReduced
    } else if text_eq(name, "LoseMana") {
        ReplacementType::LoseMana
    } else if text_eq(name, "Mill") {
        ReplacementType::Mill
    } else if text_eq(name, "PayLife") {
        ReplacementType::PayLife
    } else if text_eq(name, "PlanarDiceResult") {
        ReplacementType::PlanarDiceResult
    } else if text_eq(name, "Planeswalk") {
        ReplacementType::Planeswalk
    } else if text_eq(name, "Proliferate") {
        ReplacementType::Proliferate
    } else if text_eq(name, "RemoveCounter") {
        ReplacementType::RemoveCounter
    } else if text_eq(name, "RollDice") {
        ReplacementType::RollDice
    } else if text_eq(name, "RollPlanarDice") {
        ReplacementType::RollPlanarDice
    } else if text_eq(name, "Scry") {
        ReplacementType::Scry
    } else if text_eq(name, "SetInMotion") {
        ReplacementType::SetInMotion
    } else if text_eq(name, "Tap") {
        ReplacementType::Tap
    } else if text_eq(name, "Transform") {
        ReplacementType::Transform
    } else if text_eq(name, "TurnFaceUp") {
        ReplacementType::TurnFaceUp
    } else if text_eq(name, "Untap") {
        ReplacementType::Untap
    } else {
        ReplacementType::Other
    }
}

/// The layer that a name stands for.
pub open spec fn layer_named(name: Option<Seq<char>>) -> ReplacementLayer {
    if name == Some("CantHappen"@) {
        ReplacementLayer::CantHappen
    } else if name == Some("Control"@) {
        ReplacementLayer::Control
    } else if name == Some("Copy"@) {
        ReplacementLayer::Copy
    } else if name == Some("Transform"@) {
        ReplacementLayer::Transform
    } else {
        ReplacementLayer::Other
    }
}

fn read_layer(name: Option<&str>) -> (r: ReplacementLayer)
    ensures
        r == layer_named(text_of(name)),
{
    match name {
        Some(n) => {
            if text_eq(n, "CantHappen") {
                ReplacementLayer::CantHappen
            } else if text_eq(n, "Control") {
                ReplacementLayer::Control
            } else if text_eq(n, "Copy") {
                ReplacementLayer::Copy
            } else if text_eq(n, "Transform") {
                ReplacementLayer::Transform
            } else {
                ReplacementLayer::Other
            }
        },
        None => ReplacementLayer::Other,
    }
}

/// The step or phase that a name stands for.
pub open spec fn phase_named(name: Seq<char>) -> Option<PhaseType> {
    if name == "Untap"@ {
        Some(PhaseType::Untap)
    } else if name == "Upkeep"@ {
        Some(PhaseType::Upkeep)
    } else if name == "Draw"@ {
        Some(PhaseType::Draw)
    } else if name == "Main1"@ {
        Some(PhaseType::Main1)
    } else if name == "CombatBegin"@ {
        Some(PhaseType::CombatBegin)
    } else if name == "CombatDeclareAttackers"@ {
        Some(PhaseType::CombatDeclareAttackers)
    } else if name == "CombatDeclareBlockers"@ {
        Some(PhaseType::CombatDeclareBlockers)
    } else if name == "CombatFirstStrikeDamage"@ {
        Some(PhaseType::CombatFirstStrikeDamage)
    } else if name == "CombatDamage"@ {
        Some(PhaseType::CombatDamage)
    } else if name == "CombatEnd"@ {
        Some(PhaseType::CombatEnd)
    } else if name == "Main2"@ {
        Some(PhaseType::Main2)
    } else if name == "EndOfTurn"@ {
        Some(PhaseType::EndOfTurn)
    } else if name == "Cleanup"@ {
        Some(PhaseType::Cleanup)
    } else {
        None
    }
}

fn read_phase(name: &str) -> (r: Option<PhaseType>)
    ensures
        r == phase_named(name@),
{
    if text_eq(name, "Untap") {
        Some(PhaseType::Untap)
    } else if text_eq(name, "Upkeep") {
        Some(PhaseType::Upkeep)
    } else if text_eq(name, "Draw") {
        Some(PhaseType::Draw)
    } else if text_eq(name, "Main1") {
        Some(PhaseType::Main1)
    } else if text_eq(name, "CombatBegin") {
        Some(PhaseType::CombatBegin)
    } else if text_eq(name, "CombatDeclareAttackers") {
        Some(PhaseType::CombatDeclareAttackers)
    } else if text_eq(name, "CombatDeclareBlockers") {
        Some(PhaseType::CombatDeclareBlockers)
    } else if text_eq(name, "CombatFirstStrikeDamage") {
        Some(PhaseType::CombatFirstStrikeDamage)
    } else if text_eq(name, "CombatDamage") {
        Some(PhaseType::CombatDamage)
    } else if text_eq(name, "CombatEnd") {
        Some(PhaseType::CombatEnd)
    } else if text_eq(name, "Main2") {
        Some(PhaseType::Main2)
    } else if text_eq(name, "EndOfTurn") {
        Some(PhaseType::EndOfTurn)
    } else if text_eq(name, "Cleanup") {
        Some(PhaseType::Cleanup)
    } else {
        None
    }
}

/// The phases among trimmed names.
pub open spec fn phases_among(names: Seq<Seq<char>>) -> Seq<PhaseType>
    decreases names.len(),
{
    if names.len() == 0 {
        Seq::empty()
    } else {
        let before = phases_among(names.drop_last());
        match phase_named(trimmed(names.last())) {
            Some(p) => before.push(p),
            None => before,
        }
    }
}

fn read_phases(text: &str) -> (r: Vec<PhaseType>)
    ensures
        r@ == phases_among(pieces(text@, ","@)),
{
    proof {
        reveal_strlit(",");
    }
    let words = split(text, ",");
    let ghost all = pieces(text@, ","@);
    let mut out: Vec<PhaseType> = Vec::new();
    let mut i: usize = 0;
    while i < words.len()
        invariant
            i <= words@.len(),
            views(words@) == all,
            out@ == phases_among(all.take(i as int)),
        decreases words@.len() - i,
    {
        proof {
            assert(all.take(i + 1).drop_last() =~= all.take(i as int));
            assert(all.take(i + 1).last() == words@[i as int]@);
        }
        if let Some(p) = read_phase(trim(words[i])) {
            out.push(p);
        }
        i = i + 1;
    }
    assert(all.take(i as int) =~= all);
    out
}

/// Whether a parameter says `True`; none where it is not given.
pub open spec fn flag(p: Map<Seq<char>, Seq<char>>, key: Seq<char>) -> Option<bool> {
    match found(p, key) {
        Some(v) => Some(same_ignoring_case(v, "True"@)),
        None => None,
    }
}

fn read_flag(p: &Params, key: &str) -> (r: Option<bool>)
    requires
        p.wf(),
    ensures
        r == flag(p@, key@),
{
    match p.get(key) {
        Some(v) => Some(eq_ignore_case(v, "True")),
        None => None,
    }
}

fn read_text(p: &Params, key: &str) -> (r: Option<String>)
    requires
        p.wf(),
    ensures
        string_of(r) == found(p@, key@),
{
    match p.get(key) {
        Some(v) => Some(v.to_string()),
        None => None,
    }
}

/// Whether an effect is what a parameter list describes.
pub open spec fn effect_reads(e: ReplacementEffect, p: Map<Seq<char>, Seq<char>>) -> bool {
    &&& found(p, "Event"@) is Some
    &&& e.event == type_named(found(p, "Event"@)->0)
    &&& e.layer == layer_named(found(p, "Layer"@))
    &&& match found(p, "ActiveZones"@) {
        Some(v) => e.active_zones is Some && (e.active_zones->0)@ == zones_listed(v),
        None => e.active_zones is None,
    }
    &&& match found(p, "ActivePhases"@) {
        Some(v) => e.active_phases is Some && (e.active_phases->0)@ == phases_among(
            pieces(v, ","@),
        ),
        None => e.active_phases is None,
    }
    &&& e.requirements_met
    &&& e.enters_allowed
    &&& e.prevents == (flag(p, "Prevent"@) == Some(true))
    &&& e.prevention_effect == p.dom().contains("PreventionEffect"@)
    &&& e.skips == p.dom().contains("Skip"@)
    &&& e.optional == (flag(p, "Optional"@) == Some(true))
    &&& e.effect_only == (flag(p, "EffectOnly"@) == Some(true))
    &&& e.exiled_with_effect_source == (flag(p, "ExiledWithEffectSource"@) == Some(true))
    &&& e.discard == flag(p, "Discard"@)
    &&& e.flashback_cast == (flag(p, "FlashbackCast"@) == Some(true))
    &&& e.harmonize_cast == (flag(p, "HarmonizeCast"@) == Some(true))
    &&& e.fizzle == flag(p, "Fizzle"@)
    &&& e.max_speed == flag(p, "MaxSpeed"@)
    &&& e.is_combat == flag(p, "IsCombat"@)
    &&& crate::text::as_int(e.valid_sides) == (match found(p, "ValidSides"@) {
        Some(v) => int_value(trimmed(v)),
        None => None,
    })
    &&& texts_read(e, p)
    &&& e.id == 0
    &&& e.svars@.len() == 0
    &&& e.overriding_ability is None
}

/// The texts of an effect.
pub open spec fn texts_read(e: ReplacementEffect, p: Map<Seq<char>, Seq<char>>) -> bool {
    &&& string_of(e.optional_decider) == found(p, "OptionalDecider"@)
    &&& string_of(e.valid_card) == found(p, "ValidCard"@)
    &&& string_of(e.valid_source) == found(p, "ValidSource"@)
    &&& string_of(e.valid_target) == found(p, "ValidTarget"@)
    &&& string_of(e.valid_player) == found(p, "ValidPlayer"@)
    &&& string_of(e.valid_explorer) == found(p, "ValidExplorer"@)
    &&& string_of(e.valid_token) == found(p, "ValidToken"@)
    &&& string_of(e.valid_lki) == found(p, "ValidLKI"@)
    &&& string_of(e.valid_stack_sa) == found(p, "ValidStackSa"@)
    &&& string_of(e.destination) == found(p, "Destination"@)
    &&& string_of(e.exclude_destination) == found(p, "ExcludeDestination"@)
    &&& string_of(e.origin) == found(p, "Origin"@)
    &&& string_of(e.new_destination) == found(p, "NewDestination"@)
    &&& string_of(e.damage_amount) == found(p, "DamageAmount"@)
    &&& string_of(e.damage_target) == found(p, "DamageTarget"@)
    &&& string_of(e.replace_with) == found(p, "ReplaceWith"@)
    &&& string_of(e.replacement_result) == found(p, "ReplacementResult"@)
    &&& string_of(e.execute_mode) == found(p, "ExecuteMode"@)
}

/// The parameters of a replacement line: what follows its mark.
pub open spec fn replacement_params(raw: Seq<char>) -> Option<Map<Seq<char>, Seq<char>>> {
    let t = trimmed(raw);
    if has_prefix(t, "R$"@) {
        Some(params_of(t.skip("R$"@.len() as int)))
    } else if has_prefix(t, "R:"@) {
        Some(params_of(t.skip("R:"@.len() as int)))
    } else {
        None
    }
}

/// Reads a replacement line; nothing where it is none or names no event.
pub fn parse_replacement(raw: &str) -> (r: Option<ReplacementEffect>)
    ensures
        match replacement_params(raw@) {
            Some(p) => if found(p, "Event"@) is Some {
                r matches Some(e) && effect_reads(e, p)
            } else {
                r is None
            },
            None => r is None,
        },
{
    let t = trim(raw);
    let body = match strip_prefix(t, "R$") {
        Some(b) => b,
        None => match strip_prefix(t, "R:") {
            Some(b) => b,
            None => {
                return None;
            },
        },
    };
    let p = Params::from_raw(body);
    let event = match p.get("Event") {
        Some(name) => read_type(name),
        None => {
            return None;
        },
    };
    let active_zones = match p.get("ActiveZones") {
        Some(v) => Some(read_zones(v)),
        None => None,
    };
    let active_phases = match p.get("ActivePhases") {
        Some(v) => Some(read_phases(v)),
        None => None,
    };
    Some(
        ReplacementEffect {
            id: 0,
            event,
            layer: read_layer(p.get("Layer")),
            active_zones,
            active_phases,
            requirements_met: true,
            enters_allowed: true,
            prevents: p.is_true("Prevent"),
            prevention_effect: p.has("PreventionEffect"),
            skips: p.has("Skip"),
            optional: p.is_true("Optional"),
            effect_only: p.is_true("EffectOnly"),
            exiled_with_effect_source: p.is_true("ExiledWithEffectSource"),
            discard: read_flag(&p, "Discard"),
            flashback_cast: p.is_true("FlashbackCast"),
            harmonize_cast: p.is_true("HarmonizeCast"),
            fizzle: read_flag(&p, "Fizzle"),
            max_speed: read_flag(&p, "MaxSpeed"),
            is_combat: read_flag(&p, "IsCombat"),
            valid_sides: p.as_i32("ValidSides"),
            optional_decider: read_text(&p, "OptionalDecider"),
            valid_card: read_text(&p, "ValidCard"),
            valid_source: read_text(&p, "ValidSource"),
            valid_target: read_text(&p, "ValidTarget"),
            valid_player: read_text(&p, "ValidPlayer"),
            valid_explorer: read_text(&p, "ValidExplorer"),
            valid_token: read_text(&p, "ValidToken"),
            valid_lki: read_text(&p, "ValidLKI"),
            valid_stack_sa: read_text(&p, "ValidStackSa"),
            destination: read_text(&p, "Destination"),
            exclude_destination: read_text(&p, "ExcludeDestination"),
            origin: read_text(&p, "Origin"),
            new_destination: read_text(&p, "NewDestination"),
            damage_amount: read_text(&p, "DamageAmount"),
            damage_target: read_text(&p, "DamageTarget"),
            replace_with: read_text(&p, "ReplaceWith"),
            replacement_result: read_text(&p, "ReplacementResult"),
            execute_mode: read_text(&p, "ExecuteMode"),
            svars: Vec::new(),
            overriding_ability: None,
        },
    )
}

impl ReplacementEffect {
    /// Whether the effect works from a zone; from every zone where it names none.
    pub open spec fn works_in(&self, zone: ZoneType) -> bool {
        match self.active_zones {
            Some(zones) => zones@.contains(zone),
            None => true,
        }
    }

    pub fn active_in_zone(&self, zone: ZoneType) -> (r: bool)
        ensures
            r == self.works_in(zone),
    {
        match &self.active_zones {
            Some(zones) => crate::lists::has_zone(zones, zone),
            None => true,
        }
    }

    /// Whether the effect works in a phase; in every one where it names none.
    pub open spec fn works_during(&self, phase: PhaseType) -> bool {
        match self.active_phases {
            Some(phases) => phases@.contains(phase),
            None => true,
        }
    }

    pub fn matches_phase(&self, phase: PhaseType) -> (r: bool)
        ensures
            r == self.works_during(phase),
    {
        match &self.active_phases {
            Some(phases) => {
                let mut i: usize = 0;
                while i < phases.len()
                    invariant
                        i <= phases@.len(),
                        self.active_phases == Some(*phases),
                        forall|k: int| 0 <= k < i ==> phases@[k] != phase,
                    decreases phases@.len() - i,
                {
                    if phases[i] == phase {
                        assert(phases@[i as int] == phase);
                        return true;
                    }
                    i = i + 1;
                }
                false
            },
            None => true,
        }
    }

    /// A script variable of the effect, or else of its card.
    pub open spec fn script(&self, host: Card, name: Seq<char>) -> Option<Seq<char>> {
        match svar_value(self.svars@, name) {
            Some(v) => Some(v),
            None => svar_value(host.svars@, name),
        }
    }

    pub fn find_script<'a>(&'a self, host: &'a Card, name: &str) -> (r: Option<&'a str>)
        ensures
            text_of(r) == self.script(*host, name@),
    {
        match find_svar(&self.svars, name) {
            Some(v) => Some(v),
            None => find_svar(&host.svars, name),
        }
    }
}

// ---- chains ----

/// What an effect does to the values of an event, link after link.
pub enum ReplacementChainIr {
    ReplaceCounter { amount: String },
    ReplaceEffect {
        var_name: Option<String>,
        var_type: Option<String>,
        var_key: Option<String>,
        var_value: Option<String>,
        sub_ability: Option<Box<ReplacementChainIr>>,
    },
}

/// How many links may follow the first of a chain: as many as there are scripts to be named. Only
/// links that name themselves go further.
pub open spec fn more_links(e: ReplacementEffect, host: Card) -> nat {
    e.svars@.len() + host.svars@.len()
}

/// Whether a script is a link of a chain.
pub open spec fn is_link(raw: Seq<char>) -> bool {
    let p = params_of(raw);
    found(p, "DB"@) == Some("ReplaceEffect"@) || (found(p, "DB"@) == Some("ReplaceCounter"@)
        && found(p, "Amount"@) is Some)
}

/// The script that a link names next, where there is one.
pub open spec fn next_link(e: ReplacementEffect, host: Card, raw: Seq<char>) -> Option<Seq<char>> {
    match found(params_of(raw), "SubAbility"@) {
        Some(name) => match e.script(host, name) {
            Some(next) if is_link(next) => Some(next),
            _ => None,
        },
        None => None,
    }
}

/// Whether a chain is what a script says.
pub open spec fn chain_reads(
    c: ReplacementChainIr,
    e: ReplacementEffect,
    host: Card,
    raw: Seq<char>,
    links: nat,
) -> bool
    decreases links,
{
    let p = params_of(raw);
    match c {
        ReplacementChainIr::ReplaceCounter { amount } => found(p, "DB"@) == Some(
            "ReplaceCounter"@,
        ) && found(p, "Amount"@) == Some(amount@),
        ReplacementChainIr::ReplaceEffect { var_name, var_type, var_key, var_value, sub_ability } => {
            &&& found(p, "DB"@) == Some("ReplaceEffect"@)
            &&& string_of(var_name) == found(p, "VarName"@)
            &&& string_of(var_type) == found(p, "VarType"@)
            &&& string_of(var_key) == found(p, "VarKey"@)
            &&& string_of(var_value) == found(p, "VarValue"@)
            &&& match next_link(e, host, raw) {
                Some(next) => if links == 0 {
                    sub_ability is None
                } else {
                    sub_ability is Some && chain_reads(
                        *sub_ability->0,
                        e,
                        host,
                        next,
                        (links - 1) as nat,
                    )
                },
                None => sub_ability is None,
            }
        },
    }
}

fn read_chain(e: &ReplacementEffect, host: &Card, raw: &str, links: u128) -> (r: Option<
    ReplacementChainIr,
>)
    ensures
        r is Some == is_link(raw@),
        r matches Some(c) ==> chain_reads(c, *e, *host, raw@, links as nat),
    decreases links,
{
    let p = Params::from_raw(raw);
    let db = match p.get("DB") {
        Some(v) => v,
        None => {
            return None;
        },
    };
    if text_eq(db, "ReplaceEffect") {
        let mut sub_ability: Option<Box<ReplacementChainIr>> = None;
        if let Some(name) = p.get("SubAbility") {
            if let Some(next) = e.find_script(host, name) {
                if links > 0 {
                    if let Some(c) = read_chain(e, host, next, links - 1) {
                        sub_ability = Some(Box::new(c));
                    }
                }
            }
        }
        return Some(
            ReplacementChainIr::ReplaceEffect {
                var_name: read_text(&p, "VarName"),
                var_type: read_text(&p, "VarType"),
                var_key: read_text(&p, "VarKey"),
                var_value: read_text(&p, "VarValue"),
                sub_ability,
            },
        );
    }
    if text_eq(db, "ReplaceCounter") {
        if let Some(amount) = p.get("Amount") {
            return Some(ReplacementChainIr::ReplaceCounter { amount: amount.to_string() });
        }
    }
    None
}

/// The script of the chain that an effect names, where it is one.
pub open spec fn chain_script(e: ReplacementEffect, host: Card) -> Option<Seq<char>> {
    match string_of(e.replace_with) {
        Some(name) => match e.script(host, name) {
            Some(raw) if is_link(raw) => Some(raw),
            _ => None,
        },
        None => None,
    }
}

/// Reads the chain that an effect names.
pub fn resolve_replace_with_chain(e: &ReplacementEffect, host: &Card) -> (r: Option<
    ReplacementChainIr,
>)
    ensures
        match chain_script(*e, *host) {
            Some(raw) => r matches Some(c) && chain_reads(
                c,
                *e,
                *host,
                raw,
                more_links(*e, *host),
            ),
            None => r is None,
        },
{
    match &e.replace_with {
        Some(name) => match e.find_script(host, name.as_str()) {
            Some(raw) => {
                let links: u128 = e.svars.len() as u128 + host.svars.len() as u128;
                read_chain(e, host, raw, links)
            },
            None => None,
        },
        None => None,
    }
}

} // verus!
