//! What an expression is read against: the game, the card that holds it, its player and the
//! ability at hand.

use vstd::prelude::*;
use crate::game::GameState;
use crate::spell::{AbilityValue, AbilityView, SpellAbility};
use crate::text::{int_value, parse_i32, pieces, split, strip_prefix, trim, trimmed, views, has_prefix};
use crate::types::{key_named, AbilityKey, CardId, PlayerId, ZoneType};

verus! {

#[derive(Clone, Copy)]
pub struct Scene<'a> {
    pub game: &'a GameState,
    pub source: CardId,
    pub you: PlayerId,
    pub sa: &'a SpellAbility,
}

/// What an expression is read against, as values.
pub struct SceneView {
    pub game: GameState,
    pub source: CardId,
    pub you: PlayerId,
    pub sa: AbilityView,
}

impl<'a> View for Scene<'a> {
    type V = SceneView;

    open spec fn view(&self) -> SceneView {
        SceneView { game: *self.game, source: self.source, you: self.you, sa: self.sa@ }
    }
}

/// The numbers among trimmed texts.
pub open spec fn numbers_among(texts: Seq<Seq<char>>) -> Seq<i32>
    decreases texts.len(),
{
    if texts.len() == 0 {
        Seq::empty()
    } else {
        let before = numbers_among(texts.drop_last());
        match int_value(trimmed(texts.last())) {
            Some(n) => before.push(n as i32),
            None => before,
        }
    }
}

/// The numbers that a list between commas writes.
pub open spec fn numbers_listed(text: Seq<char>) -> Seq<i32> {
    numbers_among(pieces(text, ","@))
}

pub fn read_numbers(text: &str) -> (r: Vec<i32>)
    ensures
        r@ == numbers_listed(text@),
{
    proof {
        reveal_strlit(",");
    }
    let words = split(text, ",");
    let ghost all = pieces(text@, ","@);
    let mut out: Vec<i32> = Vec::new();
    let mut i: usize = 0;
    while i < words.len()
        invariant
            i <= words@.len(),
            views(words@) == all,
            out@ == numbers_among(all.take(i as int)),
        decreases words@.len() - i,
    {
        proof {
            assert(all.take(i + 1).drop_last() =~= all.take(i as int));
            assert(all.take(i + 1).last() == words@[i as int]@);
        }
        if let Some(n) = parse_i32(trim(words[i])) {
            out.push(n);
        }
        i = i + 1;
    }
    assert(all.take(i as int) =~= all);
    out
}

/// The numbers that an event left under a key.
pub open spec fn trigger_numbers(sa: AbilityView, key: AbilityKey) -> Seq<i32> {
    match sa.object_text(key) {
        Some(t) => numbers_listed(t),
        None => Seq::empty(),
    }
}

pub fn trigger_result_values(sa: &SpellAbility, key: AbilityKey) -> (r: Vec<i32>)
    ensures
        r@ == trigger_numbers(sa@, key),
{
    match sa.get_triggering_text(key) {
        Some(t) => read_numbers(t),
        None => Vec::new(),
    }
}

/// The numbers that an event left under the key of a name.
pub open spec fn trigger_numbers_named(sa: AbilityView, name: Seq<char>) -> Seq<i32> {
    match key_named(name) {
        Some(key) => trigger_numbers(sa, key),
        None => Seq::empty(),
    }
}

pub fn parse_trigger_int_values(sa: &SpellAbility, name: &str) -> (r: Vec<i32>)
    ensures
        r@ == trigger_numbers_named(sa@, name@),
{
    match AbilityKey::from_name(name) {
        Some(key) => trigger_result_values(sa, key),
        None => Vec::new(),
    }
}

/// The players that an event left under a key.
pub open spec fn object_players(sa: AbilityView, key: AbilityKey) -> Seq<PlayerId> {
    match sa.object(key) {
        Some(AbilityValue::Player(p)) => seq![p],
        Some(AbilityValue::Players(v)) => v@,
        _ => Seq::empty(),
    }
}

/// The players that a reference stands for: those of an event, or those that are defined. The
/// target of an event is the player that was targeted, where there is one.
pub open spec fn defined_players(s: SceneView, defined: Seq<char>) -> Seq<PlayerId> {
    let targeted = object_players(s.sa, AbilityKey::TargetPlayer);
    let named = if has_prefix(defined, "Triggered"@) {
        key_named(defined.skip("Triggered"@.len() as int))
    } else {
        None
    };
    if defined == "TriggeredTarget"@ && targeted.len() > 0 {
        targeted
    } else {
        match named {
            Some(key) if object_players(s.sa, key).len() > 0 => object_players(s.sa, key),
            _ => s.game.facts.players_defined(defined, s.source),
        }
    }
}

fn players_of_object(sa: &SpellAbility, key: AbilityKey) -> (r: Vec<PlayerId>)
    ensures
        r@ == object_players(sa@, key),
{
    match sa.get_triggering_value(key) {
        Some(AbilityValue::Player(p)) => {
            let mut out: Vec<PlayerId> = Vec::new();
            out.push(*p);
            assert(out@ =~= seq![*p]);
            out
        },
        Some(AbilityValue::Players(v)) => crate::lists::copy_players(v),
        _ => Vec::new(),
    }
}

pub fn resolve_defined_players(s: Scene, defined: &str) -> (r: Vec<PlayerId>)
    ensures
        r@ == defined_players(s@, defined@),
{
    if crate::text::text_eq(defined, "TriggeredTarget") {
        let targeted = players_of_object(s.sa, AbilityKey::TargetPlayer);
        if targeted.len() > 0 {
            return targeted;
        }
    }
    if let Some(name) = strip_prefix(defined, "Triggered") {
        if let Some(key) = AbilityKey::from_name(name) {
            let players = players_of_object(s.sa, key);
            if players.len() > 0 {
                return players;
            }
        }
    }
    s.game.facts.get_defined_players(defined, s.source)
}

/// Whether the ability comes from a zone-change trigger of a host into or out of a zone.
pub open spec fn triggered_by_zone_change(s: SceneView, zone: ZoneType, entering: bool) -> bool {
    let host = match s.sa.trigger_source {
        Some(h) => h,
        None => s.source,
    };
    match (s.game.card_at(host), s.sa.trigger_index) {
        (Some(c), Some(i)) => i < c.zone_triggers@.len() && {
            let t = c.zone_triggers@[i as int];
            t.changes_zone && if entering {
                t.destination_zones@.contains(zone)
            } else {
                t.origin_zones@.contains(zone) && c.zone != zone
            }
        },
        _ => false,
    }
}

pub fn is_triggered_by_zone_change(s: Scene, zone: ZoneType, entering: bool) -> (r: bool)
    ensures
        r == triggered_by_zone_change(s@, zone, entering),
{
    let host = match s.sa.trigger_source {
        Some(h) => h,
        None => s.source,
    };
    match (s.game.card(host), s.sa.trigger_index) {
        (Some(c), Some(i)) => {
            if i < c.zone_triggers.len() && c.zone_triggers[i].changes_zone {
                let t = &c.zone_triggers[i];
                if entering {
                    crate::lists::has_zone(&t.destination_zones, zone)
                } else {
                    crate::lists::has_zone(&t.origin_zones, zone) && c.zone != zone
                }
            } else {
                false
            }
        },
        _ => false,
    }
}

} // verus!
