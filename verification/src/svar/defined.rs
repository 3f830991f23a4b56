//! The cards that script references stand for.

use vstd::prelude::*;
use crate::game::GameState;
use crate::lists::{
    cards_of_option, copy_cards, extend_cards, has_card, option_cards,
};
use crate::spell::{chain_targets, AbilityView, cards_from_ability_value, paid_under, value_cards, AbilityValue, SpellAbility};
use crate::svar::facts::{or_else, value_or};
use crate::text::{
    has_prefix, parse_unsigned, strip_prefix, text_eq, unsigned_value, without_prefix, drop_prefix,
};
use crate::types::{key_named, AbilityKey, CardId};

verus! {

pub fn all_chain_targets(sa: &SpellAbility) -> (r: Vec<CardId>)
    ensures
        r@ == chain_targets(*sa),
    decreases sa,
{
    let mut out: Vec<CardId> = Vec::new();
    if sa.uses_targeting {
        extend_cards(&mut out, &sa.targets.all_target_cards);
        assert(out@ =~= sa.targets.all_target_cards@);
    }
    match &sa.sub_ability {
        Some(sub) => {
            let rest = all_chain_targets(sub);
            extend_cards(&mut out, &rest);
        },
        None => {},
    }
    out
}

/// The cards of a list without repetitions.
pub open spec fn distinct_cards(ids: Seq<CardId>) -> Seq<CardId>
    decreases ids.len(),
{
    if ids.len() == 0 {
        Seq::empty()
    } else {
        let before = distinct_cards(ids.drop_last());
        if before.contains(ids.last()) {
            before
        } else {
            before.push(ids.last())
        }
    }
}

pub fn list_distinct_cards(ids: &Vec<CardId>) -> (r: Vec<CardId>)
    ensures
        r@ == distinct_cards(ids@),
{
    let mut out: Vec<CardId> = Vec::new();
    let mut i: usize = 0;
    while i < ids.len()
        invariant
            i <= ids@.len(),
            out@ == distinct_cards(ids@.take(i as int)),
        decreases ids@.len() - i,
    {
        assert(ids@.take(i + 1).drop_last() =~= ids@.take(i as int));
        if !has_card(&out, ids[i]) {
            out.push(ids[i]);
        }
        i = i + 1;
    }
    assert(ids@.take(i as int) =~= ids@);
    out
}

/// The card that a text of digits names.
pub open spec fn card_written(text: Seq<char>) -> Option<CardId> {
    match unsigned_value(text, u32::MAX as int) {
        Some(n) => Some(CardId(n as u32)),
        None => None,
    }
}

pub fn read_card(text: &str) -> (r: Option<CardId>)
    ensures
        r == card_written(text@),
{
    match parse_unsigned(text, u32::MAX as u64) {
        Some(n) => Some(CardId(n as u32)),
        None => None,
    }
}

/// The first card that was sacrificed to pay for an ability.
pub open spec fn paid_sacrifice(sa: AbilityView) -> Option<CardId> {
    let entry = match paid_under(sa.paid_hash, "SacrificedCards"@) {
        Some(v) => Some(v),
        None => paid_under(sa.paid_hash, "Sacrificed"@),
    };
    match entry {
        Some(ids) => if ids.len() > 0 {
            card_written(ids[0]@)
        } else {
            None
        },
        None => None,
    }
}

pub fn paid_sacrificed_card(sa: &SpellAbility) -> (r: Option<CardId>)
    ensures
        r == paid_sacrifice(sa@),
{
    let entry = match sa.find_paid("SacrificedCards") {
        Some(v) => Some(v),
        None => sa.find_paid("Sacrificed"),
    };
    match entry {
        Some(ids) => if ids.len() > 0 {
            read_card(ids[0].as_str())
        } else {
            None
        },
        None => None,
    }
}

/// The sacrificed card that an ability speaks of.
pub open spec fn sacrificed(game: GameState, sa: AbilityView) -> Option<CardId> {
    match paid_sacrifice(sa) {
        Some(id) => Some(id),
        None => game.last_sacrificed_card,
    }
}

pub fn sacrificed_card(game: &GameState, sa: &SpellAbility) -> (r: Option<CardId>)
    ensures
        r == sacrificed(*game, sa@),
{
    match paid_sacrificed_card(sa) {
        Some(id) => Some(id),
        None => game.last_sacrificed_card,
    }
}

/// A number of the sacrificed card, as it last was.
pub open spec fn sacrificed_number(
    game: GameState,
    sa: AbilityView,
    property: Seq<char>,
) -> i32 {
    match sacrificed(game, sa) {
        Some(id) => match game.card_at(id) {
            Some(c) => if property == "CardPower"@ {
                or_else(c.lki_power, or_else(c.base_power, 0))
            } else if property == "CardToughness"@ {
                or_else(c.lki_toughness, or_else(c.base_toughness, 0))
            } else if property == "CardManaCost"@ {
                c.cmc
            } else {
                0
            },
            None => 0,
        },
        None => 0,
    }
}

pub fn sacrificed_card_property_value(game: &GameState, sa: &SpellAbility, property: &str) -> (r:
    i32)
    ensures
        r == sacrificed_number(*game, sa@, property@),
{
    match sacrificed_card(game, sa) {
        Some(id) => match game.card(id) {
            Some(c) => if text_eq(property, "CardPower") {
                value_or(c.lki_power, value_or(c.base_power, 0))
            } else if text_eq(property, "CardToughness") {
                value_or(c.lki_toughness, value_or(c.base_toughness, 0))
            } else if text_eq(property, "CardManaCost") {
                c.cmc
            } else {
                0
            },
            None => 0,
        },
        None => 0,
    }
}

/// A list, or another one where it is empty.
pub open spec fn cards_or(a: Seq<CardId>, b: Seq<CardId>) -> Seq<CardId> {
    if a.len() == 0 {
        b
    } else {
        a
    }
}

/// The cards that a sequence of values holds.
pub open spec fn values_cards(values: Seq<AbilityValue>) -> Seq<CardId>
    decreases values.len(),
{
    if values.len() == 0 {
        Seq::empty()
    } else {
        values_cards(values.drop_last()) + value_cards(values.last())
    }
}

fn cards_of_values(values: &Vec<AbilityValue>) -> (r: Vec<CardId>)
    ensures
        r@ == values_cards(values@),
{
    let mut out: Vec<CardId> = Vec::new();
    let mut i: usize = 0;
    while i < values.len()
        invariant
            i <= values@.len(),
            out@ == values_cards(values@.take(i as int)),
        decreases values@.len() - i,
    {
        assert(values@.take(i + 1).drop_last() =~= values@.take(i as int));
        let more = cards_from_ability_value(&values[i]);
        extend_cards(&mut out, &more);
        i = i + 1;
    }
    assert(values@.take(i as int) =~= values@);
    out
}

pub open spec fn remembered_by(game: GameState, source: CardId) -> Seq<CardId> {
    match game.card_at(source) {
        Some(c) => c.remembered_cards@,
        None => Seq::empty(),
    }
}

pub fn remembered_of(game: &GameState, source: CardId) -> (r: Vec<CardId>)
    ensures
        r@ == remembered_by(*game, source),
{
    match game.card(source) {
        Some(c) => copy_cards(&c.remembered_cards),
        None => Vec::new(),
    }
}

pub open spec fn imprinted_by(game: GameState, source: CardId) -> Seq<CardId> {
    match game.card_at(source) {
        Some(c) => c.imprinted_cards@,
        None => Seq::empty(),
    }
}

/// The cards that a reference stands for, seen from an ability and its source.
pub open spec fn defined_cards(
    defined: Seq<char>,
    game: GameState,
    source: CardId,
    sa: AbilityView,
) -> Seq<CardId> {
    if defined == "AllTargeted"@ {
        sa.chain_targets
    } else if has_prefix(defined, "TriggerObjects"@) {
        match key_named(defined.skip("TriggerObjects"@.len() as int)) {
            Some(key) => sa.object_cards(key),
            None => Seq::empty(),
        }
    } else if defined == "Targeted"@ || defined == "TargetedCard"@ || defined
        == "ThisTargetedCard"@ {
        cards_or(sa.target_cards, option_cards(sa.target_spell_source))
    } else if defined == "ParentTarget"@ || defined == "ParentTargeted"@ {
        option_cards(sa.parent_targeting_card)
    } else if defined == "TriggeredCard"@ || defined == "TriggeredCardLKICopy"@ {
        cards_or(sa.object_cards(AbilityKey::Card), option_cards(sa.trigger_source))
    } else if defined == "ReplacedCard"@ {
        cards_or(sa.object_cards(AbilityKey::ReplacedCard), sa.object_cards(AbilityKey::Card))
    } else if defined == "TriggeredNewCard"@ || defined == "TriggeredNewCardLKICopy"@ {
        cards_or(sa.object_cards(AbilityKey::NewCard), option_cards(sa.trigger_source))
    } else if defined == "TriggeredAttacker"@ {
        sa.object_cards(AbilityKey::Attacker)
    } else if defined == "TriggeredAttackers"@ {
        sa.object_cards(AbilityKey::Attackers)
    } else if defined == "TriggeredBlocker"@ {
        sa.object_cards(AbilityKey::Blocker)
    } else if defined == "TriggeredTarget"@ || defined == "TriggeredTargetLKICopy"@ || defined
        == "TriggeredTargets"@ {
        cards_or(sa.object_cards(AbilityKey::TargetCard), sa.object_cards(AbilityKey::Target))
    } else if defined == "Explorer"@ {
        sa.object_cards(AbilityKey::Explorer)
    } else if defined == "Explored"@ {
        sa.object_cards(AbilityKey::Explored)
    } else if defined == "Discarded"@ {
        sa.discarded_cost_cards
    } else if defined == "Sacrificed"@ {
        option_cards(sacrificed(game, sa))
    } else if defined == "Remembered"@ {
        remembered_by(game, source)
    } else if defined == "RememberedLKI"@ {
        cards_or(sa.object_cards(AbilityKey::RememberedLKI), remembered_by(game, source))
    } else if defined == "DelayTriggerRememberedLKI"@ {
        sa.object_cards(AbilityKey::RememberedLKI)
    } else if defined == "DelayTriggerRemembered"@ || defined == "TriggerRemembered"@ {
        values_cards(sa.trigger_remembered)
    } else if defined == "Imprinted"@ {
        imprinted_by(game, source)
    } else {
        game.facts.cards_defined(defined, source)
    }
}

fn first_or(a: Vec<CardId>, b: Vec<CardId>) -> (r: Vec<CardId>)
    ensures
        r@ == cards_or(a@, b@),
{
    if a.len() == 0 {
        b
    } else {
        a
    }
}

/// Resolves a reference to cards.
pub fn resolve_defined_cards_for_svar(
    defined: &str,
    game: &GameState,
    source: CardId,
    sa: &SpellAbility,
) -> (r: Vec<CardId>)
    ensures
        r@ == defined_cards(defined@, *game, source, sa@),
{
    if text_eq(defined, "AllTargeted") {
        return all_chain_targets(sa);
    }
    if let Some(name) = strip_prefix(defined, "TriggerObjects") {
        return match AbilityKey::from_name(name) {
            Some(key) => sa.get_triggering_cards(key),
            None => Vec::new(),
        };
    }
    if text_eq(defined, "Targeted") || text_eq(defined, "TargetedCard") || text_eq(
        defined,
        "ThisTargetedCard",
    ) {
        return first_or(
            copy_cards(&sa.targets.all_target_cards),
            cards_of_option(sa.targets.target_spell_source),
        );
    }
    if text_eq(defined, "ParentTarget") || text_eq(defined, "ParentTargeted") {
        return cards_of_option(sa.parent_targeting_card);
    }
    if text_eq(defined, "TriggeredCard") || text_eq(defined, "TriggeredCardLKICopy") {
        return first_or(
            sa.get_triggering_cards(AbilityKey::Card),
            cards_of_option(sa.trigger_source),
        );
    }
    if text_eq(defined, "ReplacedCard") {
        return first_or(
            sa.get_triggering_cards(AbilityKey::ReplacedCard),
            sa.get_triggering_cards(AbilityKey::Card),
        );
    }
    if text_eq(defined, "TriggeredNewCard") || text_eq(defined, "TriggeredNewCardLKICopy") {
        return first_or(
            sa.get_triggering_cards(AbilityKey::NewCard),
            cards_of_option(sa.trigger_source),
        );
    }
    if text_eq(defined, "TriggeredAttacker") {
        return sa.get_triggering_cards(AbilityKey::Attacker);
    }
    if text_eq(defined, "TriggeredAttackers") {
        return sa.get_triggering_cards(AbilityKey::Attackers);
    }
    if text_eq(defined, "TriggeredBlocker") {
        return sa.get_triggering_cards(AbilityKey::Blocker);
    }
    if text_eq(defined, "TriggeredTarget") || text_eq(defined, "TriggeredTargetLKICopy")
        || text_eq(defined, "TriggeredTargets") {
        return first_or(
            sa.get_triggering_cards(AbilityKey::TargetCard),
            sa.get_triggering_cards(AbilityKey::Target),
        );
    }
    if text_eq(defined, "Explorer") {
        return sa.get_triggering_cards(AbilityKey::Explorer);
    }
    if text_eq(defined, "Explored") {
        return sa.get_triggering_cards(AbilityKey::Explored);
    }
    if text_eq(defined, "Discarded") {
        return copy_cards(&sa.discarded_cost_cards);
    }
    if text_eq(defined, "Sacrificed") {
        return cards_of_option(sacrificed_card(game, sa));
    }
    if text_eq(defined, "Remembered") {
        return remembered_of(game, source);
    }
    if text_eq(defined, "RememberedLKI") {
        return first_or(
            sa.get_triggering_cards(AbilityKey::RememberedLKI),
            remembered_of(game, source),
        );
    }
    if text_eq(defined, "DelayTriggerRememberedLKI") {
        return sa.get_triggering_cards(AbilityKey::RememberedLKI);
    }
    if text_eq(defined, "DelayTriggerRemembered") || text_eq(defined, "TriggerRemembered") {
        return cards_of_values(&sa.trigger_remembered);
    }
    if text_eq(defined, "Imprinted") {
        return match game.card(source) {
            Some(c) => copy_cards(&c.imprinted_cards),
            None => Vec::new(),
        };
    }
    game.facts.get_defined_cards(defined, source)
}

/// The cards among the values that a cost was paid with.
pub open spec fn paid_cards(game: GameState, values: Seq<String>) -> Seq<CardId>
    decreases values.len(),
{
    if values.len() == 0 {
        Seq::empty()
    } else {
        let before = paid_cards(game, values.drop_last());
        match card_written(without_prefix(values.last()@, "Card#"@)) {
            Some(id) if game.has_card(id) => before.push(id),
            _ => before,
        }
    }
}

pub fn cards_paid_with(game: &GameState, values: &Vec<String>) -> (r: Vec<CardId>)
    ensures
        r@ == paid_cards(*game, values@),
{
    let mut out: Vec<CardId> = Vec::new();
    let mut i: usize = 0;
    while i < values.len()
        invariant
            i <= values@.len(),
            out@ == paid_cards(*game, values@.take(i as int)),
        decreases values@.len() - i,
    {
        assert(values@.take(i + 1).drop_last() =~= values@.take(i as int));
        if let Some(id) = read_card(drop_prefix(values[i].as_str(), "Card#")) {
            if game.card(id).is_some() {
                out.push(id);
            }
        }
        i = i + 1;
    }
    assert(values@.take(i as int) =~= values@);
    out
}

} // verus!
