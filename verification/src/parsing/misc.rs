//! Small readings of script texts: multipliers, what auras enchant, and what is worth a warning.

use vstd::prelude::*;
use crate::game::{Card, Facts};
use crate::text::{
    after_mark, before_mark, has_part, has_prefix, lower_case, number_or, parse_or, push_text,
    split_once, split_or_all, starts_with, text_eq, trim, trimmed, unicode_to_lower,
};
use crate::types::ZoneType;

verus! {

/// A filter and the number behind `/Times.`, which is 1 where it is missing or no number.
pub open spec fn multiplied(s: Seq<char>) -> (Seq<char>, i32) {
    if has_part(s, "/Times."@) {
        (before_mark(s, "/Times."@), number_or(after_mark(s, "/Times."@), 1))
    } else {
        (s, 1)
    }
}

/// Cuts a `/Times.N` multiplier off a filter.
pub fn strip_times_multiplier<'a>(s: &'a str) -> (r: (&'a str, i32))
    ensures
        (r.0@, r.1) == multiplied(s@),
{
    match split_once(s, "/Times.") {
        Some((filter, n)) => (filter, parse_or(n, 1)),
        None => (s, 1),
    }
}

/// What an enchant keyword names, without the description behind a colon.
pub open spec fn enchanted_kind(enchant: Seq<char>) -> Seq<char> {
    trimmed(before_mark(enchant, ":"@))
}

fn normalize_enchant_type<'a>(enchant: &'a str) -> (r: &'a str)
    ensures
        r@ == enchanted_kind(enchant@),
{
    let (kind, _) = split_or_all(enchant, ":");
    trim(kind)
}

/// The target filter for what an aura enchants; a compound filter stands for itself.
pub open spec fn enchant_filter(kind: Seq<char>) -> Seq<char> {
    let lower = lower_case(kind);
    if lower == "creature"@ {
        "Creature"@
    } else if lower == "land"@ {
        "Land"@
    } else if lower == "artifact"@ {
        "Artifact"@
    } else if lower == "enchantment"@ {
        "Enchantment"@
    } else if lower == "planeswalker"@ {
        "Planeswalker"@
    } else if lower == "permanent"@ || lower == ""@ {
        "Permanent"@
    } else if lower == "player"@ {
        "Player"@
    } else if lower == "creature or player"@ {
        "Creature,Player"@
    } else {
        kind
    }
}

/// The target filter of an enchant keyword.
pub fn enchant_type_to_valid_tgts(enchant_type: &str) -> (r: String)
    ensures
        r@ == enchant_filter(trimmed(enchanted_kind(enchant_type@))),
{
    let kind = trim(normalize_enchant_type(enchant_type));
    let lowered = unicode_to_lower(kind);
    let lower = lowered.as_str();
    let text = if text_eq(lower, "creature") {
        "Creature"
    } else if text_eq(lower, "land") {
        "Land"
    } else if text_eq(lower, "artifact") {
        "Artifact"
    } else if text_eq(lower, "enchantment") {
        "Enchantment"
    } else if text_eq(lower, "planeswalker") {
        "Planeswalker"
    } else if text_eq(lower, "permanent") || text_eq(lower, "") {
        "Permanent"
    } else if text_eq(lower, "player") {
        "Player"
    } else if text_eq(lower, "creature or player") {
        "Creature,Player"
    } else {
        kind
    };
    text.to_string()
}

/// The targeting parameters of an enchant keyword.
pub open spec fn enchant_params(enchant: Seq<char>) -> Seq<char> {
    let kind = enchanted_kind(enchant);
    if lower_case(kind) == "creature.inzonegraveyard"@ {
        "Origin$ Graveyard | ValidTgts$ Creature"@
    } else {
        "ValidTgts$ "@ + enchant_filter(trimmed(enchanted_kind(kind)))
    }
}

/// Builds the targeting parameters of an enchant keyword.
pub fn enchant_type_to_target_params(enchant_type: &str) -> (r: String)
    ensures
        r@ == enchant_params(enchant_type@),
{
    let kind = normalize_enchant_type(enchant_type);
    let lowered = unicode_to_lower(kind);
    if text_eq(lowered.as_str(), "creature.inzonegraveyard") {
        return "Origin$ Graveyard | ValidTgts$ Creature".to_string();
    }
    let mut out = "ValidTgts$ ".to_string();
    let filter = enchant_type_to_valid_tgts(kind);
    push_text(&mut out, filter.as_str());
    out
}

/// Whether a card is what an aura enchants. A compound filter is a question of matching, seen from
/// the aura, or from the card itself where there is no aura.
pub open spec fn enchantable(
    facts: Facts,
    enchant: Seq<char>,
    card: Card,
    aura: Option<Card>,
) -> bool {
    let kind = trimmed(enchanted_kind(enchant));
    let lower = lower_case(kind);
    let in_play = card.zone == ZoneType::Battlefield;
    let source = match aura {
        Some(a) => a,
        None => card,
    };
    if lower == "creature"@ {
        in_play && card.types.creature
    } else if lower == "creature.inzonegraveyard"@ {
        card.zone == ZoneType::Graveyard && card.types.creature
    } else if lower == "land"@ {
        in_play && card.types.land
    } else if lower == "artifact"@ {
        in_play && card.types.artifact
    } else if lower == "enchantment"@ {
        in_play && card.types.enchantment
    } else if lower == "planeswalker"@ {
        in_play && card.types.planeswalker
    } else if lower == "permanent"@ || lower == ""@ {
        in_play
    } else {
        in_play && facts.matches_card(kind, source.id, source.controller, card.id)
    }
}

/// Checks whether a card is still what an aura enchants.
pub fn enchant_type_matches_card(
    facts: &Facts,
    enchant_type: &str,
    card: &Card,
    aura_source: Option<&Card>,
) -> (r: bool)
    ensures
        r == enchantable(
            *facts,
            enchant_type@,
            *card,
            match aura_source {
                Some(a) => Some(*a),
                None => None,
            },
        ),
{
    let kind = trim(normalize_enchant_type(enchant_type));
    let lowered = unicode_to_lower(kind);
    let lower = lowered.as_str();
    let in_play = card.zone == ZoneType::Battlefield;
    if text_eq(lower, "creature") {
        return in_play && card.types.creature;
    }
    if text_eq(lower, "creature.inzonegraveyard") {
        return card.zone == ZoneType::Graveyard && card.types.creature;
    }
    if text_eq(lower, "land") {
        return in_play && card.types.land;
    }
    if text_eq(lower, "artifact") {
        return in_play && card.types.artifact;
    }
    if text_eq(lower, "enchantment") {
        return in_play && card.types.enchantment;
    }
    if text_eq(lower, "planeswalker") {
        return in_play && card.types.planeswalker;
    }
    if text_eq(lower, "permanent") || text_eq(lower, "") {
        return in_play;
    }
    let source = match aura_source {
        Some(a) => a,
        None => card,
    };
    in_play && facts.card_matches_selector(kind, source.id, source.controller, card.id)
}

// ---- warnings ----

/// The first hundred characters of a text.
pub open spec fn preview(t: Seq<char>) -> Seq<char> {
    if t.len() <= 100 {
        t
    } else {
        t.take(100)
    }
}

/// What is said of a text that could not be read.
pub open spec fn parse_warning(kind: Seq<char>, raw: Seq<char>) -> Seq<char> {
    "[parse] failed to parse "@ + kind + " from: "@ + preview(trimmed(raw))
}

fn build_warning(kind: &str, raw: &str) -> (r: String)
    ensures
        r@ == parse_warning(kind@, raw@),
{
    let text = trim(raw);
    let n: usize = text.unicode_len();
    let shown = if n <= 100 {
        text
    } else {
        let cut = text.substring_char(0, 100);
        assert(cut@ =~= text@.take(100));
        cut
    };
    let mut out = "[parse] failed to parse ".to_string();
    push_text(&mut out, kind);
    push_text(&mut out, " from: ");
    push_text(&mut out, shown);
    out
}

/// Whether a text that yielded nothing was meant to be of a kind: its line starts with the
/// record's mark.
pub open spec fn meant_to_parse(kind: Seq<char>, raw: Seq<char>) -> bool {
    let t = trimmed(raw);
    if kind == "StaticAbility"@ {
        has_prefix(t, "S$"@) || has_prefix(t, "S:"@)
    } else if kind == "ReplacementEffect"@ {
        has_prefix(t, "R$"@) || has_prefix(t, "R:"@)
    } else if kind == "Trigger"@ {
        has_prefix(t, "T$"@) || has_prefix(t, "T:"@)
    } else if kind == "ActivatedAbility"@ {
        has_prefix(t, "AB$"@) || has_prefix(t, "AB:"@)
    } else {
        false
    }
}

fn was_meant_to_parse(kind: &str, raw: &str) -> (r: bool)
    ensures
        r == meant_to_parse(kind@, raw@),
{
    let t = trim(raw);
    if text_eq(kind, "StaticAbility") {
        starts_with(t, "S$") || starts_with(t, "S:")
    } else if text_eq(kind, "ReplacementEffect") {
        starts_with(t, "R$") || starts_with(t, "R:")
    } else if text_eq(kind, "Trigger") {
        starts_with(t, "T$") || starts_with(t, "T:")
    } else if text_eq(kind, "ActivatedAbility") {
        starts_with(t, "AB$") || starts_with(t, "AB:")
    } else {
        false
    }
}

/// Hands a result on, with the warning that its absence deserves.
pub fn parse_or_warn<T>(result: Option<T>, kind: &str, raw: &str) -> (r: (Option<T>, Option<String>))
    ensures
        r.0 == result,
        r.1 is Some == (result is None && meant_to_parse(kind@, raw@)),
        r.1 matches Some(w) ==> w@ == parse_warning(kind@, raw@),
{
    if result.is_none() && was_meant_to_parse(kind, raw) {
        let warning = build_warning(kind, raw);
        (result, Some(warning))
    } else {
        (result, None)
    }
}

/// Hands a result on, with a warning where there is none.
pub fn parse_classified_or_warn<T>(result: Option<T>, kind: &str, raw: &str) -> (r: (
    Option<T>,
    Option<String>,
))
    ensures
        r.0 == result,
        r.1 is Some == (result is None),
        r.1 matches Some(w) ==> w@ == parse_warning(kind@, raw@),
{
    if result.is_none() {
        let warning = build_warning(kind, raw);
        (result, Some(warning))
    } else {
        (result, None)
    }
}

} // verus!
