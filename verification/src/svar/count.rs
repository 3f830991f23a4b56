//! What a count expression asks for, before any further expression in it is evaluated.

use vstd::prelude::*;
use crate::mana::atoms::{atom_from_name, atom_named};
use crate::game::{svar_value, Card, GameState, Player};
use crate::svar::count_body::{body_plan, read_body_plan};
use crate::svar::defined::{
    all_chain_targets, distinct_cards, list_distinct_cards,
};
use crate::svar::facts::{
    cost_of_top, net_power, net_toughness, power_of_card, read_zones, top_cost, toughness_of_card,
    zones_listed,
};
use crate::svar::folds::{
    add_up, aggregated, attackers_of, cards_in_zones, cards_matching, count_valid_aggregate,
    greatest, list_attackers, list_cards_in_zones, matching, max_or, total,
};
use crate::svar::lists::{
    count_devotion, count_domain, count_symbols, devotion, domain, list_opponent_lives,
    list_sources_matching, longest_run, opponent_lives, runs, sources_matching, symbols_meeting,
};
use crate::svar::party::{count_party, party_size};
use crate::svar::scene::{
    is_triggered_by_zone_change, trigger_numbers, trigger_result_values, triggered_by_zone_change,
    Scene, SceneView,
};
use crate::text::{
    after_mark, before_mark, contains, cut_two_bytes, drop_prefix, ends_with, has_part, has_prefix, has_suffix,
    lowered, number_or, parse_or, parse_unsigned, pieces, split, split_once, split_or_all,
    starts_with, strip_prefix, strip_suffix, text_eq, to_lower, trim, trimmed, two_bytes,
    unicode_to_upper,
    unsigned_value, upper_case, views, without_prefix,
};
use crate::types::{AbilityKey, CardId, PlayerId, ZoneType};

verus! {

/// What is left to do for a count expression.
pub enum CountPlan {
    /// Count players.
    Players,
    /// Add up a property over cards, then apply operators.
    Cards { cards: Seq<CardId>, property: Seq<char>, operators: Seq<char> },
    /// Apply operators to a number.
    Number { value: i32, operators: Seq<char> },
    /// Evaluate an expression, then apply operators.
    Branch { text: Seq<char>, operators: Seq<char> },
    /// Read a numeric value.
    Numeric { text: Seq<char> },
    /// Evaluate one of two expressions, by whether a third one is a prime number.
    Prime { text: Seq<char>, yes: Seq<char>, no: Seq<char>, operators: Seq<char> },
    /// Evaluate one of two expressions, by how two others compare.
    Choice {
        left: Seq<char>,
        op: Seq<char>,
        right: Seq<char>,
        yes: Seq<char>,
        no: Seq<char>,
    },
}

/// A count plan over parts of the expression.
pub enum CountStep<'a> {
    Players,
    Cards { cards: Vec<CardId>, property: &'a str, operators: &'a str },
    Number { value: i32, operators: &'a str },
    Branch { text: &'a str, operators: &'a str },
    Numeric { text: &'a str },
    Prime { text: &'a str, yes: &'a str, no: &'a str, operators: &'a str },
    Choice { left: &'a str, op: &'a str, right: &'a str, yes: &'a str, no: &'a str },
}

impl<'a> CountStep<'a> {
    pub open spec fn plan(&self) -> CountPlan {
        match self {
            CountStep::Players => CountPlan::Players,
            CountStep::Cards { cards, property, operators } => CountPlan::Cards {
                cards: cards@,
                property: property@,
                operators: operators@,
            },
            CountStep::Number { value, operators } => CountPlan::Number {
                value: *value,
                operators: operators@,
            },
            CountStep::Branch { text, operators } => CountPlan::Branch {
                text: text@,
                operators: operators@,
            },
            CountStep::Numeric { text } => CountPlan::Numeric { text: text@ },
            CountStep::Prime { text, yes, no, operators } => CountPlan::Prime {
                text: text@,
                yes: yes@,
                no: no@,
                operators: operators@,
            },
            CountStep::Choice { left, op, right, yes, no } => CountPlan::Choice {
                left: left@,
                op: op@,
                right: right@,
                yes: yes@,
                no: no@,
            },
        }
    }
}

pub open spec fn plan_of(step: Option<CountStep>) -> Option<CountPlan> {
    match step {
        Some(p) => Some(p.plan()),
        None => None,
    }
}

/// A number as it is.
pub open spec fn plain(value: i32) -> Option<CountPlan> {
    Some(CountPlan::Number { value, operators: ""@ })
}

/// A number to which the operators behind a prefix and a slash apply.
pub open spec fn counted(value: i32, t: Seq<char>, prefix: Seq<char>) -> Option<CountPlan> {
    Some(
        CountPlan::Number {
            value,
            operators: without_prefix(t.skip(prefix.len() as int), "/"@),
        },
    )
}

pub fn number<'a>(value: i32, rest: &'a str) -> (r: Option<CountStep<'a>>)
    ensures
        plan_of(r) == Some(
            CountPlan::Number { value, operators: without_prefix(rest@, "/"@) },
        ),
{
    Some(CountStep::Number { value, operators: drop_prefix(rest, "/") })
}

pub fn exactly<'a>(value: i32) -> (r: Option<CountStep<'a>>)
    ensures
        plan_of(r) == plain(value),
{
    Some(CountStep::Number { value, operators: "" })
}

/// `A.B`: the first number where the condition holds (1 where it is none), else the second.
pub open spec fn either_number(holds: bool, rest: Seq<char>) -> Option<CountPlan> {
    if has_part(rest, "."@) {
        plain(
            if holds {
                number_or(before_mark(rest, "."@), 1)
            } else {
                number_or(after_mark(rest, "."@), 0)
            },
        )
    } else {
        None
    }
}

fn one_of_numbers<'a>(holds: bool, rest: &'a str) -> (r: Option<CountStep<'a>>)
    ensures
        plan_of(r) == either_number(holds, rest@),
{
    match split_once(rest, ".") {
        Some((yes, no)) => exactly(
            if holds {
                parse_or(yes, 1)
            } else {
                parse_or(no, 0)
            },
        ),
        None => None,
    }
}

/// `A.B`: the first expression where the condition holds, else the second.
pub open spec fn either_text(holds: bool, rest: Seq<char>) -> Option<CountPlan> {
    if has_part(rest, "."@) {
        Some(
            CountPlan::Branch {
                text: if holds {
                    before_mark(rest, "."@)
                } else {
                    after_mark(rest, "."@)
                },
                operators: ""@,
            },
        )
    } else {
        None
    }
}

fn one_of_texts<'a>(holds: bool, rest: &'a str) -> (r: Option<CountStep<'a>>)
    ensures
        plan_of(r) == either_text(holds, rest@),
{
    match split_once(rest, ".") {
        Some((yes, no)) => Some(
            CountStep::Branch {
                text: if holds {
                    yes
                } else {
                    no
                },
                operators: "",
            },
        ),
        None => None,
    }
}

// ---- what the expression itself says ----

/// X as it was paid for the spell, or as the card remembers it where it entered.
pub open spec fn x_paid(s: SceneView, host: Card) -> i32 {
    if s.sa.x_mana_cost_paid != 0 {
        s.sa.x_mana_cost_paid as i32
    } else if triggered_by_zone_change(s, ZoneType::Battlefield, true) || s.sa.etb {
        match svar_value(host.svars@, "XPaid"@) {
            Some(v) => number_or(v, 0),
            None => 0,
        }
    } else {
        0
    }
}

fn paid_x(s: Scene, host: &Card) -> (r: i32)
    ensures
        r == x_paid(s@, *host),
{
    if s.sa.x_mana_cost_paid != 0 {
        return s.sa.x_mana_cost_paid as i32;
    }
    if is_triggered_by_zone_change(s, ZoneType::Battlefield, true) || s.sa.etb {
        return match host.get_s_var("XPaid") {
            Some(v) => parse_or(v, 0),
            None => 0,
        };
    }
    0
}

/// `Adamant[_N].<Color>.<True>.<False>`: whether N mana of a colour were spent on the card, three
/// where there is no N.
pub open spec fn adamant(host: Card, rest: Seq<char>) -> Option<CountPlan> {
    let parts = pieces(rest, "."@);
    if parts.len() == 4 {
        let needed = if has_prefix(parts[0], "_"@) {
            match unsigned_value(parts[0].skip("_"@.len() as int), u64::MAX as int) {
                Some(n) => n,
                None => 3int,
            }
        } else {
            3int
        };
        let paid = symbols_meeting(host.paying_mana_to_cast@, atom_named(lowered(parts[1])));
        Some(CountPlan::Numeric { text: if paid >= needed { parts[2] } else { parts[3] } })
    } else {
        None
    }
}

fn read_adamant<'a>(host: &Card, rest: &'a str) -> (r: Option<CountStep<'a>>)
    ensures
        plan_of(r) == adamant(*host, rest@),
{
    proof {
        reveal_strlit(".");
    }
    let parts = split(rest, ".");
    let ghost shown = views(parts@);
    if parts.len() != 4 {
        return None;
    }
    assert(shown[0] == parts@[0]@ && shown[1] == parts@[1]@ && shown[2] == parts@[2]@ && shown[3]
        == parts@[3]@);
    let mut needed: u64 = 3;
    if let Some(n) = strip_prefix(parts[0], "_") {
        if let Some(k) = parse_unsigned(n, u64::MAX) {
            needed = k;
        }
    }
    let color = to_lower(parts[1]);
    let paid: usize = count_symbols(&host.paying_mana_to_cast, atom_from_name(color.as_str()));
    Some(
        CountStep::Numeric {
            text: if paid as u64 >= needed {
                parts[2]
            } else {
                parts[3]
            },
        },
    )
}

/// Counts of the ability and its card that stand at the front.
pub open spec fn early_plan(s: SceneView, host: Card, me: Player, t: Seq<char>) -> Option<CountPlan> {
    let targeted = without_prefix(t.skip("TargetedObjects"@.len() as int), "Distinct"@);
    if has_prefix(t, "TargetedObjects"@) && has_prefix(targeted, "$"@) {
        let distinct = has_prefix(t.skip("TargetedObjects"@.len() as int), "Distinct"@);
        let tail = targeted.skip("$"@.len() as int);
        Some(
            CountPlan::Cards {
                cards: if distinct {
                    distinct_cards(s.sa.chain_targets)
                } else {
                    s.sa.chain_targets
                },
                property: before_mark(tail, "/"@),
                operators: after_mark(tail, "/"@),
            },
        )
    } else if has_prefix(t, "Count$xPaid"@) {
        counted(x_paid(s, host), t, "Count$xPaid"@)
    } else if has_prefix(t, "Count$XPaid"@) {
        counted(x_paid(s, host), t, "Count$XPaid"@)
    } else if has_prefix(t, "Count$CastTotalManaSpent "@) {
        let rest = t.skip("Count$CastTotalManaSpent "@.len() as int);
        Some(
            CountPlan::Number {
                value: sources_matching(
                    s.game,
                    host.paying_sources_to_cast@,
                    pieces(before_mark(rest, "/"@), ","@),
                    s.source,
                    s.you,
                ).len() as i32,
                operators: after_mark(rest, "/"@),
            },
        )
    } else if has_prefix(t, "Count$CastTotalManaSpent"@) {
        counted(host.paying_mana_to_cast@.len() as i32, t, "Count$CastTotalManaSpent"@)
    } else if t == "Count$TriggerRememberAmount"@ {
        plain(s.sa.trigger_remembered_amount)
    } else if t == "Count$OptionalKeywordAmount"@ {
        plain(
            match host.cast_record {
                Some(cast) => total(cast.optional_keyword_amounts@),
                None => 0,
            },
        )
    } else if t == "Count$ChosenNumber"@ {
        plain(
            match host.chosen_number {
                Some(n) => n,
                None => 0,
            },
        )
    } else if t == "TriggerCount$Result"@ {
        plain(total(trigger_numbers(s.sa, AbilityKey::Result)))
    } else if t == "TriggerCountMax$Result"@ {
        plain(greatest(trigger_numbers(s.sa, AbilityKey::Result), 0))
    } else if t == "Count$Converge"@ || t == "Count$Sunburst"@ {
        plain(host.sunburst)
    } else if has_prefix(t, "Count$Adamant"@) && pieces(
        t.skip("Count$Adamant"@.len() as int),
        "."@,
    ).len() == 4 {
        adamant(host, t.skip("Count$Adamant"@.len() as int))
    } else if has_prefix(t, "Count$FinalChapterNr"@) {
        counted(host.final_chapter, t, "Count$FinalChapterNr"@)
    } else if t == "Count$YourSpeed"@ {
        plain(me.speed)
    } else if has_prefix(t, "Count$DomainActivePlayer"@) {
        counted(
            domain(s.game, s.game.in_zone(ZoneType::Battlefield, s.game.active_player)),
            t,
            "Count$DomainActivePlayer"@,
        )
    } else if has_prefix(t, "Count$Domain"@) {
        counted(
            domain(s.game, s.game.in_zone(ZoneType::Battlefield, s.you)),
            t,
            "Count$Domain"@,
        )
    } else if has_prefix(t, "Count$Party"@) {
        counted(
            party_size(s.game, s.game.in_zone(ZoneType::Battlefield, s.you)) as i32,
            t,
            "Count$Party"@,
        )
    } else if has_prefix(t, "Count$YourLifeTotal"@) {
        counted(me.life, t, "Count$YourLifeTotal"@)
    } else if has_prefix(t, "Count$YouDrewThisTurn"@) {
        counted(me.drawn_this_turn, t, "Count$YouDrewThisTurn"@)
    } else if has_prefix(t, "Count$OppGreatestLifeTotal"@) {
        counted(
            greatest(opponent_lives(s.game, s.game.living(), s.you), 0),
            t,
            "Count$OppGreatestLifeTotal"@,
        )
    } else {
        None
    }
}

fn read_early<'a>(s: Scene, host: &Card, me: &Player, t: &'a str) -> (r: Option<CountStep<'a>>)
    requires
        s.game.card_at(s.source) == Some(*host),
        s.game.player_at(s.you) == Some(*me),
    ensures
        plan_of(r) == early_plan(s@, *host, *me, t@),
{
    if let Some(rest) = strip_prefix(t, "TargetedObjects") {
        let distinct = starts_with(rest, "Distinct");
        if let Some(tail) = strip_prefix(drop_prefix(rest, "Distinct"), "$") {
            let (property, operators) = split_or_all(tail, "/");
            let all = all_chain_targets(s.sa);
            let cards = if distinct {
                list_distinct_cards(&all)
            } else {
                all
            };
            return Some(CountStep::Cards { cards, property, operators });
        }
    }
    if let Some(rest) = strip_prefix(t, "Count$xPaid") {
        return number(paid_x(s, host), rest);
    }
    if let Some(rest) = strip_prefix(t, "Count$XPaid") {
        return number(paid_x(s, host), rest);
    }
    if let Some(rest) = strip_prefix(t, "Count$CastTotalManaSpent ") {
        let (valid, operators) = split_or_all(rest, "/");
        proof {
            reveal_strlit(",");
        }
        let restrictions = split(valid, ",");
        let spent = list_sources_matching(
            s.game,
            &host.paying_sources_to_cast,
            &restrictions,
            s.source,
            s.you,
        );
        return Some(CountStep::Number { value: spent.len() as i32, operators });
    }
    if let Some(rest) = strip_prefix(t, "Count$CastTotalManaSpent") {
        return number(host.paying_mana_to_cast.len() as i32, rest);
    }
    if text_eq(t, "Count$TriggerRememberAmount") {
        return exactly(s.sa.trigger_remembered_amount);
    }
    if text_eq(t, "Count$OptionalKeywordAmount") {
        return exactly(
            match &host.cast_record {
                Some(cast) => add_up(&cast.optional_keyword_amounts),
                None => 0,
            },
        );
    }
    if text_eq(t, "Count$ChosenNumber") {
        return exactly(
            match host.chosen_number {
                Some(n) => n,
                None => 0,
            },
        );
    }
    if text_eq(t, "TriggerCount$Result") {
        return exactly(add_up(&trigger_result_values(s.sa, AbilityKey::Result)));
    }
    if text_eq(t, "TriggerCountMax$Result") {
        return exactly(max_or(&trigger_result_values(s.sa, AbilityKey::Result), 0));
    }
    if text_eq(t, "Count$Converge") || text_eq(t, "Count$Sunburst") {
        return exactly(host.sunburst);
    }
    if let Some(rest) = strip_prefix(t, "Count$Adamant") {
        if let Some(step) = read_adamant(host, rest) {
            return Some(step);
        }
    }
    if let Some(rest) = strip_prefix(t, "Count$FinalChapterNr") {
        return number(host.final_chapter, rest);
    }
    if text_eq(t, "Count$YourSpeed") {
        return exactly(me.speed);
    }
    if let Some(rest) = strip_prefix(t, "Count$DomainActivePlayer") {
        let lands = s.game.cards_in_zone(ZoneType::Battlefield, s.game.active_player);
        return number(count_domain(s.game, &lands), rest);
    }
    if let Some(rest) = strip_prefix(t, "Count$Domain") {
        let lands = s.game.cards_in_zone(ZoneType::Battlefield, s.you);
        return number(count_domain(s.game, &lands), rest);
    }
    if let Some(rest) = strip_prefix(t, "Count$Party") {
        let cards = s.game.cards_in_zone(ZoneType::Battlefield, s.you);
        return number(count_party(s.game, &cards), rest);
    }
    if let Some(rest) = strip_prefix(t, "Count$YourLifeTotal") {
        return number(me.life, rest);
    }
    if let Some(rest) = strip_prefix(t, "Count$YouDrewThisTurn") {
        return number(me.drawn_this_turn, rest);
    }
    if let Some(rest) = strip_prefix(t, "Count$OppGreatestLifeTotal") {
        let players = s.game.alive_players();
        let lives = list_opponent_lives(s.game, &players, s.you);
        return number(max_or(&lives, 0), rest);
    }
    None
}


/// Counts that choose by a condition, and counts of what was declared or kicked.
pub open spec fn choice_plan(s: SceneView, host: Card, me: Player, t: Seq<char>) -> Option<CountPlan> {
    let metalcraft = either_number(me.has_metalcraft, t.skip("Count$Metalcraft."@.len() as int));
    let max_speed = either_number(me.speed == 4, t.skip("Count$MaxSpeed."@.len() as int));
    let generic = either_number(
        s.sa.optional_generic_cost_paid,
        t.skip("Count$OptionalGenericCostPaid."@.len() as int),
    );
    let kicked = either_text(s.sa.kicked, t.skip("Count$Kicked."@.len() as int));
    let urza = either_text(me.has_urza_lands, t.skip("Count$UrzaLands."@.len() as int));
    let gift = either_number(host.promised_gift, t.skip("Count$PromisedGift."@.len() as int));
    if has_prefix(t, "Count$Metalcraft."@) && metalcraft is Some {
        metalcraft
    } else if has_prefix(t, "Count$MaxSpeed."@) && max_speed is Some {
        max_speed
    } else if t == "Count$AttackersDeclared"@ {
        plain(attackers_of(s.game.cards@, s.you).len() as i32)
    } else if t == "Count$TopOfLibraryCMC"@ {
        plain(top_cost(s.game, s.you))
    } else if has_prefix(t, "Count$OptionalGenericCostPaid."@) && generic is Some {
        generic
    } else if t == "Count$KickedCount"@ {
        plain(s.sa.kick_count as i32)
    } else if has_prefix(t, "Count$Kicked."@) && kicked is Some {
        kicked
    } else if has_prefix(t, "Count$UrzaLands."@) && urza is Some {
        urza
    } else if has_prefix(t, "Count$PromisedGift."@) && gift is Some {
        gift
    } else if t == "Count$PromisedGift"@ {
        plain(
            if host.promised_gift {
                1
            } else {
                0
            },
        )
    } else {
        None
    }
}

fn read_choice<'a>(s: Scene, host: &Card, me: &Player, t: &'a str) -> (r: Option<CountStep<'a>>)
    ensures
        plan_of(r) == choice_plan(s@, *host, *me, t@),
{
    if let Some(rest) = strip_prefix(t, "Count$Metalcraft.") {
        if let Some(step) = one_of_numbers(me.has_metalcraft, rest) {
            return Some(step);
        }
    }
    if let Some(rest) = strip_prefix(t, "Count$MaxSpeed.") {
        if let Some(step) = one_of_numbers(me.speed == 4, rest) {
            return Some(step);
        }
    }
    if text_eq(t, "Count$AttackersDeclared") {
        return exactly(list_attackers(s.game, s.you).len() as i32);
    }
    if text_eq(t, "Count$TopOfLibraryCMC") {
        return exactly(cost_of_top(s.game, s.you));
    }
    if let Some(rest) = strip_prefix(t, "Count$OptionalGenericCostPaid.") {
        if let Some(step) = one_of_numbers(s.sa.optional_generic_cost_paid, rest) {
            return Some(step);
        }
    }
    if text_eq(t, "Count$KickedCount") {
        return exactly(s.sa.kick_count as i32);
    }
    if let Some(rest) = strip_prefix(t, "Count$Kicked.") {
        if let Some(step) = one_of_texts(s.sa.kicked, rest) {
            return Some(step);
        }
    }
    if let Some(rest) = strip_prefix(t, "Count$UrzaLands.") {
        if let Some(step) = one_of_texts(me.has_urza_lands, rest) {
            return Some(step);
        }
    }
    if let Some(rest) = strip_prefix(t, "Count$PromisedGift.") {
        if let Some(step) = one_of_numbers(host.promised_gift, rest) {
            return Some(step);
        }
    }
    if text_eq(t, "Count$PromisedGift") {
        return exactly(
            if host.promised_gift {
                1
            } else {
                0
            },
        );
    }
    None
}

// ---- cards that match ----

/// The zone part of `Count$Valid<Zones> <restrictions>`.
pub open spec fn zone_part(rest: Seq<char>) -> Seq<char> {
    if has_prefix(rest, " "@) {
        ""@
    } else {
        trimmed(before_mark(rest, " "@))
    }
}

/// The restrictions, with what is to be done with the cards behind a dollar.
pub open spec fn restriction_part(rest: Seq<char>) -> Seq<char> {
    if has_prefix(rest, " "@) {
        trimmed(rest.skip(" "@.len() as int))
    } else {
        trimmed(after_mark(rest, " "@))
    }
}

/// The cards that `Count$Valid` looks at: the source alone, or everything in the zones.
pub open spec fn valid_scope(s: SceneView, zones: Seq<char>) -> Option<Seq<CardId>> {
    if has_suffix(zones, "Self"@) {
        Some(seq![s.source])
    } else if zones.len() == 0 {
        Some(cards_in_zones(s.game.cards@, seq![ZoneType::Battlefield]))
    } else if zones_listed(zones).len() > 0 {
        Some(cards_in_zones(s.game.cards@, zones_listed(zones)))
    } else {
        None
    }
}

/// `Count$Valid<Zones> <restrictions>[$<what>][/<operators>]`.
pub open spec fn valid_plan(s: SceneView, t: Seq<char>) -> Option<CountPlan> {
    let rest = before_mark(t.skip("Count$Valid"@.len() as int), "/"@);
    let restrictions = before_mark(restriction_part(rest), "$"@);
    match valid_scope(s, zone_part(rest)) {
        Some(ids) if has_prefix(t, "Count$Valid"@) && restrictions.len() > 0 => Some(
            CountPlan::Number {
                value: aggregated(
                    s.game,
                    matching(s.game, ids, restrictions, s.source, s.you),
                    after_mark(restriction_part(rest), "$"@),
                ),
                operators: after_mark(t.skip("Count$Valid"@.len() as int), "/"@),
            },
        ),
        _ => None,
    }
}

fn read_valid_scope(s: Scene, zones: &str) -> (r: Option<Vec<CardId>>)
    ensures
        r is Some == valid_scope(s@, zones@) is Some,
        r matches Some(v) ==> valid_scope(s@, zones@) == Some(v@),
{
    if ends_with(zones, "Self") {
        let mut only: Vec<CardId> = Vec::new();
        only.push(s.source);
        assert(only@ =~= seq![s.source]);
        return Some(only);
    }
    if zones.unicode_len() == 0 {
        let mut field: Vec<ZoneType> = Vec::new();
        field.push(ZoneType::Battlefield);
        assert(field@ =~= seq![ZoneType::Battlefield]);
        return Some(list_cards_in_zones(s.game, &field));
    }
    let listed = read_zones(zones);
    if listed.len() > 0 {
        Some(list_cards_in_zones(s.game, &listed))
    } else {
        None
    }
}

fn read_valid<'a>(s: Scene, t: &'a str) -> (r: Option<CountStep<'a>>)
    ensures
        plan_of(r) == valid_plan(s@, t@),
{
    if let Some(all) = strip_prefix(t, "Count$Valid") {
        let (rest, operators) = split_or_all(all, "/");
        let (zones, restrictions) = match strip_prefix(rest, " ") {
            Some(restrictions) => ("", trim(restrictions)),
            None => {
                let (head, tail) = split_or_all(rest, " ");
                (trim(head), trim(tail))
            },
        };
        let (restrictions, what) = split_or_all(restrictions, "$");
        if restrictions.unicode_len() > 0 {
            if let Some(ids) = read_valid_scope(s, zones) {
                let found = cards_matching(s.game, &ids, restrictions, s.source, s.you);
                return Some(
                    CountStep::Number {
                        value: count_valid_aggregate(s.game, &found, what),
                        operators,
                    },
                );
            }
        }
    }
    None
}

/// The first opponent in turn order.
pub open spec fn first_opponent(
    game: GameState,
    order: Seq<PlayerId>,
    you: PlayerId,
) -> Option<PlayerId>
    decreases order.len(),
{
    if order.len() == 0 {
        None
    } else if game.are_opponents(you, order[0]) {
        Some(order[0])
    } else {
        first_opponent(game, order.skip(1), you)
    }
}

pub fn find_first_opponent(game: &GameState, you: PlayerId) -> (r: Option<PlayerId>)
    ensures
        r == first_opponent(*game, game.player_order@, you),
{
    let ghost order = game.player_order@;
    let mut i: usize = 0;
    assert(order.skip(0) =~= order);
    while i < game.player_order.len()
        invariant
            i <= order.len(),
            order == game.player_order@,
            first_opponent(*game, order, you) == first_opponent(*game, order.skip(i as int), you),
        decreases order.len() - i,
    {
        assert(order.skip(i as int).skip(1) =~= order.skip(i + 1));
        if game.is_opponent_of(you, game.player_order[i]) {
            return Some(game.player_order[i]);
        }
        i = i + 1;
    }
    None
}

/// A text without any of the suffixes at its end.
pub open spec fn without_suffixes(text: Seq<char>, suffix: Seq<char>) -> Seq<char>
    decreases text.len(),
{
    if suffix.len() > 0 && has_suffix(text, suffix) {
        without_suffixes(text.take(text.len() - suffix.len()), suffix)
    } else {
        text
    }
}

fn drop_suffixes<'a>(text: &'a str, suffix: &str) -> (r: &'a str)
    requires
        suffix@.len() > 0,
    ensures
        r@ == without_suffixes(text@, suffix@),
{
    let mut rest: &'a str = text;
    loop
        invariant
            suffix@.len() > 0,
            without_suffixes(rest@, suffix@) == without_suffixes(text@, suffix@),
        decreases rest@.len(),
    {
        match strip_suffix(rest, suffix) {
            Some(shorter) => {
                rest = shorter;
            },
            None => {
                return rest;
            },
        }
    }
}

/// The battlefields of a player and, unless the filter says whose cards they are, of the first
/// opponent.
pub open spec fn both_battlefields(s: SceneView, filter: Seq<char>) -> Seq<CardId> {
    let mine = s.game.in_zone(ZoneType::Battlefield, s.you);
    if has_part(filter, "YouCtrl"@) || has_part(filter, "YouControl"@) {
        mine
    } else {
        match first_opponent(s.game, s.game.player_order@, s.you) {
            Some(p) => mine + s.game.in_zone(ZoneType::Battlefield, p),
            None => mine,
        }
    }
}

pub open spec fn at_least_zero(n: i32) -> i32 {
    if n < 0 {
        0
    } else {
        n
    }
}

/// `Count$Valid <filter>` where the restrictions are empty.
pub open spec fn bare_valid_plan(s: SceneView, t: Seq<char>) -> Option<CountPlan> {
    if has_prefix(t, "Count$Valid "@) {
        let rest = t.skip("Count$Valid "@.len() as int);
        let cut = before_mark(rest, "/"@);
        let strongest = has_suffix(cut, "$GreatestCardPower"@);
        let named = if strongest {
            cut.take(cut.len() - "$GreatestCardPower"@.len())
        } else {
            cut
        };
        let colors = has_suffix(named, "$Colors"@);
        let filter = if colors {
            without_suffixes(named, "$Colors"@)
        } else {
            named
        };
        let found = matching(
            s.game,
            both_battlefields(s, filter),
            filter,
            s.source,
            s.you,
        );
        Some(
            CountPlan::Number {
                value: if strongest {
                    at_least_zero(aggregated(s.game, found, "GreatestCardPower"@))
                } else if colors {
                    aggregated(s.game, found, "Colors"@)
                } else {
                    found.len() as i32
                },
                operators: after_mark(rest, "/"@),
            },
        )
    } else {
        None
    }
}


fn read_bare_valid<'a>(s: Scene, t: &'a str) -> (r: Option<CountStep<'a>>)
    ensures
        plan_of(r) == bare_valid_plan(s@, t@),
{
    if let Some(rest) = strip_prefix(t, "Count$Valid ") {
        let (cut, operators) = split_or_all(rest, "/");
        let (named, strongest) = match strip_suffix(cut, "$GreatestCardPower") {
            Some(base) => (base, true),
            None => (cut, false),
        };
        let colors = ends_with(named, "$Colors");
        proof {
            reveal_strlit("$Colors");
        }
        let filter = if colors {
            drop_suffixes(named, "$Colors")
        } else {
            named
        };
        let mut ids = s.game.cards_in_zone(ZoneType::Battlefield, s.you);
        if !(contains(filter, "YouCtrl") || contains(filter, "YouControl")) {
            if let Some(p) = find_first_opponent(s.game, s.you) {
                let theirs = s.game.cards_in_zone(ZoneType::Battlefield, p);
                crate::lists::extend_cards(&mut ids, &theirs);
            }
        }
        let found = cards_matching(s.game, &ids, filter, s.source, s.you);
        let value: i32 = if strongest {
            let g: i32 = count_valid_aggregate(s.game, &found, "GreatestCardPower");
            if g < 0 {
                0
            } else {
                g
            }
        } else if colors {
            count_valid_aggregate(s.game, &found, "Colors")
        } else {
            found.len() as i32
        };
        return Some(CountStep::Number { value, operators });
    }
    None
}

// ---- the card and its past ----

/// The mana atom of a colour name or letter in upper case.
pub open spec fn devotion_atom(name: Seq<char>) -> u16 {
    if name == "W"@ || name == "WHITE"@ {
        1
    } else if name == "U"@ || name == "BLUE"@ {
        2
    } else if name == "B"@ || name == "BLACK"@ {
        4
    } else if name == "R"@ || name == "RED"@ {
        8
    } else if name == "G"@ || name == "GREEN"@ {
        16
    } else {
        0
    }
}

fn read_devotion_atom(name: &str) -> (r: u16)
    ensures
        r == devotion_atom(name@),
{
    if text_eq(name, "W") || text_eq(name, "WHITE") {
        1
    } else if text_eq(name, "U") || text_eq(name, "BLUE") {
        2
    } else if text_eq(name, "B") || text_eq(name, "BLACK") {
        4
    } else if text_eq(name, "R") || text_eq(name, "RED") {
        8
    } else if text_eq(name, "G") || text_eq(name, "GREEN") {
        16
    } else {
        0
    }
}

/// `Compare <left> <op><right>.<yes>.<no>`.
pub open spec fn compare_plan(rest: Seq<char>) -> Option<CountPlan> {
    let conditions = after_mark(rest, " "@);
    let outcomes = after_mark(conditions, "."@);
    if has_part(rest, " "@) && has_part(conditions, "."@) && has_part(outcomes, "."@) {
        let condition = before_mark(conditions, "."@);
        let cut = operator_cut(condition);
        Some(
            CountPlan::Choice {
                left: before_mark(rest, " "@),
                op: condition.take(cut),
                right: condition.skip(cut),
                yes: before_mark(outcomes, "."@),
                no: after_mark(outcomes, "."@),
            },
        )
    } else {
        None
    }
}

/// Where the operator of a condition ends: behind two bytes, or with the text where it is shorter.
pub open spec fn operator_cut(condition: Seq<char>) -> int {
    match two_bytes(condition) {
        Some(k) => k,
        None => if condition.len() < 2 {
            condition.len() as int
        } else {
            2
        },
    }
}

/// The operator of a condition, and what stands behind it.
pub fn cut_operator<'a>(condition: &'a str) -> (r: (&'a str, &'a str))
    ensures
        r.0@ == condition@.take(operator_cut(condition@)),
        r.1@ == condition@.skip(operator_cut(condition@)),
{
    if let Some(ends) = cut_two_bytes(condition) {
        return ends;
    }
    let n: usize = condition.unicode_len();
    let cut: usize = if n < 2 { n } else { 2 };
    let a = condition.substring_char(0, cut);
    let b = condition.substring_char(cut, n);
    assert(a@ =~= condition@.take(cut as int));
    assert(b@ =~= condition@.skip(cut as int));
    (a, b)
}

fn read_compare<'a>(rest: &'a str) -> (r: Option<CountStep<'a>>)
    ensures
        plan_of(r) == compare_plan(rest@),
{
    if let Some((left, conditions)) = split_once(rest, " ") {
        if let Some((condition, outcomes)) = split_once(conditions, ".") {
            if let Some((yes, no)) = split_once(outcomes, ".") {
                let (op, right) = cut_operator(condition);
                return Some(CountStep::Choice { left, op, right, yes, no });
            }
        }
    }
    None
}

pub open spec fn your_zone(name: Seq<char>) -> Option<ZoneType> {
    if name == "Hand"@ {
        Some(ZoneType::Hand)
    } else if name == "Yard"@ || name == "Graveyard"@ {
        Some(ZoneType::Graveyard)
    } else if name == "Library"@ {
        Some(ZoneType::Library)
    } else if name == "Exile"@ {
        Some(ZoneType::Exile)
    } else if name == "Battlefield"@ {
        Some(ZoneType::Battlefield)
    } else {
        None
    }
}

fn read_your_zone(name: &str) -> (r: Option<ZoneType>)
    ensures
        r == your_zone(name@),
{
    if text_eq(name, "Hand") {
        Some(ZoneType::Hand)
    } else if text_eq(name, "Yard") || text_eq(name, "Graveyard") {
        Some(ZoneType::Graveyard)
    } else if text_eq(name, "Library") {
        Some(ZoneType::Library)
    } else if text_eq(name, "Exile") {
        Some(ZoneType::Exile)
    } else if text_eq(name, "Battlefield") {
        Some(ZoneType::Battlefield)
    } else {
        None
    }
}

/// The counters that count for a card: those that it had, once it has left.
pub open spec fn counters_seen(s: SceneView, host: Card) -> Seq<crate::game::Counter> {
    if host.zone != ZoneType::Battlefield || triggered_by_zone_change(
        s,
        ZoneType::Battlefield,
        false,
    ) {
        match host.lki_counters {
            Some(v) => v@,
            None => host.counters@,
        }
    } else {
        host.counters@
    }
}

pub open spec fn counters_named(counters: Seq<crate::game::Counter>, kind: Seq<char>) -> i32 {
    if kind == "ALL"@ {
        crate::game::all_counters(counters)
    } else {
        crate::game::counters_of(counters, kind)
    }
}

fn count_counters_seen(s: Scene, host: &Card, kind: &str) -> (r: i32)
    ensures
        r == counters_named(counters_seen(s@, *host), kind@),
{
    let mut seen = &host.counters;
    if host.zone != ZoneType::Battlefield || is_triggered_by_zone_change(
        s,
        ZoneType::Battlefield,
        false,
    ) {
        if let Some(v) = &host.lki_counters {
            seen = v;
        }
    }
    if text_eq(kind, "ALL") {
        crate::game::count_all(seen)
    } else {
        crate::game::count_of_kind(seen, kind)
    }
}

/// How much a card remembers: cards, players and numbers.
pub open spec fn remembered_size(host: Card) -> i32 {
    (host.remembered_cards@.len() as i32).wrapping_add(
        host.remembered_players@.len() as i32,
    ).wrapping_add(host.remembered_numbers@.len() as i32).wrapping_add(
        host.remembered_counters@.len() as i32,
    )
}

/// Counts of the card that holds the expression.
pub open spec fn card_plan(s: SceneView, host: Card, me: Player, t: Seq<char>) -> Option<CountPlan> {
    let color = devotion_atom(upper_case(t.skip("Count$Devotion."@.len() as int)));
    let choice = compare_plan(t.skip("Count$Compare "@.len() as int));
    let zone = if has_prefix(t, "Count$CardsInYour"@) {
        your_zone(t.skip("Count$CardsInYour"@.len() as int))
    } else if has_prefix(t, "Count$InYour"@) {
        your_zone(t.skip("Count$InYour"@.len() as int))
    } else {
        None
    };
    if has_prefix(t, "Count$Devotion."@) && color != 0 {
        plain(devotion(s.game, s.game.in_zone(ZoneType::Battlefield, s.you), color))
    } else if has_prefix(t, "Count$Compare "@) && choice is Some {
        choice
    } else if has_prefix(t, "Count$ColorsColorIdentity"@) {
        counted(
            match s.game.player_at(host.controller) {
                Some(p) => p.commander_colors@.len() as i32,
                None => 0,
            },
            t,
            "Count$ColorsColorIdentity"@,
        )
    } else if t == "Count$CardPower"@ {
        plain(net_power(host))
    } else if t == "Count$CardToughness"@ {
        plain(net_toughness(host))
    } else if has_prefix(t, "Count$YourTurns"@) {
        counted(me.turns_played, t, "Count$YourTurns"@)
    } else if has_prefix(t, "Count$CardCounters."@) {
        let rest = t.skip("Count$CardCounters."@.len() as int);
        Some(
            CountPlan::Number {
                value: counters_named(counters_seen(s, host), before_mark(rest, "/"@)),
                operators: after_mark(rest, "/"@),
            },
        )
    } else if t == "Count$TotalDamageDoneByThisTurn"@ {
        plain(host.total_damage_done_this_turn)
    } else if let Some(z) = zone {
        plain(s.game.in_zone(z, s.you).len() as i32)
    } else if has_prefix(t, "Count$MaxSameStoredRolls"@) {
        counted(runs(host.stored_rolls@).0 as i32, t, "Count$MaxSameStoredRolls"@)
    } else if has_prefix(t, "Count$RememberedNumber"@) {
        counted(total(host.remembered_numbers@), t, "Count$RememberedNumber"@)
    } else if has_prefix(t, "Count$RememberedSize"@) {
        counted(remembered_size(host), t, "Count$RememberedSize"@)
    } else {
        None
    }
}

fn read_card_plan<'a>(s: Scene, host: &Card, me: &Player, t: &'a str) -> (r: Option<CountStep<'a>>)
    ensures
        plan_of(r) == card_plan(s@, *host, *me, t@),
{
    if let Some(name) = strip_prefix(t, "Count$Devotion.") {
        let upper = unicode_to_upper(name);
        let color: u16 = read_devotion_atom(upper.as_str());
        if color != 0 {
            let ids = s.game.cards_in_zone(ZoneType::Battlefield, s.you);
            return exactly(count_devotion(s.game, &ids, color));
        }
    }
    if let Some(rest) = strip_prefix(t, "Count$Compare ") {
        if let Some(step) = read_compare(rest) {
            return Some(step);
        }
    }
    if let Some(rest) = strip_prefix(t, "Count$ColorsColorIdentity") {
        let n: i32 = match s.game.player(host.controller) {
            Some(p) => p.commander_colors.len() as i32,
            None => 0,
        };
        return number(n, rest);
    }
    if text_eq(t, "Count$CardPower") {
        return exactly(power_of_card(host));
    }
    if text_eq(t, "Count$CardToughness") {
        return exactly(toughness_of_card(host));
    }
    if let Some(rest) = strip_prefix(t, "Count$YourTurns") {
        return number(me.turns_played, rest);
    }
    if let Some(rest) = strip_prefix(t, "Count$CardCounters.") {
        let (kind, operators) = split_or_all(rest, "/");
        return Some(CountStep::Number { value: count_counters_seen(s, host, kind), operators });
    }
    if text_eq(t, "Count$TotalDamageDoneByThisTurn") {
        return exactly(host.total_damage_done_this_turn);
    }
    let zone = match strip_prefix(t, "Count$CardsInYour") {
        Some(name) => read_your_zone(name),
        None => match strip_prefix(t, "Count$InYour") {
            Some(name) => read_your_zone(name),
            None => None,
        },
    };
    if let Some(z) = zone {
        return exactly(s.game.cards_in_zone(z, s.you).len() as i32);
    }
    if let Some(rest) = strip_prefix(t, "Count$MaxSameStoredRolls") {
        return number(longest_run(&host.stored_rolls) as i32, rest);
    }
    if let Some(rest) = strip_prefix(t, "Count$RememberedNumber") {
        return number(add_up(&host.remembered_numbers), rest);
    }
    if let Some(rest) = strip_prefix(t, "Count$RememberedSize") {
        let n: i32 = (host.remembered_cards.len() as i32).wrapping_add(
            host.remembered_players.len() as i32,
        ).wrapping_add(host.remembered_numbers.len() as i32).wrapping_add(
            host.remembered_counters.len() as i32,
        );
        return number(n, rest);
    }
    None
}


/// What a count expression asks for. Nothing is counted for a card or player that is not there,
/// and a text that is no count is read as a number.
pub open spec fn count_plan(s: SceneView, t: Seq<char>) -> CountPlan {
    if has_prefix(t, "PlayerCount"@) {
        CountPlan::Players
    } else {
        match (s.game.card_at(s.source), s.game.player_at(s.you)) {
            (Some(host), Some(me)) => if let Some(p) = early_plan(s, host, me, t) {
                p
            } else if let Some(p) = choice_plan(s, host, me, t) {
                p
            } else if let Some(p) = valid_plan(s, t) {
                p
            } else if let Some(p) = bare_valid_plan(s, t) {
                p
            } else if let Some(p) = card_plan(s, host, me, t) {
                p
            } else if has_prefix(t, "Count$"@) && body_plan(
                s,
                host,
                me,
                t.skip("Count$"@.len() as int),
            ) is Some {
                body_plan(s, host, me, t.skip("Count$"@.len() as int))->0
            } else {
                CountPlan::Number { value: number_or(t, 0), operators: ""@ }
            },
            _ => CountPlan::Number { value: 0, operators: ""@ },
        }
    }
}

pub fn read_count<'a>(s: Scene, t: &'a str) -> (r: CountStep<'a>)
    ensures
        r.plan() == count_plan(s@, t@),
{
    if starts_with(t, "PlayerCount") {
        return CountStep::Players;
    }
    match (s.game.card(s.source), s.game.player(s.you)) {
        (Some(host), Some(me)) => {
            if let Some(step) = read_early(s, host, me, t) {
                return step;
            }
            if let Some(step) = read_choice(s, host, me, t) {
                return step;
            }
            if let Some(step) = read_valid(s, t) {
                return step;
            }
            if let Some(step) = read_bare_valid(s, t) {
                return step;
            }
            if let Some(step) = read_card_plan(s, host, me, t) {
                return step;
            }
            if let Some(body) = strip_prefix(t, "Count$") {
                if let Some(step) = read_body_plan(s, host, me, body) {
                    return step;
                }
            }
            CountStep::Number { value: parse_or(t, 0), operators: "" }
        },
        _ => CountStep::Number { value: 0, operators: "" },
    }
}

} // verus!
