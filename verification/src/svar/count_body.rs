//! Counts that read the first word behind `Count$`.

use vstd::prelude::*;
use crate::game::{Card, PhaseType, Player};
use crate::lists::copy_cards;
use crate::spell::{find_number, number_under};
use crate::svar::count::{plan_of, CountPlan, CountStep};
use crate::svar::folds::{
    add_up, aggregated, attackers_of, cards_in_zones, cards_matching, count_valid_aggregate,
    greatest, list_attackers, list_cards_in_zones, matching, total,
};
use crate::svar::lists::{
    combat_damages, count_counter_kinds, count_most_prominent_type, count_unlocked_doors,
    counter_kinds, entered, greatest_combat_damage, list_entered, list_opponent_losses,
    most_prominent_type, opponent_losses, unlocked_doors,
};
use crate::svar::scene::{Scene, SceneView};
use crate::text::{
    after_mark, before_mark, contains, drop_prefix, ends_with, has_part, has_prefix, has_suffix,
    number_or, parse_or, piece_at_or, piece_or, pieces, pieces_up_to, split, split_or_all,
    split_up_to, starts_with, strip_prefix, text_eq, views, without_prefix,
};
use crate::types::{zone_named, CardId, OptionalCost, ZoneType};

verus! {

/// The first word, its branches and the operators of a count.
pub struct Body<'a> {
    pub whole: &'a str,
    pub head: &'a str,
    pub yes: &'a str,
    pub no: &'a str,
    pub operators: &'a str,
}

/// The text before the operators.
pub open spec fn whole_of(body: Seq<char>) -> Seq<char> {
    before_mark(body, "/"@)
}

/// The word before the first dot.
pub open spec fn head_of(body: Seq<char>) -> Seq<char> {
    pieces(whole_of(body), "."@)[0]
}

/// The branch that a condition selects; `0` where it is not written.
pub open spec fn branch_of(body: Seq<char>, holds: bool) -> Seq<char> {
    piece_or(pieces(whole_of(body), "."@), if holds { 1 } else { 2 }, "0"@)
}

pub open spec fn operators_of(body: Seq<char>) -> Seq<char> {
    after_mark(body, "/"@)
}

impl<'a> Body<'a> {
    pub open spec fn reads(&self, body: Seq<char>) -> bool {
        &&& self.whole@ == whole_of(body)
        &&& self.head@ == head_of(body)
        &&& self.yes@ == branch_of(body, true)
        &&& self.no@ == branch_of(body, false)
        &&& self.operators@ == operators_of(body)
    }

    fn value(&self, value: i32, Ghost(body): Ghost<Seq<char>>) -> (r: Option<CountStep<'a>>)
        requires
            self.reads(body),
        ensures
            plan_of(r) == number_plan(body, value),
    {
        Some(CountStep::Number { value, operators: self.operators })
    }

    fn branch(&self, holds: bool, Ghost(body): Ghost<Seq<char>>) -> (r: Option<CountStep<'a>>)
        requires
            self.reads(body),
        ensures
            plan_of(r) == branch_plan(body, holds),
    {
        Some(
            CountStep::Branch {
                text: if holds {
                    self.yes
                } else {
                    self.no
                },
                operators: self.operators,
            },
        )
    }
}

pub fn read_body<'a>(body: &'a str) -> (r: Body<'a>)
    ensures
        r.reads(body@),
{
    proof {
        reveal_strlit(".");
    }
    let (whole, operators) = split_or_all(body, "/");
    let parts = split(whole, ".");
    assert(views(parts@)[0] == parts@[0]@);
    Body {
        whole,
        head: parts[0],
        yes: piece_at_or(&parts, 1, "0"),
        no: piece_at_or(&parts, 2, "0"),
        operators,
    }
}

pub open spec fn number_plan(body: Seq<char>, value: i32) -> Option<CountPlan> {
    Some(CountPlan::Number { value, operators: operators_of(body) })
}

pub open spec fn branch_plan(body: Seq<char>, holds: bool) -> Option<CountPlan> {
    Some(CountPlan::Branch { text: branch_of(body, holds), operators: operators_of(body) })
}

/// How often a spell was kicked.
pub open spec fn times_kicked(s: SceneView, host: Card) -> i32 {
    if s.sa.unlinked_from_cast {
        0
    } else {
        match host.cast_record {
            None => 0,
            Some(cast) => if cast.kick_count > 0 {
                cast.kick_count as i32
            } else if cast.kicker1 && cast.kicker2 {
                2
            } else if cast.kicker1 || cast.kicker2 {
                1
            } else {
                0
            },
        }
    }
}

fn count_times_kicked(s: Scene, host: &Card) -> (r: i32)
    ensures
        r == times_kicked(s@, *host),
{
    if s.sa.unlinked_from_cast {
        return 0;
    }
    match &host.cast_record {
        None => 0,
        Some(cast) => {
            if cast.kick_count > 0 {
                cast.kick_count as i32
            } else if cast.kicker1 && cast.kicker2 {
                2
            } else if cast.kicker1 || cast.kicker2 {
                1
            } else {
                0
            }
        },
    }
}

/// Whether the card was cast from the zone that `wasCastFrom[Your]<Zone>[ByYou]` names.
pub open spec fn was_cast_from(s: SceneView, host: Card, head: Seq<char>) -> bool {
    let yours = has_part(head, "Your"@);
    let by_you = has_part(head, "ByYou"@);
    let rest = head.skip("wasCastFrom"@.len() as int);
    let zone = if yours {
        without_prefix(rest, "Your"@)
    } else {
        rest
    };
    let zone = if by_you {
        before_mark(zone, "ByYou"@)
    } else {
        zone
    };
    &&& host.cast_from is Some
    &&& host.cast_from == zone_named(zone)
    &&& by_you ==> (host.cast_record is Some && host.cast_record->0.activating_player == s.you)
    &&& yours ==> host.owner == s.you
}

fn check_was_cast_from(s: Scene, host: &Card, head: &str, rest: &str) -> (r: bool)
    requires
        rest@ == head@.skip("wasCastFrom"@.len() as int),
    ensures
        r == was_cast_from(s@, *host, head@),
{
    let yours = contains(head, "Your");
    let by_you = contains(head, "ByYou");
    let mut zone = rest;
    if yours {
        zone = drop_prefix(zone, "Your");
    }
    if by_you {
        let (before, _) = split_or_all(zone, "ByYou");
        zone = before;
    }
    let named = ZoneType::from_str_compat(zone);
    let zones_match = match (host.cast_from, named) {
        (Some(a), Some(b)) => a == b,
        _ => false,
    };
    let caster = match &host.cast_record {
        Some(cast) => cast.activating_player == s.you,
        None => false,
    };
    zones_match && (!by_you || caster) && (!yours || host.owner == s.you)
}

pub open spec fn is_main(phase: PhaseType) -> bool {
    phase == PhaseType::Main1 || phase == PhaseType::Main2
}

pub open spec fn one_if(b: bool) -> i32 {
    if b {
        1
    } else {
        0
    }
}

/// Counts of life, damage and branches.
pub open spec fn turn_plan(s: SceneView, host: Card, me: Player, body: Seq<char>) -> Option<CountPlan> {
    let head = head_of(body);
    let words = pieces(whole_of(body), " "@);
    if has_prefix(head, "IsPrime"@) {
        Some(
            CountPlan::Prime {
                text: piece_or(pieces(head, " "@), 1, "0"@),
                yes: branch_of(body, true),
                no: branch_of(body, false),
                operators: operators_of(body),
            },
        )
    } else if head == "ResolvedThisTurn"@ {
        let at = match s.sa.source {
            Some(id) => id,
            None => s.source,
        };
        number_plan(
            body,
            match s.game.card_at(at) {
                Some(c) => c.resolved_this_turn,
                None => 0,
            },
        )
    } else if head == "Delirium"@ {
        branch_plan(body, me.has_delirium)
    } else if head == "CommittedCrimeThisTurn"@ {
        branch_plan(body, me.committed_crime_this_turn > 0)
    } else if head == "YourStartingLife"@ {
        number_plan(body, me.starting_life)
    } else if has_part(head, "LifeYouLostThisTurn"@) {
        number_plan(body, me.life_lost_this_turn)
    } else if has_part(head, "LifeYouGainedThisTurn"@) {
        number_plan(body, me.life_gained_this_turn)
    } else if has_part(head, "LifeYourTeamGainedThisTurn"@) {
        number_plan(body, me.life_gained_by_team_this_turn)
    } else if has_part(head, "LifeYouGainedTimesThisTurn"@) {
        number_plan(body, me.life_gained_times_this_turn)
    } else if has_part(head, "LifeOppsLostThisTurn"@) {
        number_plan(body, total(opponent_losses(s.game, s.game.player_order@, s.you)))
    } else if head == "CrewSize"@ {
        number_plan(body, host.crewed_by_this_turn@.len() as i32)
    } else if head == "TotalDamageReceivedThisTurn"@ {
        number_plan(body, host.assigned_damage)
    } else if head == "MaxCombatDamageThisTurn"@ {
        number_plan(body, greatest(combat_damages(s.game), 0))
    } else if has_prefix(head, "Morbid"@) {
        let died = entered(
            s.game.entered_this_turn@,
            ZoneType::Graveyard,
            Some(ZoneType::Battlefield),
        );
        branch_plan(body, matching(s.game, died, "Creature"@, s.source, s.you).len() > 0)
    } else if has_prefix(head, "CountersAddedThisTurn"@) && words.len() >= 4 {
        number_plan(
            body,
            match number_under(s.sa.counters_added, whole_of(body)) {
                Some(n) => n,
                None => 0,
            },
        )
    } else if has_part(head, "TimesKicked"@) {
        number_plan(body, times_kicked(s, host))
    } else if has_prefix(head, "Bargain"@) {
        branch_plan(body, s.sa.optional_costs.contains(OptionalCost::Bargain))
    } else if has_prefix(head, "Teamwork"@) {
        branch_plan(body, s.sa.optional_costs.contains(OptionalCost::Teamwork))
    } else if head == "YouFlipThisTurn"@ {
        number_plan(body, me.num_flips_this_turn)
    } else if head == "YouDescendedThisTurn"@ {
        number_plan(body, me.permanents_put_into_graveyard_this_turn)
    } else if head == "UnlockedDoors"@ {
        number_plan(
            body,
            unlocked_doors(s.game, s.game.in_zone(ZoneType::Battlefield, s.you)),
        )
    } else if has_prefix(head, "Void"@) {
        branch_plan(body, s.game.is_void)
    } else {
        None
    }
}

fn has_cost(costs: &Vec<OptionalCost>, cost: OptionalCost) -> (r: bool)
    ensures
        r == costs@.contains(cost),
{
    let mut i: usize = 0;
    while i < costs.len()
        invariant
            i <= costs@.len(),
            forall|k: int| 0 <= k < i ==> costs@[k] != cost,
        decreases costs@.len() - i,
    {
        if costs[i] == cost {
            assert(costs@[i as int] == cost);
            return true;
        }
        i = i + 1;
    }
    false
}

fn read_turn<'a>(
    s: Scene,
    host: &Card,
    me: &Player,
    b: &Body<'a>,
    Ghost(body): Ghost<Seq<char>>,
) -> (r: Option<CountStep<'a>>)
    requires
        b.reads(body),
    ensures
        plan_of(r) == turn_plan(s@, *host, *me, body),
{
    let head = b.head;
    proof {
        reveal_strlit(" ");
    }
    if starts_with(head, "IsPrime") {
        let words = split(head, " ");
        return Some(
            CountStep::Prime {
                text: piece_at_or(&words, 1, "0"),
                yes: b.yes,
                no: b.no,
                operators: b.operators,
            },
        );
    }
    if text_eq(head, "ResolvedThisTurn") {
        let at = match s.sa.source {
            Some(id) => id,
            None => s.source,
        };
        let n: i32 = match s.game.card(at) {
            Some(c) => c.resolved_this_turn,
            None => 0,
        };
        return b.value(n, Ghost(body));
    }
    if text_eq(head, "Delirium") {
        return b.branch(me.has_delirium, Ghost(body));
    }
    if text_eq(head, "CommittedCrimeThisTurn") {
        return b.branch(me.committed_crime_this_turn > 0, Ghost(body));
    }
    if text_eq(head, "YourStartingLife") {
        return b.value(me.starting_life, Ghost(body));
    }
    if contains(head, "LifeYouLostThisTurn") {
        return b.value(me.life_lost_this_turn, Ghost(body));
    }
    if contains(head, "LifeYouGainedThisTurn") {
        return b.value(me.life_gained_this_turn, Ghost(body));
    }
    if contains(head, "LifeYourTeamGainedThisTurn") {
        return b.value(me.life_gained_by_team_this_turn, Ghost(body));
    }
    if contains(head, "LifeYouGainedTimesThisTurn") {
        return b.value(me.life_gained_times_this_turn, Ghost(body));
    }
    if contains(head, "LifeOppsLostThisTurn") {
        let losses = list_opponent_losses(s.game, &s.game.player_order, s.you);
        return b.value(add_up(&losses), Ghost(body));
    }
    if text_eq(head, "CrewSize") {
        return b.value(host.crewed_by_this_turn.len() as i32, Ghost(body));
    }
    if text_eq(head, "TotalDamageReceivedThisTurn") {
        return b.value(host.assigned_damage, Ghost(body));
    }
    if text_eq(head, "MaxCombatDamageThisTurn") {
        return b.value(greatest_combat_damage(s.game), Ghost(body));
    }
    if starts_with(head, "Morbid") {
        let died = list_entered(
            &s.game.entered_this_turn,
            ZoneType::Graveyard,
            Some(ZoneType::Battlefield),
        );
        let found = cards_matching(s.game, &died, "Creature", s.source, s.you);
        return b.branch(found.len() > 0, Ghost(body));
    }
    if starts_with(head, "CountersAddedThisTurn") {
        let words = split(b.whole, " ");
        assert(views(words@).len() == words@.len());
        if words.len() >= 4 {
            let n: i32 = match find_number(&s.sa.counters_added, b.whole) {
                Some(n) => n,
                None => 0,
            };
            return b.value(n, Ghost(body));
        }
    }
    if contains(head, "TimesKicked") {
        return b.value(count_times_kicked(s, host), Ghost(body));
    }
    if starts_with(head, "Bargain") {
        return b.branch(has_cost(&s.sa.optional_costs, OptionalCost::Bargain), Ghost(body));
    }
    if starts_with(head, "Teamwork") {
        return b.branch(has_cost(&s.sa.optional_costs, OptionalCost::Teamwork), Ghost(body));
    }
    if text_eq(head, "YouFlipThisTurn") {
        return b.value(me.num_flips_this_turn, Ghost(body));
    }
    if text_eq(head, "YouDescendedThisTurn") {
        return b.value(me.permanents_put_into_graveyard_this_turn, Ghost(body));
    }
    if text_eq(head, "UnlockedDoors") {
        let rooms = s.game.cards_in_zone(ZoneType::Battlefield, s.you);
        return b.value(count_unlocked_doors(s.game, &rooms), Ghost(body));
    }
    if starts_with(head, "Void") {
        return b.branch(s.game.is_void, Ghost(body));
    }
    None
}


/// Cards of the battlefield that match a restriction, seen from the source's controller.
pub open spec fn field_matches(s: SceneView, host: Card, restriction: Seq<char>) -> Seq<CardId> {
    matching(
        s.game,
        cards_in_zones(s.game.cards@, seq![ZoneType::Battlefield]),
        restriction,
        s.source,
        host.controller,
    )
}

fn list_field_matches(s: Scene, host: &Card, restriction: &str) -> (r: Vec<CardId>)
    ensures
        r@ == field_matches(s@, *host, restriction@),
{
    let mut field: Vec<ZoneType> = Vec::new();
    field.push(ZoneType::Battlefield);
    assert(field@ =~= seq![ZoneType::Battlefield]);
    let ids = list_cards_in_zones(s.game, &field);
    cards_matching(s.game, &ids, restriction, s.source, host.controller)
}

/// Counts of cards that left, attacked or stand out.
pub open spec fn history_plan(s: SceneView, host: Card, body: Seq<char>) -> Option<CountPlan> {
    let head = head_of(body);
    let whole = whole_of(body);
    let filter = after_mark(whole, " "@);
    if has_prefix(head, "LeftBattlefieldThisTurn"@) && has_part(whole, " "@) {
        number_plan(
            body,
            matching(
                s.game,
                s.game.left_battlefield_this_turn@,
                filter,
                s.source,
                host.controller,
            ).len() as i32,
        )
    } else if has_prefix(head, "LeftGraveyardThisTurn"@) && has_part(whole, " "@) {
        number_plan(
            body,
            matching(
                s.game,
                s.game.left_graveyard_this_turn@,
                filter,
                s.source,
                host.controller,
            ).len() as i32,
        )
    } else if has_prefix(head, "ImprintedSize"@) {
        number_plan(body, host.imprinted_cards@.len() as i32)
    } else if has_prefix(head, "wasCastFrom"@) {
        branch_plan(body, was_cast_from(s, host, head))
    } else if has_suffix(head, "InOwnMainPhase"@) {
        let mine = is_main(s.game.phase) && s.game.active_player == s.you && (has_prefix(
            head,
            "IfCast"@,
        ) ==> host.was_cast);
        number_plan(body, number_or(branch_of(body, mine), 0))
    } else if has_prefix(head, "FinishedUpkeepsThisTurn"@) {
        number_plan(
            body,
            s.game.n_upkeeps_this_turn.wrapping_sub(one_if(s.game.phase == PhaseType::Upkeep)),
        )
    } else if has_prefix(head, "FinishedEndOfTurnsThisTurn"@) {
        number_plan(
            body,
            s.game.n_end_of_turns_this_turn.wrapping_sub(
                one_if(s.game.phase == PhaseType::EndOfTurn),
            ),
        )
    } else if has_prefix(head, "CreaturesAttackedThisTurn"@) && has_part(whole, " "@) {
        number_plan(
            body,
            matching(
                s.game,
                attackers_of(s.game.cards@, s.you),
                filter,
                s.source,
                host.controller,
            ).len() as i32,
        )
    } else if has_prefix(head, "MostProminentCreatureType"@) && has_part(whole, " "@) {
        number_plan(body, most_prominent_type(s.game, field_matches(s, host, filter)))
    } else if has_prefix(whole, "DifferentCounterKinds_"@) {
        number_plan(
            body,
            counter_kinds(
                s.game,
                field_matches(s, host, whole.skip("DifferentCounterKinds_"@.len() as int)),
            ).len() as i32,
        )
    } else {
        None
    }
}

fn one_for(b: bool) -> (r: i32)
    ensures
        r == one_if(b),
{
    if b {
        1
    } else {
        0
    }
}

fn read_history<'a>(
    s: Scene,
    host: &Card,
    b: &Body<'a>,
    Ghost(body): Ghost<Seq<char>>,
) -> (r: Option<CountStep<'a>>)
    requires
        b.reads(body),
    ensures
        plan_of(r) == history_plan(s@, *host, body),
{
    let head = b.head;
    let spaced = contains(b.whole, " ");
    let (_, filter) = split_or_all(b.whole, " ");
    if starts_with(head, "LeftBattlefieldThisTurn") && spaced {
        let found = cards_matching(
            s.game,
            &s.game.left_battlefield_this_turn,
            filter,
            s.source,
            host.controller,
        );
        return b.value(found.len() as i32, Ghost(body));
    }
    if starts_with(head, "LeftGraveyardThisTurn") && spaced {
        let found = cards_matching(
            s.game,
            &s.game.left_graveyard_this_turn,
            filter,
            s.source,
            host.controller,
        );
        return b.value(found.len() as i32, Ghost(body));
    }
    if starts_with(head, "ImprintedSize") {
        return b.value(host.imprinted_cards.len() as i32, Ghost(body));
    }
    if let Some(rest) = strip_prefix(head, "wasCastFrom") {
        return b.branch(check_was_cast_from(s, host, head, rest), Ghost(body));
    }
    if ends_with(head, "InOwnMainPhase") {
        let main = match s.game.phase {
            PhaseType::Main1 => true,
            PhaseType::Main2 => true,
            _ => false,
        };
        let mine = main && s.game.active_player == s.you && (!starts_with(head, "IfCast")
            || host.was_cast);
        let text = if mine {
            b.yes
        } else {
            b.no
        };
        return b.value(parse_or(text, 0), Ghost(body));
    }
    if starts_with(head, "FinishedUpkeepsThisTurn") {
        let n: i32 = s.game.n_upkeeps_this_turn.wrapping_sub(
            one_for(s.game.phase == PhaseType::Upkeep),
        );
        return b.value(n, Ghost(body));
    }
    if starts_with(head, "FinishedEndOfTurnsThisTurn") {
        let n: i32 = s.game.n_end_of_turns_this_turn.wrapping_sub(
            one_for(s.game.phase == PhaseType::EndOfTurn),
        );
        return b.value(n, Ghost(body));
    }
    if starts_with(head, "CreaturesAttackedThisTurn") && spaced {
        let attackers = list_attackers(s.game, s.you);
        let found = cards_matching(s.game, &attackers, filter, s.source, host.controller);
        return b.value(found.len() as i32, Ghost(body));
    }
    if starts_with(head, "MostProminentCreatureType") && spaced {
        let found = list_field_matches(s, host, filter);
        return b.value(count_most_prominent_type(s.game, &found), Ghost(body));
    }
    if let Some(rest) = strip_prefix(b.whole, "DifferentCounterKinds_") {
        let found = list_field_matches(s, host, rest);
        return b.value(count_counter_kinds(s.game, &found), Ghost(body));
    }
    None
}

// ---- lists of this turn and the last ----

/// The text before the property that is asked of the cards.
pub open spec fn list_text(body: Seq<char>) -> Seq<char> {
    before_mark(whole_of(body), "$"@)
}

/// The cards that `This|LastTurnEntered_<Zone>[_from_<Zone>]_<valid>` lists.
pub open spec fn entered_cards(s: SceneView, body: Seq<char>) -> Option<Seq<CardId>> {
    let parts = pieces_up_to(list_text(body), "_"@, 5);
    let destination = if parts.len() > 1 {
        zone_named(parts[1])
    } else {
        None
    };
    let from = parts.len() > 2 && parts[2] == "from"@;
    let origin = if from && parts.len() > 3 {
        zone_named(parts[3])
    } else {
        None
    };
    let at = if from {
        4int
    } else {
        2int
    };
    match destination {
        Some(zone) if at < parts.len() => {
            let entries = if has_prefix(head_of(body), "This"@) {
                s.game.entered_this_turn@
            } else {
                s.game.entered_last_turn@
            };
            Some(matching(s.game, entered(entries, zone, origin), parts[at], s.source, s.you))
        },
        _ => None,
    }
}

fn read_entered_cards(s: Scene, b: &Body, Ghost(body): Ghost<Seq<char>>) -> (r: Option<Vec<CardId>>)
    requires
        b.reads(body),
    ensures
        r is Some == entered_cards(s@, body) is Some,
        r matches Some(v) ==> entered_cards(s@, body) == Some(v@),
{
    let (text, _) = split_or_all(b.whole, "$");
    let parts = split_up_to(text, "_", 5);
    let ghost shown = views(parts@);
    assert(shown.len() == parts@.len());
    assert(forall|k: int| 0 <= k < parts@.len() ==> shown[k] == (#[trigger] parts@[k])@);
    let destination = if parts.len() > 1 {
        ZoneType::from_str_compat(parts[1])
    } else {
        None
    };
    let from = parts.len() > 2 && text_eq(parts[2], "from");
    let origin = if from && parts.len() > 3 {
        ZoneType::from_str_compat(parts[3])
    } else {
        None
    };
    let at: usize = if from {
        4
    } else {
        2
    };
    if at >= parts.len() {
        return None;
    }
    match destination {
        Some(zone) => {
            let listed = if starts_with(b.head, "This") {
                list_entered(&s.game.entered_this_turn, zone, origin)
            } else {
                list_entered(&s.game.entered_last_turn, zone, origin)
            };
            Some(cards_matching(s.game, &listed, parts[at], s.source, s.you))
        },
        None => None,
    }
}

/// The battlefield as it was when the card was cast, or as it is now.
pub open spec fn last_state(s: SceneView, host: Card) -> Seq<CardId> {
    match host.cast_record {
        Some(cast) if cast.last_state_battlefield@.len() > 0 => cast.last_state_battlefield@,
        _ => cards_in_zones(s.game.cards@, seq![ZoneType::Battlefield]),
    }
}

fn list_last_state(s: Scene, host: &Card) -> (r: Vec<CardId>)
    ensures
        r@ == last_state(s@, *host),
{
    if let Some(cast) = &host.cast_record {
        if cast.last_state_battlefield.len() > 0 {
            return copy_cards(&cast.last_state_battlefield);
        }
    }
    let mut field: Vec<ZoneType> = Vec::new();
    field.push(ZoneType::Battlefield);
    assert(field@ =~= seq![ZoneType::Battlefield]);
    list_cards_in_zones(s.game, &field)
}

/// The card that the ability comes from.
pub open spec fn ability_card(s: SceneView) -> CardId {
    match s.sa.source {
        Some(id) => id,
        None => s.source,
    }
}

/// What is asked of a list of cards: their number, or the property behind the dollar.
pub open spec fn list_plan(s: SceneView, body: Seq<char>, cards: Seq<CardId>) -> Option<CountPlan> {
    number_plan(
        body,
        if has_part(whole_of(body), "$"@) {
            aggregated(s.game, cards, after_mark(whole_of(body), "$"@))
        } else {
            cards.len() as i32
        },
    )
}

/// Counts of lists of cards: the last state, what was cast, activated or entered.
pub open spec fn turn_list_plan(s: SceneView, host: Card, body: Seq<char>) -> Option<CountPlan> {
    let head = head_of(body);
    let text = list_text(body);
    let words = pieces(text, "_"@);
    if has_prefix(head, "LastStateBattlefieldWithFallback"@) && has_part(text, " "@) {
        match s.game.card_at(ability_card(s)) {
            Some(c) if c.was_cast => list_plan(
                s,
                body,
                matching(
                    s.game,
                    last_state(s, c),
                    after_mark(text, " "@),
                    s.source,
                    host.controller,
                ),
            ),
            _ => number_plan(body, 0),
        }
    } else if (has_prefix(head, "ThisTurnCast"@) || has_prefix(head, "LastTurnCast"@))
        && words.len() > 1 {
        list_plan(
            s,
            body,
            matching(
                s.game,
                if has_part(words[0], "This"@) {
                    s.game.cast_this_turn@
                } else {
                    s.game.cast_last_turn@
                },
                words[1],
                s.source,
                s.you,
            ),
        )
    } else if has_prefix(head, "ThisTurnActivated"@) && words.len() > 1 {
        number_plan(
            body,
            matching(
                s.game,
                s.game.activated_this_turn@,
                words[1],
                s.source,
                s.you,
            ).len() as i32,
        )
    } else if (has_prefix(head, "ThisTurnEntered"@) || has_prefix(head, "LastTurnEntered"@))
        && entered_cards(s, body) is Some {
        list_plan(s, body, entered_cards(s, body)->0)
    } else {
        None
    }
}

fn ask_list<'a>(
    s: Scene,
    b: &Body<'a>,
    cards: &Vec<CardId>,
    Ghost(body): Ghost<Seq<char>>,
) -> (r: Option<CountStep<'a>>)
    requires
        b.reads(body),
    ensures
        plan_of(r) == list_plan(s@, body, cards@),
{
    let (_, what) = split_or_all(b.whole, "$");
    if contains(b.whole, "$") {
        b.value(count_valid_aggregate(s.game, cards, what), Ghost(body))
    } else {
        b.value(cards.len() as i32, Ghost(body))
    }
}

fn read_turn_list<'a>(
    s: Scene,
    host: &Card,
    b: &Body<'a>,
    Ghost(body): Ghost<Seq<char>>,
) -> (r: Option<CountStep<'a>>)
    requires
        b.reads(body),
    ensures
        plan_of(r) == turn_list_plan(s@, *host, body),
{
    proof {
        reveal_strlit("_");
    }
    let head = b.head;
    let (text, _) = split_or_all(b.whole, "$");
    let words = split(text, "_");
    let ghost shown = views(words@);
    assert(shown.len() == words@.len());
    assert(shown[0] == words@[0]@);
    if starts_with(head, "LastStateBattlefieldWithFallback") && contains(text, " ") {
        let (_, valid) = split_or_all(text, " ");
        let at = match s.sa.source {
            Some(id) => id,
            None => s.source,
        };
        if let Some(c) = s.game.card(at) {
            if c.was_cast {
                let all = list_last_state(s, c);
                let found = cards_matching(s.game, &all, valid, s.source, host.controller);
                return ask_list(s, b, &found, Ghost(body));
            }
        }
        return b.value(0, Ghost(body));
    }
    if (starts_with(head, "ThisTurnCast") || starts_with(head, "LastTurnCast")) && words.len()
        > 1 {
        assert(shown[1] == words@[1]@);
        let cast = if contains(words[0], "This") {
            &s.game.cast_this_turn
        } else {
            &s.game.cast_last_turn
        };
        let found = cards_matching(s.game, cast, words[1], s.source, s.you);
        return ask_list(s, b, &found, Ghost(body));
    }
    if starts_with(head, "ThisTurnActivated") && words.len() > 1 {
        assert(shown[1] == words@[1]@);
        let found = cards_matching(
            s.game,
            &s.game.activated_this_turn,
            words[1],
            s.source,
            s.you,
        );
        return b.value(found.len() as i32, Ghost(body));
    }
    if starts_with(head, "ThisTurnEntered") || starts_with(head, "LastTurnEntered") {
        if let Some(found) = read_entered_cards(s, b, Ghost(body)) {
            return ask_list(s, b, &found, Ghost(body));
        }
    }
    None
}

/// The count behind `Count$`.
pub open spec fn body_plan(s: SceneView, host: Card, me: Player, body: Seq<char>) -> Option<CountPlan> {
    if let Some(p) = turn_plan(s, host, me, body) {
        Some(p)
    } else if let Some(p) = history_plan(s, host, body) {
        Some(p)
    } else {
        turn_list_plan(s, host, body)
    }
}

pub fn read_body_plan<'a>(s: Scene, host: &Card, me: &Player, body: &'a str) -> (r: Option<
    CountStep<'a>,
>)
    ensures
        plan_of(r) == body_plan(s@, *host, *me, body@),
{
    let b = read_body(body);
    if let Some(step) = read_turn(s, host, me, &b, Ghost(body@)) {
        return Some(step);
    }
    if let Some(step) = read_history(s, host, &b, Ghost(body@)) {
        return Some(step);
    }
    read_turn_list(s, host, &b, Ghost(body@))
}

} // verus!
