//! How costs, defined cards and what is written on cards are looked up.

use vstd::prelude::*;
use crate::game::{
    all_counters, counters_of, svar_value, Card, Counter, Facts, GameState, SVar,
};
use crate::laws::numbers::{lemma_number_chars, lemma_parts_from, lemma_starts};
use crate::laws::turns::lemma_first_none;
use crate::parsing::misc::{enchantable, meant_to_parse};
use crate::spell::{number_under, objects_of, AbilityView, NamedNumber, TriggerObject};
use crate::svar::cost_amount::{cost_count, filter_matches, of_base_type, qualified};
use crate::svar::defined::{defined_cards, distinct_cards};
use crate::text::{
    has_prefix, int_value, lemma_no_mark, lower_case, pieces, same_ignoring_case, trimmed,
};
use crate::types::{AbilityKey, CardId, PlayerId, ZoneType};

verus! {

// ---- what is written on cards ----

/// A card, a player or an ability is as a selector says exactly where that is listed, for the same
/// selector, the same source and the same player.
pub proof fn law_selectors(
    facts: Facts,
    selector: Seq<char>,
    source: CardId,
    you: PlayerId,
    card: CardId,
    player: PlayerId,
    ability: u32,
)
    ensures
        facts.matches_card(selector, source, you, card) <==> exists|i: int|
            0 <= i < facts.card_matches@.len() && (#[trigger] facts.card_matches@[i]).selector@
                == selector && facts.card_matches@[i].source == source && facts.card_matches@[i].you
                == you && facts.card_matches@[i].card == card,
        facts.matches_player(selector, source, you, player) <==> exists|i: int|
            0 <= i < facts.player_matches@.len() && (#[trigger] facts.player_matches@[i]).selector@
                == selector && facts.player_matches@[i].source == source
                && facts.player_matches@[i].you == you && facts.player_matches@[i].player == player,
        facts.matches_ability(selector, ability, source) <==> exists|i: int|
            0 <= i < facts.ability_matches@.len() && (#[trigger] facts.ability_matches@[i]).filter@
                == selector && facts.ability_matches@[i].ability == ability
                && facts.ability_matches@[i].host == source,
{
    if facts.matches_card(selector, source, you, card) {
        let i = choose|i: int|
            0 <= i < facts.card_matches@.len() && {
                let m = #[trigger] facts.card_matches@[i];
                m.selector@ == selector && m.source == source && m.you == you && m.card == card
            };
        assert(facts.card_matches@[i].selector@ == selector);
    }
    if facts.matches_player(selector, source, you, player) {
        let i = choose|i: int|
            0 <= i < facts.player_matches@.len() && {
                let m = #[trigger] facts.player_matches@[i];
                m.selector@ == selector && m.source == source && m.you == you && m.player == player
            };
        assert(facts.player_matches@[i].selector@ == selector);
    }
    if facts.matches_ability(selector, ability, source) {
        let i = choose|i: int|
            0 <= i < facts.ability_matches@.len() && {
                let m = #[trigger] facts.ability_matches@[i];
                m.filter@ == selector && m.ability == ability && m.host == source
            };
        assert(facts.ability_matches@[i].filter@ == selector);
    }
}

/// Of more script variables, counters or numbers of a name the first counts, and none where there is
/// none.
pub proof fn law_first_of_a_name(
    svars: Seq<SVar>,
    counters: Seq<Counter>,
    numbers: Seq<NamedNumber>,
    name: Seq<char>,
    i: int,
)
    ensures
        0 <= i < svars.len() && svars[i].name@ == name && (forall|k: int|
            0 <= k < i ==> (#[trigger] svars[k]).name@ != name) ==> svar_value(svars, name) == Some(
            svars[i].value@,
        ),
        (forall|k: int| 0 <= k < svars.len() ==> (#[trigger] svars[k]).name@ != name) ==> svar_value(
            svars,
            name,
        ) is None,
        0 <= i < counters.len() && counters[i].kind@ == name && (forall|k: int|
            0 <= k < i ==> (#[trigger] counters[k]).kind@ != name) ==> counters_of(counters, name)
            == counters[i].count,
        (forall|k: int| 0 <= k < counters.len() ==> (#[trigger] counters[k]).kind@ != name)
            ==> counters_of(counters, name) == 0,
        0 <= i < numbers.len() && numbers[i].name@ == name && (forall|k: int|
            0 <= k < i ==> (#[trigger] numbers[k]).name@ != name) ==> number_under(numbers, name)
            == Some(numbers[i].value),
{
    lemma_svar(svars, name, i);
    lemma_counter(counters, name, i);
    lemma_number(numbers, name, i);
}

proof fn lemma_first<T>(v: Seq<T>)
    requires
        v.len() > 0,
    ensures
        v.skip(1).len() == v.len() - 1,
{
}

proof fn lemma_svar(v: Seq<SVar>, name: Seq<char>, i: int)
    ensures
        0 <= i < v.len() && v[i].name@ == name && (forall|k: int|
            0 <= k < i ==> (#[trigger] v[k]).name@ != name) ==> svar_value(v, name) == Some(v[i].value@),
        (forall|k: int| 0 <= k < v.len() ==> (#[trigger] v[k]).name@ != name) ==> svar_value(v, name) is None,
    decreases v.len(),
{
    if v.len() > 0 {
        let rest = v.skip(1);
        lemma_first(v);
        lemma_svar(rest, name, i - 1);
        assert forall|k: int| 0 <= k < rest.len() implies #[trigger] rest[k] == v[k + 1] by {}
        if v[0].name@ != name {
            if forall|k: int| 0 <= k < v.len() ==> (#[trigger] v[k]).name@ != name {
                assert forall|k: int| 0 <= k < rest.len() implies (#[trigger] rest[k]).name@
                    != name by {
                    assert(rest[k] == v[k + 1]);
                }
            }
            if 0 < i < v.len() && v[i].name@ == name && (forall|k: int|
                0 <= k < i ==> (#[trigger] v[k]).name@ != name) {
                assert(rest[i - 1] == v[i]);
                assert forall|k: int| 0 <= k < i - 1 implies (#[trigger] rest[k]).name@ != name by {
                    assert(rest[k] == v[k + 1]);
                }
            }
        } else {
            assert(v[0].name@ == name);
        }
    }
}

proof fn lemma_counter(v: Seq<Counter>, name: Seq<char>, i: int)
    ensures
        0 <= i < v.len() && v[i].kind@ == name && (forall|k: int|
            0 <= k < i ==> (#[trigger] v[k]).kind@ != name) ==> counters_of(v, name) == v[i].count,
        (forall|k: int| 0 <= k < v.len() ==> (#[trigger] v[k]).kind@ != name) ==> counters_of(v, name) == 0,
    decreases v.len(),
{
    if v.len() > 0 {
        let rest = v.skip(1);
        lemma_first(v);
        lemma_counter(rest, name, i - 1);
        assert forall|k: int| 0 <= k < rest.len() implies #[trigger] rest[k] == v[k + 1] by {}
        if v[0].kind@ != name {
            if forall|k: int| 0 <= k < v.len() ==> (#[trigger] v[k]).kind@ != name {
                assert forall|k: int| 0 <= k < rest.len() implies (#[trigger] rest[k]).kind@
                    != name by {
                    assert(rest[k] == v[k + 1]);
                }
            }
            if 0 < i < v.len() && v[i].kind@ == name && (forall|k: int|
                0 <= k < i ==> (#[trigger] v[k]).kind@ != name) {
                assert(rest[i - 1] == v[i]);
                assert forall|k: int| 0 <= k < i - 1 implies (#[trigger] rest[k]).kind@ != name by {
                    assert(rest[k] == v[k + 1]);
                }
            }
        } else {
            assert(v[0].kind@ == name);
        }
    }
}

proof fn lemma_number(v: Seq<NamedNumber>, name: Seq<char>, i: int)
    ensures
        0 <= i < v.len() && v[i].name@ == name && (forall|k: int|
            0 <= k < i ==> (#[trigger] v[k]).name@ != name) ==> number_under(v, name) == Some(v[i].value),
        (forall|k: int| 0 <= k < v.len() ==> (#[trigger] v[k]).name@ != name) ==> number_under(v, name) is None,
    decreases v.len(),
{
    if v.len() > 0 {
        let rest = v.skip(1);
        lemma_first(v);
        lemma_number(rest, name, i - 1);
        assert forall|k: int| 0 <= k < rest.len() implies #[trigger] rest[k] == v[k + 1] by {}
        if v[0].name@ != name {
            if forall|k: int| 0 <= k < v.len() ==> (#[trigger] v[k]).name@ != name {
                assert forall|k: int| 0 <= k < rest.len() implies (#[trigger] rest[k]).name@
                    != name by {
                    assert(rest[k] == v[k + 1]);
                }
            }
            if 0 < i < v.len() && v[i].name@ == name && (forall|k: int|
                0 <= k < i ==> (#[trigger] v[k]).name@ != name) {
                assert(rest[i - 1] == v[i]);
                assert forall|k: int| 0 <= k < i - 1 implies (#[trigger] rest[k]).name@ != name by {
                    assert(rest[k] == v[k + 1]);
                }
            }
        } else {
            assert(v[0].name@ == name);
        }
    }
}

/// All counters add up, and an object that an ability is given under a key replaces the one before.
pub proof fn law_more_of_them(
    counters: Seq<Counter>,
    c: Counter,
    objects: Seq<TriggerObject>,
    o: TriggerObject,
)
    ensures
        all_counters(Seq::empty()) == 0,
        i32::MIN <= all_counters(counters) + c.count <= i32::MAX ==> all_counters(counters.push(c))
            == all_counters(counters) + c.count,
        objects_of(objects.push(o)) == objects_of(objects).insert(o.key, o.value),
{
    assert(counters.push(c).drop_last() =~= counters);
    assert(objects.push(o).drop_last() =~= objects);
}

// ---- costs ----

/// What a cost counts: a number that is written out, the life of the player of the card, or its
/// counters of a kind.
pub proof fn law_costs_that_count(
    game: GameState,
    source: Card,
    caster: PlayerId,
    k: Seq<char>,
    kind: Seq<char>,
)
    requires
        int_value(k) is Some,
        kind != "ALL"@,
    ensures
        cost_count(game, source, "Count$"@ + k, caster) == Some(int_value(k)->0 as i32),
        game.player_at(source.controller) matches Some(p) ==> cost_count(
            game,
            source,
            "Count$YourLifeTotal"@,
            caster,
        ) == Some(p.life),
        cost_count(game, source, "Count$CardCounters."@ + kind, caster) == Some(
            counters_of(source.counters@, kind),
        ),
        cost_count(game, source, "Count$CardCounters.ALL"@, caster) == Some(
            all_counters(source.counters@),
        ),
{
    reveal_strlit("Count$");
    reveal_strlit("Count$YourLifeTotal");
    reveal_strlit("Count$CardCounters.");
    reveal_strlit("Count$CardCounters.ALL");
    reveal_strlit("ALL");
    reveal_strlit("Count$xPaid");
    reveal_strlit("Count$XPaid");
    reveal_strlit("Count$ThisTurnCast_");
    reveal_strlit("Count$Valid ");
    let t = "Count$"@ + k;
    lemma_number_chars(k, 'x');
    lemma_number_chars(k, 'X');
    lemma_number_chars(k, 'C');
    lemma_number_chars(k, 'T');
    lemma_number_chars(k, 'Y');
    lemma_number_chars(k, 'V');
    assert(t[6] == k[0]);
    assert(k.contains(k[0]));
    lemma_starts("Count$"@, k);
    lemma_parts_from(t, "Count$xPaid"@, 6);
    lemma_parts_from(t, "Count$XPaid"@, 6);
    lemma_parts_from(t, "Count$CardCounters."@, 6);
    lemma_parts_from(t, "Count$ThisTurnCast_"@, 6);
    lemma_parts_from(t, "Count$YourLifeTotal"@, 6);
    lemma_parts_from(t, "Count$Valid "@, 6);
    let y = "Count$YourLifeTotal"@;
    lemma_parts_from(y, "Count$xPaid"@, 6);
    lemma_parts_from(y, "Count$XPaid"@, 6);
    lemma_parts_from(y, "Count$CardCounters."@, 6);
    lemma_parts_from(y, "Count$ThisTurnCast_"@, 6);
    let c = "Count$CardCounters."@ + kind;
    lemma_starts("Count$CardCounters."@, kind);
    assert(c[6] == 'C');
    lemma_parts_from(c, "Count$xPaid"@, 6);
    lemma_parts_from(c, "Count$XPaid"@, 6);
    let a = "Count$CardCounters.ALL"@;
    assert(a =~= "Count$CardCounters."@ + "ALL"@);
    lemma_starts("Count$CardCounters."@, "ALL"@);
    lemma_parts_from(a, "Count$xPaid"@, 6);
    lemma_parts_from(a, "Count$XPaid"@, 6);
}

/// The types that a filter of a cost can name; every card in play is a permanent, and any other name is
/// that of a subtype.
pub proof fn law_types_of_filters(card: Card)
    ensures
        of_base_type(card, "Creature"@) == card.types.creature,
        of_base_type(card, "Land"@) == card.types.land,
        of_base_type(card, "Artifact"@) == card.types.artifact,
        of_base_type(card, "Enchantment"@) == card.types.enchantment,
        of_base_type(card, "Planeswalker"@) == card.types.planeswalker,
        of_base_type(card, "Permanent"@),
        of_base_type(card, "Card"@),
        forall|t: Seq<char>|
            t != "Creature"@ && t != "Land"@ && t != "Artifact"@ && t != "Enchantment"@ && t
                != "Planeswalker"@ && t != "Permanent"@ && t != "Card"@ ==> #[trigger] of_base_type(
                card,
                t,
            ) == card.types.is_subtype(t),
{
    reveal_strlit("Creature");
    reveal_strlit("Land");
    reveal_strlit("Artifact");
    reveal_strlit("Enchantment");
    reveal_strlit("Planeswalker");
    reveal_strlit("Permanent");
    reveal_strlit("Card");
    assert("Creature"@[0] == 'C' && "Artifact"@[0] == 'A' && "Land"@[0] == 'L' && "Card"@[0] == 'C');
    assert("Creature"@.len() == 8 && "Land"@.len() == 4 && "Artifact"@.len() == 8
        && "Enchantment"@.len() == 11 && "Planeswalker"@.len() == 12 && "Permanent"@.len() == 9
        && "Card"@.len() == 4);
}

/// A filter without qualifiers asks for its type alone.
pub proof fn law_plain_filters(
    card: Card,
    filter: Seq<char>,
    controller: PlayerId,
    source: CardId,
    chosen: Option<Seq<char>>,
)
    requires
        !filter.contains('.'),
    ensures
        filter_matches(card, filter, controller, source, chosen) == of_base_type(card, filter),
{
    reveal_strlit(".");
    assert("."@ =~= seq!['.']);
    lemma_first_none(filter, '.');
    assert(pieces(filter, "."@) == seq![filter]);
}

/// The qualifiers of a filter: whose a card is, and whether it is the source or another.
pub proof fn law_qualifiers_of_filters(
    card: Card,
    q: Seq<char>,
    controller: PlayerId,
    source: CardId,
    chosen: Option<Seq<char>>,
)
    ensures
        same_ignoring_case(q, "YouCtrl"@) ==> (qualified(card, q, controller, source, chosen)
            <==> card.controller == controller),
        same_ignoring_case(q, "Self"@) ==> (qualified(card, q, controller, source, chosen)
            <==> card.id == source),
        same_ignoring_case(q, "Other"@) ==> (qualified(card, q, controller, source, chosen)
            <==> card.id != source),
        same_ignoring_case(q, "ChosenType"@) && chosen is None ==> !qualified(
            card,
            q,
            controller,
            source,
            chosen,
        ),
{
    reveal_strlit("YouCtrl");
    reveal_strlit("YouControl");
    reveal_strlit("Self");
    reveal_strlit("Other");
    reveal_strlit("ChosenType");
    assert(crate::text::lowered("YouCtrl"@).len() == 7);
    assert(crate::text::lowered("YouControl"@).len() == 10);
    assert(crate::text::lowered("Self"@).len() == 4);
    assert(crate::text::lowered("Other"@).len() == 5);
    assert(crate::text::lowered("ChosenType"@).len() == 10);
    assert(crate::text::lowered("YouControl"@)[0] == 'y');
    assert(crate::text::lowered("ChosenType"@)[0] == 'c');
}

// ---- defined cards ----

/// The cards that the names of a script stand for.
pub proof fn law_defined_cards(game: GameState, source: CardId, sa: AbilityView)
    requires
        game.card_at(source) is Some,
    ensures
        defined_cards("AllTargeted"@, game, source, sa) == sa.chain_targets,
        sa.target_cards.len() > 0 ==> defined_cards("Targeted"@, game, source, sa) == sa.target_cards,
        defined_cards("TriggeredAttacker"@, game, source, sa) == sa.object_cards(AbilityKey::Attacker),
        defined_cards("TriggeredBlocker"@, game, source, sa) == sa.object_cards(AbilityKey::Blocker),
        sa.object_cards(AbilityKey::Card).len() > 0 ==> defined_cards("TriggeredCard"@, game, source, sa) == sa.object_cards(AbilityKey::Card),
        sa.object_cards(AbilityKey::TargetCard).len() > 0 ==> defined_cards("TriggeredTarget"@, game, source, sa) == sa.object_cards(AbilityKey::TargetCard),
        defined_cards("Discarded"@, game, source, sa) == sa.discarded_cost_cards,
        defined_cards("Remembered"@, game, source, sa) == game.card_at(source)->0.remembered_cards@,
        defined_cards("Imprinted"@, game, source, sa) == game.card_at(source)->0.imprinted_cards@,
{
    lemma_defined_0(game, source, sa);
    lemma_defined_1(game, source, sa);
    lemma_defined_2(game, source, sa);
    lemma_defined_3(game, source, sa);
    lemma_defined_4(game, source, sa);
    lemma_defined_5(game, source, sa);
    lemma_defined_6(game, source, sa);
    lemma_defined_7(game, source, sa);
    lemma_defined_8(game, source, sa);
}

proof fn lemma_defined_0(game: GameState, source: CardId, sa: AbilityView)
    requires
        game.card_at(source) is Some,
    ensures
        defined_cards("AllTargeted"@, game, source, sa) == sa.chain_targets,
{
    let t = "AllTargeted"@;
    reveal_strlit("AllTargeted");
}

proof fn lemma_defined_1(game: GameState, source: CardId, sa: AbilityView)
    requires
        game.card_at(source) is Some,
    ensures
        sa.target_cards.len() > 0 ==> defined_cards("Targeted"@, game, source, sa) == sa.target_cards,
{
    let t = "Targeted"@;
    reveal_strlit("Targeted");
    reveal_strlit("AllTargeted");
    lemma_parts_from(t, "AllTargeted"@, 0);
    reveal_strlit("TriggerObjects");
    lemma_parts_from(t, "TriggerObjects"@, 1);
}

proof fn lemma_defined_2(game: GameState, source: CardId, sa: AbilityView)
    requires
        game.card_at(source) is Some,
    ensures
        defined_cards("TriggeredAttacker"@, game, source, sa) == sa.object_cards(AbilityKey::Attacker),
{
    let t = "TriggeredAttacker"@;
    reveal_strlit("TriggeredAttacker");
    reveal_strlit("AllTargeted");
    lemma_parts_from(t, "AllTargeted"@, 0);
    reveal_strlit("TriggerObjects");
    lemma_parts_from(t, "TriggerObjects"@, 7);
    reveal_strlit("Targeted");
    lemma_parts_from(t, "Targeted"@, 1);
    reveal_strlit("TargetedCard");
    lemma_parts_from(t, "TargetedCard"@, 1);
    reveal_strlit("ThisTargetedCard");
    lemma_parts_from(t, "ThisTargetedCard"@, 1);
    reveal_strlit("ParentTarget");
    lemma_parts_from(t, "ParentTarget"@, 0);
    reveal_strlit("ParentTargeted");
    lemma_parts_from(t, "ParentTargeted"@, 0);
    reveal_strlit("TriggeredCard");
    lemma_parts_from(t, "TriggeredCard"@, 9);
    reveal_strlit("TriggeredCardLKICopy");
    lemma_parts_from(t, "TriggeredCardLKICopy"@, 9);
    reveal_strlit("ReplacedCard");
    lemma_parts_from(t, "ReplacedCard"@, 0);
    reveal_strlit("TriggeredNewCard");
    lemma_parts_from(t, "TriggeredNewCard"@, 9);
    reveal_strlit("TriggeredNewCardLKICopy");
    lemma_parts_from(t, "TriggeredNewCardLKICopy"@, 9);
}

proof fn lemma_defined_3(game: GameState, source: CardId, sa: AbilityView)
    requires
        game.card_at(source) is Some,
    ensures
        defined_cards("TriggeredBlocker"@, game, source, sa) == sa.object_cards(AbilityKey::Blocker),
{
    let t = "TriggeredBlocker"@;
    reveal_strlit("TriggeredBlocker");
    reveal_strlit("AllTargeted");
    lemma_parts_from(t, "AllTargeted"@, 0);
    reveal_strlit("TriggerObjects");
    lemma_parts_from(t, "TriggerObjects"@, 7);
    reveal_strlit("Targeted");
    lemma_parts_from(t, "Targeted"@, 1);
    reveal_strlit("TargetedCard");
    lemma_parts_from(t, "TargetedCard"@, 1);
    reveal_strlit("ThisTargetedCard");
    lemma_parts_from(t, "ThisTargetedCard"@, 1);
    reveal_strlit("ParentTarget");
    lemma_parts_from(t, "ParentTarget"@, 0);
    reveal_strlit("ParentTargeted");
    lemma_parts_from(t, "ParentTargeted"@, 0);
    reveal_strlit("TriggeredCard");
    lemma_parts_from(t, "TriggeredCard"@, 9);
    reveal_strlit("TriggeredCardLKICopy");
    lemma_parts_from(t, "TriggeredCardLKICopy"@, 9);
    reveal_strlit("ReplacedCard");
    lemma_parts_from(t, "ReplacedCard"@, 0);
    reveal_strlit("TriggeredNewCard");
    lemma_parts_from(t, "TriggeredNewCard"@, 9);
    reveal_strlit("TriggeredNewCardLKICopy");
    lemma_parts_from(t, "TriggeredNewCardLKICopy"@, 9);
    reveal_strlit("TriggeredAttacker");
    lemma_parts_from(t, "TriggeredAttacker"@, 9);
    reveal_strlit("TriggeredAttackers");
    lemma_parts_from(t, "TriggeredAttackers"@, 9);
}

proof fn lemma_defined_4(game: GameState, source: CardId, sa: AbilityView)
    requires
        game.card_at(source) is Some,
    ensures
        sa.object_cards(AbilityKey::Card).len() > 0 ==> defined_cards("TriggeredCard"@, game, source, sa) == sa.object_cards(AbilityKey::Card),
{
    let t = "TriggeredCard"@;
    reveal_strlit("TriggeredCard");
    reveal_strlit("AllTargeted");
    lemma_parts_from(t, "AllTargeted"@, 0);
    reveal_strlit("TriggerObjects");
    lemma_parts_from(t, "TriggerObjects"@, 7);
    reveal_strlit("Targeted");
    lemma_parts_from(t, "Targeted"@, 1);
    reveal_strlit("TargetedCard");
    lemma_parts_from(t, "TargetedCard"@, 1);
    reveal_strlit("ThisTargetedCard");
    lemma_parts_from(t, "ThisTargetedCard"@, 1);
    reveal_strlit("ParentTarget");
    lemma_parts_from(t, "ParentTarget"@, 0);
    reveal_strlit("ParentTargeted");
    lemma_parts_from(t, "ParentTargeted"@, 0);
}

proof fn lemma_defined_5(game: GameState, source: CardId, sa: AbilityView)
    requires
        game.card_at(source) is Some,
    ensures
        sa.object_cards(AbilityKey::TargetCard).len() > 0 ==> defined_cards("TriggeredTarget"@, game, source, sa) == sa.object_cards(AbilityKey::TargetCard),
{
    let t = "TriggeredTarget"@;
    reveal_strlit("TriggeredTarget");
    reveal_strlit("AllTargeted");
    lemma_parts_from(t, "AllTargeted"@, 0);
    reveal_strlit("TriggerObjects");
    lemma_parts_from(t, "TriggerObjects"@, 7);
    reveal_strlit("Targeted");
    lemma_parts_from(t, "Targeted"@, 1);
    reveal_strlit("TargetedCard");
    lemma_parts_from(t, "TargetedCard"@, 1);
    reveal_strlit("ThisTargetedCard");
    lemma_parts_from(t, "ThisTargetedCard"@, 1);
    reveal_strlit("ParentTarget");
    lemma_parts_from(t, "ParentTarget"@, 0);
    reveal_strlit("ParentTargeted");
    lemma_parts_from(t, "ParentTargeted"@, 0);
    reveal_strlit("TriggeredCard");
    lemma_parts_from(t, "TriggeredCard"@, 9);
    reveal_strlit("TriggeredCardLKICopy");
    lemma_parts_from(t, "TriggeredCardLKICopy"@, 9);
    reveal_strlit("ReplacedCard");
    lemma_parts_from(t, "ReplacedCard"@, 0);
    reveal_strlit("TriggeredNewCard");
    lemma_parts_from(t, "TriggeredNewCard"@, 9);
    reveal_strlit("TriggeredNewCardLKICopy");
    lemma_parts_from(t, "TriggeredNewCardLKICopy"@, 9);
    reveal_strlit("TriggeredAttacker");
    lemma_parts_from(t, "TriggeredAttacker"@, 9);
    reveal_strlit("TriggeredAttackers");
    lemma_parts_from(t, "TriggeredAttackers"@, 9);
    reveal_strlit("TriggeredBlocker");
    lemma_parts_from(t, "TriggeredBlocker"@, 9);
}

proof fn lemma_defined_6(game: GameState, source: CardId, sa: AbilityView)
    requires
        game.card_at(source) is Some,
    ensures
        defined_cards("Discarded"@, game, source, sa) == sa.discarded_cost_cards,
{
    let t = "Discarded"@;
    reveal_strlit("Discarded");
    reveal_strlit("AllTargeted");
    lemma_parts_from(t, "AllTargeted"@, 0);
    reveal_strlit("TriggerObjects");
    lemma_parts_from(t, "TriggerObjects"@, 0);
    reveal_strlit("Targeted");
    lemma_parts_from(t, "Targeted"@, 0);
    reveal_strlit("TargetedCard");
    lemma_parts_from(t, "TargetedCard"@, 0);
    reveal_strlit("ThisTargetedCard");
    lemma_parts_from(t, "ThisTargetedCard"@, 0);
    reveal_strlit("ParentTarget");
    lemma_parts_from(t, "ParentTarget"@, 0);
    reveal_strlit("ParentTargeted");
    lemma_parts_from(t, "ParentTargeted"@, 0);
    reveal_strlit("TriggeredCard");
    lemma_parts_from(t, "TriggeredCard"@, 0);
    reveal_strlit("TriggeredCardLKICopy");
    lemma_parts_from(t, "TriggeredCardLKICopy"@, 0);
    reveal_strlit("ReplacedCard");
    lemma_parts_from(t, "ReplacedCard"@, 0);
    reveal_strlit("TriggeredNewCard");
    lemma_parts_from(t, "TriggeredNewCard"@, 0);
    reveal_strlit("TriggeredNewCardLKICopy");
    lemma_parts_from(t, "TriggeredNewCardLKICopy"@, 0);
    reveal_strlit("TriggeredAttacker");
    lemma_parts_from(t, "TriggeredAttacker"@, 0);
    reveal_strlit("TriggeredAttackers");
    lemma_parts_from(t, "TriggeredAttackers"@, 0);
    reveal_strlit("TriggeredBlocker");
    lemma_parts_from(t, "TriggeredBlocker"@, 0);
    reveal_strlit("TriggeredTarget");
    lemma_parts_from(t, "TriggeredTarget"@, 0);
    reveal_strlit("TriggeredTargetLKICopy");
    lemma_parts_from(t, "TriggeredTargetLKICopy"@, 0);
    reveal_strlit("TriggeredTargets");
    lemma_parts_from(t, "TriggeredTargets"@, 0);
    reveal_strlit("Explorer");
    lemma_parts_from(t, "Explorer"@, 0);
    reveal_strlit("Explored");
    lemma_parts_from(t, "Explored"@, 0);
}

proof fn lemma_defined_7(game: GameState, source: CardId, sa: AbilityView)
    requires
        game.card_at(source) is Some,
    ensures
        defined_cards("Remembered"@, game, source, sa) == game.card_at(source)->0.remembered_cards@,
{
    let t = "Remembered"@;
    reveal_strlit("Remembered");
    reveal_strlit("AllTargeted");
    lemma_parts_from(t, "AllTargeted"@, 0);
    reveal_strlit("TriggerObjects");
    lemma_parts_from(t, "TriggerObjects"@, 0);
    reveal_strlit("Targeted");
    lemma_parts_from(t, "Targeted"@, 0);
    reveal_strlit("TargetedCard");
    lemma_parts_from(t, "TargetedCard"@, 0);
    reveal_strlit("ThisTargetedCard");
    lemma_parts_from(t, "ThisTargetedCard"@, 0);
    reveal_strlit("ParentTarget");
    lemma_parts_from(t, "ParentTarget"@, 0);
    reveal_strlit("ParentTargeted");
    lemma_parts_from(t, "ParentTargeted"@, 0);
    reveal_strlit("TriggeredCard");
    lemma_parts_from(t, "TriggeredCard"@, 0);
    reveal_strlit("TriggeredCardLKICopy");
    lemma_parts_from(t, "TriggeredCardLKICopy"@, 0);
    reveal_strlit("ReplacedCard");
    lemma_parts_from(t, "ReplacedCard"@, 2);
    reveal_strlit("TriggeredNewCard");
    lemma_parts_from(t, "TriggeredNewCard"@, 0);
    reveal_strlit("TriggeredNewCardLKICopy");
    lemma_parts_from(t, "TriggeredNewCardLKICopy"@, 0);
    reveal_strlit("TriggeredAttacker");
    lemma_parts_from(t, "TriggeredAttacker"@, 0);
    reveal_strlit("TriggeredAttackers");
    lemma_parts_from(t, "TriggeredAttackers"@, 0);
    reveal_strlit("TriggeredBlocker");
    lemma_parts_from(t, "TriggeredBlocker"@, 0);
    reveal_strlit("TriggeredTarget");
    lemma_parts_from(t, "TriggeredTarget"@, 0);
    reveal_strlit("TriggeredTargetLKICopy");
    lemma_parts_from(t, "TriggeredTargetLKICopy"@, 0);
    reveal_strlit("TriggeredTargets");
    lemma_parts_from(t, "TriggeredTargets"@, 0);
    reveal_strlit("Explorer");
    lemma_parts_from(t, "Explorer"@, 0);
    reveal_strlit("Explored");
    lemma_parts_from(t, "Explored"@, 0);
    reveal_strlit("Discarded");
    lemma_parts_from(t, "Discarded"@, 0);
    reveal_strlit("Sacrificed");
    lemma_parts_from(t, "Sacrificed"@, 0);
}

proof fn lemma_defined_8(game: GameState, source: CardId, sa: AbilityView)
    requires
        game.card_at(source) is Some,
    ensures
        defined_cards("Imprinted"@, game, source, sa) == game.card_at(source)->0.imprinted_cards@,
{
    let t = "Imprinted"@;
    reveal_strlit("Imprinted");
    reveal_strlit("AllTargeted");
    lemma_parts_from(t, "AllTargeted"@, 0);
    reveal_strlit("TriggerObjects");
    lemma_parts_from(t, "TriggerObjects"@, 0);
    reveal_strlit("Targeted");
    lemma_parts_from(t, "Targeted"@, 0);
    reveal_strlit("TargetedCard");
    lemma_parts_from(t, "TargetedCard"@, 0);
    reveal_strlit("ThisTargetedCard");
    lemma_parts_from(t, "ThisTargetedCard"@, 0);
    reveal_strlit("ParentTarget");
    lemma_parts_from(t, "ParentTarget"@, 0);
    reveal_strlit("ParentTargeted");
    lemma_parts_from(t, "ParentTargeted"@, 0);
    reveal_strlit("TriggeredCard");
    lemma_parts_from(t, "TriggeredCard"@, 0);
    reveal_strlit("TriggeredCardLKICopy");
    lemma_parts_from(t, "TriggeredCardLKICopy"@, 0);
    reveal_strlit("ReplacedCard");
    lemma_parts_from(t, "ReplacedCard"@, 0);
    reveal_strlit("TriggeredNewCard");
    lemma_parts_from(t, "TriggeredNewCard"@, 0);
    reveal_strlit("TriggeredNewCardLKICopy");
    lemma_parts_from(t, "TriggeredNewCardLKICopy"@, 0);
    reveal_strlit("TriggeredAttacker");
    lemma_parts_from(t, "TriggeredAttacker"@, 0);
    reveal_strlit("TriggeredAttackers");
    lemma_parts_from(t, "TriggeredAttackers"@, 0);
    reveal_strlit("TriggeredBlocker");
    lemma_parts_from(t, "TriggeredBlocker"@, 0);
    reveal_strlit("TriggeredTarget");
    lemma_parts_from(t, "TriggeredTarget"@, 0);
    reveal_strlit("TriggeredTargetLKICopy");
    lemma_parts_from(t, "TriggeredTargetLKICopy"@, 0);
    reveal_strlit("TriggeredTargets");
    lemma_parts_from(t, "TriggeredTargets"@, 0);
    reveal_strlit("Explorer");
    lemma_parts_from(t, "Explorer"@, 0);
    reveal_strlit("Explored");
    lemma_parts_from(t, "Explored"@, 0);
    reveal_strlit("Discarded");
    lemma_parts_from(t, "Discarded"@, 0);
    reveal_strlit("Sacrificed");
    lemma_parts_from(t, "Sacrificed"@, 0);
    reveal_strlit("Remembered");
    lemma_parts_from(t, "Remembered"@, 0);
    reveal_strlit("RememberedLKI");
    lemma_parts_from(t, "RememberedLKI"@, 0);
    reveal_strlit("DelayTriggerRememberedLKI");
    lemma_parts_from(t, "DelayTriggerRememberedLKI"@, 0);
    reveal_strlit("DelayTriggerRemembered");
    lemma_parts_from(t, "DelayTriggerRemembered"@, 0);
    reveal_strlit("TriggerRemembered");
    lemma_parts_from(t, "TriggerRemembered"@, 0);
}

/// Cards that are counted once each: one more card counts where it was not counted yet.
pub proof fn law_distinct_cards(ids: Seq<CardId>, id: CardId)
    ensures
        distinct_cards(ids).contains(id) ==> distinct_cards(ids.push(id)) == distinct_cards(ids),
        !distinct_cards(ids).contains(id) ==> distinct_cards(ids.push(id)) == distinct_cards(
            ids,
        ).push(id),
        distinct_cards(Seq::empty()).len() == 0,
{
    assert(ids.push(id).drop_last() =~= ids);
}

// ---- auras ----

/// What an aura can enchant: a card in play of the type that it names.
pub proof fn law_auras(facts: Facts, kind: Seq<char>, card: Card, aura: Option<Card>)
    requires
        trimmed(kind) == kind,
        !kind.contains(':'),
    ensures
        lower_case(kind) == "creature"@ ==> (enchantable(facts, kind, card, aura) <==> card.zone
            == ZoneType::Battlefield && card.types.creature),
        lower_case(kind) == "land"@ ==> (enchantable(facts, kind, card, aura) <==> card.zone
            == ZoneType::Battlefield && card.types.land),
        lower_case(kind) == "artifact"@ ==> (enchantable(facts, kind, card, aura) <==> card.zone
            == ZoneType::Battlefield && card.types.artifact),
        lower_case(kind) == "enchantment"@ ==> (enchantable(facts, kind, card, aura) <==> card.zone
            == ZoneType::Battlefield && card.types.enchantment),
        lower_case(kind) == "planeswalker"@ ==> (enchantable(facts, kind, card, aura) <==> card.zone
            == ZoneType::Battlefield && card.types.planeswalker),
        lower_case(kind) == "permanent"@ ==> (enchantable(facts, kind, card, aura) <==> card.zone
            == ZoneType::Battlefield),
        lower_case(kind) == "creature.inzonegraveyard"@ ==> (enchantable(facts, kind, card, aura)
            <==> card.zone == ZoneType::Graveyard && card.types.creature),
{
    reveal_strlit(":");
    assert(":"@ =~= seq![':']);
    lemma_no_mark(kind, ':');
    reveal_strlit("creature");
    reveal_strlit("creature.inzonegraveyard");
    reveal_strlit("land");
    reveal_strlit("artifact");
    reveal_strlit("enchantment");
    reveal_strlit("planeswalker");
    reveal_strlit("permanent");
    assert("creature"@[0] == 'c' && "artifact"@[0] == 'a');
    assert("creature"@.len() == 8 && "creature.inzonegraveyard"@.len() == 24 && "land"@.len() == 4
        && "artifact"@.len() == 8 && "enchantment"@.len() == 11 && "planeswalker"@.len() == 12
        && "permanent"@.len() == 9);
}

/// Scripts are told by how they start.
pub proof fn law_kinds_of_scripts(raw: Seq<char>)
    ensures
        has_prefix(trimmed(raw), "S$"@) || has_prefix(trimmed(raw), "S:"@) <==> meant_to_parse(
            "StaticAbility"@,
            raw,
        ),
        has_prefix(trimmed(raw), "R$"@) || has_prefix(trimmed(raw), "R:"@) <==> meant_to_parse(
            "ReplacementEffect"@,
            raw,
        ),
        has_prefix(trimmed(raw), "T$"@) || has_prefix(trimmed(raw), "T:"@) <==> meant_to_parse(
            "Trigger"@,
            raw,
        ),
        has_prefix(trimmed(raw), "AB$"@) || has_prefix(trimmed(raw), "AB:"@) <==> meant_to_parse(
            "ActivatedAbility"@,
            raw,
        ),
{
    reveal_strlit("StaticAbility");
    reveal_strlit("ReplacementEffect");
    reveal_strlit("Trigger");
    reveal_strlit("ActivatedAbility");
    assert("StaticAbility"@.len() == 13 && "ReplacementEffect"@.len() == 17 && "Trigger"@.len() == 7
        && "ActivatedAbility"@.len() == 16);
}

} // verus!
