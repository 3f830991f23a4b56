//! What static abilities allow and ask for.

use vstd::prelude::*;
use crate::game::{Card, Facts, GameState, StaticAbility, StaticMode};
use crate::laws::numbers::lemma_number_chars;
use crate::staticability::activations::{host_value, with_static, Limit};
use crate::staticability::attack::{asked, MustAttackEntity};
use crate::staticability::may_play::{
    cast_by, lets_play, opens_zone, other_cost, permitted_player, times_used,
};
use crate::staticability::plot::{may_plot, opens_plot};
use crate::staticability::prevention::{is_unpreventable, keeps_damage};
use crate::text::int_value;
use crate::types::{CardId, PlayerId, ZoneType};

verus! {

/// Whether an ability that names cards means a card; without a name it means every card.
pub open spec fn means_card(facts: Facts, named: Option<String>, host: Card, id: CardId) -> bool {
    named is Some ==> facts.matches_card(named->0@, host.id, host.controller, id)
}

/// Whether an ability that names players means a player.
pub open spec fn means_player(
    facts: Facts,
    named: Option<String>,
    host: Card,
    player: PlayerId,
) -> bool {
    named is Some ==> facts.matches_player(named->0@, host.id, host.controller, player)
}

/// Whether static abilities of a card in a zone work: not in the hand, the library and the like.
pub open spec fn is_in_play(zone: ZoneType) -> bool {
    zone == ZoneType::Battlefield || zone == ZoneType::Graveyard || zone == ZoneType::Exile || zone
        == ZoneType::Command || zone == ZoneType::Stack
}

/// Whether a card has an ability that keeps damage of a source from being prevented.
pub open spec fn keeps(game: GameState, host: Card, k: int, source: CardId, is_combat: bool) -> bool {
    let st = host.static_abilities@[k];
    &&& 0 <= k < host.static_abilities@.len()
    &&& is_in_play(host.zone) || host.id == source
    &&& st.mode == StaticMode::CantPreventDamage
    &&& st.conditions_met
    &&& st.is_combat is Some ==> st.is_combat == Some(is_combat)
    &&& means_card(game.facts, st.valid_source, host, source)
}

/// Damage cannot be prevented exactly where a card in play, or its source, has an ability whose
/// conditions are met that says so of such damage and of that source.
pub proof fn law_damage_that_stays(game: GameState, source: CardId, is_combat: bool)
    ensures
        is_unpreventable(game, source, is_combat) <==> exists|i: int, k: int|
            0 <= i < game.cards@.len() && #[trigger] keeps(
                game,
                game.cards@[i],
                k,
                source,
                is_combat,
            ),
{
    if is_unpreventable(game, source, is_combat) {
        let i = choose|i: int|
            0 <= i < game.cards@.len() && keeps_damage(
                game,
                #[trigger] game.cards@[i],
                source,
                is_combat,
            );
        let host = game.cards@[i];
        let k = choose|k: int|
            0 <= k < host.static_abilities@.len() && crate::staticability::common::works(
                #[trigger] host.static_abilities@[k],
                StaticMode::CantPreventDamage,
            ) && crate::staticability::prevention::speaks_of(
                game.facts,
                host.static_abilities@[k],
                source,
                host,
                is_combat,
            );
        assert(keeps(game, game.cards@[i], k, source, is_combat));
    }
    if exists|i: int, k: int|
        0 <= i < game.cards@.len() && #[trigger] keeps(game, game.cards@[i], k, source, is_combat) {
        let (i, k) = choose|i: int, k: int|
            0 <= i < game.cards@.len() && #[trigger] keeps(
                game,
                game.cards@[i],
                k,
                source,
                is_combat,
            );
        let host = game.cards@[i];
        assert(crate::staticability::common::works(
            host.static_abilities@[k],
            StaticMode::CantPreventDamage,
        ));
        assert(keeps_damage(game, game.cards@[i], source, is_combat));
    }
}

/// Whether a card has an ability that lets another be plotted.
pub open spec fn lets_plot(game: GameState, host: Card, k: int, id: CardId) -> bool {
    let st = host.static_abilities@[k];
    &&& 0 <= k < host.static_abilities@.len()
    &&& is_in_play(host.zone)
    &&& st.mode == StaticMode::PlotZone
    &&& st.conditions_met
    &&& means_card(game.facts, st.valid_card, host, id)
}

/// A card can be plotted from where it is exactly where a card in play lets it.
pub proof fn law_plotting(game: GameState, id: CardId)
    ensures
        may_plot(game, id) <==> exists|i: int, k: int|
            0 <= i < game.cards@.len() && #[trigger] lets_plot(game, game.cards@[i], k, id),
{
    if may_plot(game, id) {
        let i = choose|i: int|
            0 <= i < game.cards@.len() && opens_plot(game, #[trigger] game.cards@[i], id);
        let host = game.cards@[i];
        let k = choose|k: int|
            0 <= k < host.static_abilities@.len() && crate::staticability::common::works(
                #[trigger] host.static_abilities@[k],
                StaticMode::PlotZone,
            ) && crate::staticability::common::takes_card(
                game.facts,
                crate::parsing::params::string_of(host.static_abilities@[k].valid_card),
                host,
                id,
            );
        assert(lets_plot(game, game.cards@[i], k, id));
    }
    if exists|i: int, k: int|
        0 <= i < game.cards@.len() && #[trigger] lets_plot(game, game.cards@[i], k, id) {
        let (i, k) = choose|i: int, k: int|
            0 <= i < game.cards@.len() && #[trigger] lets_plot(game, game.cards@[i], k, id);
        let host = game.cards@[i];
        assert(crate::staticability::common::works(
            host.static_abilities@[k],
            StaticMode::PlotZone,
        ));
        assert(opens_plot(game, game.cards@[i], id));
    }
}

/// A static ability lets a card be played exactly where it does so at all, its conditions are met, it
/// is for the zone of the card (the hand, where it names none), it means the card, and it has not been
/// used as often as it may be.
pub proof fn law_playing_cards(game: GameState, st: StaticAbility, source: Card, card: Card)
    ensures
        st.affected_defined is None ==> (lets_play(game, st, source, card) <==> {
            &&& st.may_play
            &&& st.conditions_met
            &&& st.affected_zones@.len() == 0 ==> card.zone == ZoneType::Hand
            &&& st.affected_zones@.len() > 0 ==> st.affected_zones@.contains(card.zone)
            &&& st.may_play_limit is Some ==> times_used(game, st, source) < st.may_play_limit->0
            &&& means_card(game.facts, st.affected, source, card.id)
        }),
        st.affected_defined is Some && lets_play(game, st, source, card)
            ==> game.facts.cards_defined(st.affected_defined->0@, source.id).contains(card.id),
        lets_play(game, st, source, card) && st.may_play_without_mana_cost ==> other_cost(
            game,
            st,
            source,
            card,
        ) == Some("0"@),
        lets_play(game, st, source, card) && !st.may_play_without_mana_cost ==> (
        st.may_play_alt_mana_cost matches Some(t) ==> other_cost(game, st, source, card) == Some(
            t@,
        )),
        !lets_play(game, st, source, card) ==> other_cost(game, st, source, card) is None,
        lets_play(game, st, source, card) ==> (opens_zone(game, st, source, card)
            <==> st.may_play_grants_zone_permissions),
{
}

/// Each card that was cast in the turn by a permission counts once against its limit, and others do
/// not.
pub proof fn law_uses_of_permissions(
    game: GameState,
    ids: Seq<CardId>,
    id: CardId,
    source: CardId,
    index: Option<usize>,
)
    ensures
        cast_by(game, Seq::empty(), source, index) == 0,
        game.card_at(id) matches Some(c) && (c.cast_record matches Some(r) && r.may_play_source
            == Some(source) && r.may_play_static == index) ==> cast_by(
            game,
            ids.push(id),
            source,
            index,
        ) == cast_by(game, ids, source, index) + 1,
        !(game.card_at(id) matches Some(c) && (c.cast_record matches Some(r) && r.may_play_source
            == Some(source) && r.may_play_static == index)) ==> cast_by(
            game,
            ids.push(id),
            source,
            index,
        ) == cast_by(game, ids, source, index),
{
    assert(ids.push(id).drop_last() =~= ids);
}

/// Who may play a card by a permission: its owner, the active player, the first player or, without a
/// name, the one who controls the source.
pub proof fn law_who_may_play(game: GameState, st: StaticAbility, source: Card, card: Card)
    ensures
        st.may_play_player is None ==> permitted_player(game, st, source, card)
            == source.controller,
        st.may_play_player matches Some(t) && t@ == "CardOwner"@ ==> permitted_player(
            game,
            st,
            source,
            card,
        ) == card.owner,
        st.may_play_player matches Some(t) && (t@ == "ActivePlayer"@ || t@ == "Player.Active"@)
            ==> permitted_player(game, st, source, card) == game.active_player,
        st.may_play_player matches Some(t) && t@ == "Player"@ ==> permitted_player(
            game,
            st,
            source,
            card,
        ) == game.player_order@[0],
{
    reveal_strlit("CardOwner");
    reveal_strlit("ActivePlayer");
    reveal_strlit("Player.Active");
    reveal_strlit("Player");
    assert("CardOwner"@.len() == 9 && "ActivePlayer"@.len() == 12 && "Player.Active"@.len() == 13
        && "Player"@.len() == 6);
}

/// A number that an ability of a card is written with is that number.
proof fn lemma_host_value(game: GameState, host: Card, t: Seq<char>)
    requires
        int_value(t) is Some,
    ensures
        host_value(game, host, t) == int_value(t)->0,
{
    lemma_number_chars(t, ' ');
}

/// What an ability says of how often others can be activated raises the least that is allowed to its
/// number, never lowers it, adds what it adds, and lifts the limit where it says minus one. One that
/// does not work, or means another card or player, changes nothing.
pub proof fn law_limits_of_activations(
    game: GameState,
    st: StaticAbility,
    host: Card,
    card: CardId,
    ability: u32,
    activator: PlayerId,
    l: Limit,
)
    requires
        !l.unlimited,
        st.valid_sa is None,
    ensures
        ({
            let after = with_static(game, st, host, card, ability, activator, l);
            let means = st.mode == StaticMode::Activations && st.conditions_met && means_card(
                game.facts,
                st.valid_card,
                host,
                card,
            ) && means_player(game.facts, st.valid_player, host, activator);
            &&& !means ==> after == l
            &&& means && st.additional_text is None && (st.min_limit_text matches Some(t)
                && int_value(t@) == Some(-1int)) ==> after.unlimited
            &&& means && st.additional_text is None && (st.min_limit_text matches Some(t)
                && int_value(t@) is Some && int_value(t@)->0 > l.least) ==> !after.unlimited
                && after.least == int_value(st.min_limit_text->0@)->0 && after.more == l.more
            &&& means && st.additional_text is None && (st.min_limit_text matches Some(t)
                && int_value(t@) is Some && 0 <= int_value(t@)->0 <= l.least) ==> after == l
            &&& means && st.min_limit_text is None && (st.additional_text matches Some(t)
                && int_value(t@) is Some && 0 <= int_value(t@)->0 && l.more + int_value(t@)->0
                <= u32::MAX) ==> after.more == l.more + int_value(st.additional_text->0@)->0
                && after.least == l.least && !after.unlimited
        }),
{
    if let Some(t) = st.min_limit_text {
        if int_value(t@) is Some {
            lemma_host_value(game, host, t@);
        }
    }
    if let Some(t) = st.additional_text {
        if int_value(t@) is Some {
            lemma_host_value(game, host, t@);
        }
    }
}

/// A static ability asks a creature to attack exactly where it works and means it; where it names
/// nobody to attack, it asks for an attack on anyone.
pub proof fn law_attacks_that_are_asked_for(
    game: GameState,
    st: StaticAbility,
    host: Card,
    attacker: Card,
)
    ensures
        st.mode != StaticMode::MustAttack || !st.conditions_met ==> asked(
            game,
            st,
            host,
            attacker,
        ).len() == 0,
        st.valid_creature is None && !attacker.types.creature ==> asked(
            game,
            st,
            host,
            attacker,
        ).len() == 0,
        !means_card(game.facts, st.valid_creature, host, attacker.id) ==> asked(
            game,
            st,
            host,
            attacker,
        ).len() == 0,
        st.mode == StaticMode::MustAttack && st.conditions_met && st.must_attack is None && (
        st.valid_creature is None ==> attacker.types.creature) && means_card(
            game.facts,
            st.valid_creature,
            host,
            attacker.id,
        ) ==> asked(game, st, host, attacker) == seq![MustAttackEntity::Any],
{
}

} // verus!
