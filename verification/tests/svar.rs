use manabrew_engine::game::{Card, GameState, SVar};
use manabrew_engine::spell::{AbilityValue, NamedSpell, SpellAbility};
use manabrew_engine::svar::eval::{resolve_numeric_svar, resolve_svar_expression};
use manabrew_engine::types::{AbilityKey, CardId, PlayerId, ZoneType};

fn creature(name: &str, owner: PlayerId) -> Card {
    let mut card = Card::new(CardId(0), name, owner);
    card.types.creature = true;
    card.power = 1;
    card.toughness = 1;
    card
}

fn host_with(owner: PlayerId, svars: &[(&str, &str)]) -> Card {
    let mut host = creature("Host", owner);
    for (name, value) in svars {
        host.svars.push(SVar { name: name.to_string(), value: value.to_string() });
    }
    host
}

fn expression(game: &GameState, sa: &SpellAbility, host: CardId, you: PlayerId, name: &str) -> i32 {
    let text = game.cards[host.0 as usize].get_s_var(name).unwrap();
    resolve_svar_expression(text, game, host, you, sa)
}

#[test]
fn resolves_player_count_defined_life_total_twice() {
    let mut game = GameState::new(2, 20);
    let p0 = PlayerId(0);
    let p1 = PlayerId(1);
    game.players[1].life = 7;
    let host_id = game.create_card(host_with(
        p0,
        &[("X", "PlayerCountDefinedTriggeredAttackedTarget$LifeTotal/Twice")],
    ));
    let mut sa = SpellAbility::new_simple(Some(host_id), p0, "DB$ GainLife | LifeAmount$ X");
    sa.set_triggering_value(AbilityKey::AttackedTarget, AbilityValue::Player(p1));
    assert_eq!(resolve_numeric_svar(&game, &sa, "LifeAmount", 0), 14);
}

#[test]
fn resolves_player_count_highest_life_total() {
    let mut game = GameState::new(2, 20);
    let p0 = PlayerId(0);
    game.players[0].life = 11;
    game.players[1].life = 17;
    let host_id = game.create_card(host_with(p0, &[("X", "PlayerCountPlayers$HighestLifeTotal")]));
    let sa = SpellAbility::new_simple(Some(host_id), p0, "DB$ GainLife | LifeAmount$ X");
    assert_eq!(resolve_numeric_svar(&game, &sa, "LifeAmount", 0), 17);
}

#[test]
fn resolves_triggered_target_life_total_half_up() {
    let mut game = GameState::new(2, 20);
    let p0 = PlayerId(0);
    let p1 = PlayerId(1);
    game.players[1].life = 9;
    let host_id = game.create_card(host_with(p0, &[("X", "TriggeredTarget$LifeTotal/HalfUp")]));
    let mut sa = SpellAbility::new_simple(
        Some(host_id),
        p0,
        "DB$ LoseLife | Defined$ TriggeredTarget | LifeAmount$ X",
    );
    sa.set_triggering_value(AbilityKey::TargetPlayer, AbilityValue::Player(p1));
    assert_eq!(resolve_numeric_svar(&game, &sa, "LifeAmount", 0), 5);
}

#[test]
fn resolves_player_count_minus_remembered_amount() {
    let mut game = GameState::new(2, 20);
    let p0 = PlayerId(0);
    let p1 = PlayerId(1);
    let remembered_id = game.create_card(creature("Remembered", p1));
    let host_id = game.create_card(host_with(
        p0,
        &[("X", "PlayerCountOpponents$Amount/Minus.Remembered$Amount")],
    ));
    game.cards[host_id.0 as usize].remembered_cards.push(remembered_id);
    let sa = SpellAbility::new_simple(Some(host_id), p0, "DB$ Draw | NumCards$ X");
    assert_eq!(resolve_numeric_svar(&game, &sa, "NumCards", -1), 0);
}

#[test]
fn resolves_player_count_minus_empty_remembered_amount() {
    let mut game = GameState::new(2, 20);
    let p0 = PlayerId(0);
    let host_id = game.create_card(host_with(
        p0,
        &[("X", "PlayerCountOpponents$Amount/Minus.Remembered$Amount")],
    ));
    let sa = SpellAbility::new_simple(Some(host_id), p0, "DB$ Draw | NumCards$ X");
    assert_eq!(resolve_numeric_svar(&game, &sa, "NumCards", -1), 1);
}

#[test]
fn resolves_player_count_remembered_life_lost_this_turn() {
    let mut game = GameState::new(2, 20);
    let p0 = PlayerId(0);
    let p1 = PlayerId(1);
    game.players[1].life_lost_this_turn = 11;
    let host_id =
        game.create_card(host_with(p0, &[("X", "PlayerCountRemembered$LifeLostThisTurn")]));
    game.cards[host_id.0 as usize].remembered_players.push(p1);
    let sa = SpellAbility::new_simple(Some(host_id), p0, "DB$ LoseLife | LifeAmount$ X");
    assert_eq!(resolve_numeric_svar(&game, &sa, "LifeAmount", -1), 11);
}

#[test]
fn resolves_triggered_spell_ability_card_mana_cost_lki() {
    let mut game = GameState::new(2, 20);
    let p0 = PlayerId(0);
    let p1 = PlayerId(1);
    let host_id =
        game.create_card(host_with(p0, &[("X", "TriggeredSpellAbility$CardManaCostLKI")]));
    let mut spell_card = Card::new(CardId(1), "Big Spell", p1);
    spell_card.types.sorcery = true;
    spell_card.cmc = 1;
    spell_card.mana_value = 1;
    spell_card.x_symbols = 1;
    spell_card.zone = ZoneType::Graveyard;
    let spell_id = game.create_card(spell_card);
    let mut triggered_sa =
        SpellAbility::new_simple(Some(spell_id), p1, "SP$ DealDamage | NumDmg$ 1");
    triggered_sa.x_mana_cost_paid = 4;
    let mut sa = SpellAbility::new_simple(Some(host_id), p0, "DB$ GainLife | LifeAmount$ X");
    sa.defined_spells.push(NamedSpell {
        name: "TriggeredSpellAbility".to_string(),
        ability: triggered_sa,
    });
    assert_eq!(resolve_numeric_svar(&game, &sa, "LifeAmount", 0), 5);
}

#[test]
fn resolves_count_your_speed_and_max_speed() {
    let mut game = GameState::new(2, 20);
    let p0 = PlayerId(0);
    game.players[0].speed = 4;
    let host_id = game.create_card(host_with(
        p0,
        &[("X", "Count$YourSpeed"), ("Y", "Count$MaxSpeed.2.1")],
    ));
    let sa =
        SpellAbility::new_simple(Some(host_id), p0, "DB$ GainLife | LifeAmount$ X | NumCards$ Y");
    assert_eq!(resolve_numeric_svar(&game, &sa, "LifeAmount", 0), 4);
    assert_eq!(resolve_numeric_svar(&game, &sa, "NumCards", 0), 2);
}

#[test]
fn resolves_attackers_declared_and_life_lost_last_turn() {
    let mut game = GameState::new(2, 20);
    let p0 = PlayerId(0);
    let mut attacker = creature("Attacker", p0);
    attacker.power = 2;
    attacker.toughness = 2;
    attacker.attacked_this_turn = true;
    game.create_card(attacker);
    game.players[0].life_lost_last_turn = 3;
    let host_id = game.create_card(host_with(
        p0,
        &[
            ("X", "Count$AttackersDeclared"),
            ("Y", "PlayerCountPropertyYou$LifeLostLastTurn"),
        ],
    ));
    let sa =
        SpellAbility::new_simple(Some(host_id), p0, "DB$ GainLife | LifeAmount$ X | NumCards$ Y");
    assert_eq!(resolve_numeric_svar(&game, &sa, "LifeAmount", 0), 1);
    assert_eq!(resolve_numeric_svar(&game, &sa, "NumCards", 0), 3);
}

#[test]
fn resolves_top_of_library_cmc() {
    let mut game = GameState::new(2, 20);
    let p0 = PlayerId(0);
    let mut top = Card::new(CardId(0), "Top", p0);
    top.types.sorcery = true;
    top.cmc = 3;
    top.mana_value = 3;
    top.zone = ZoneType::Library;
    let top_id = game.create_card(top);
    game.zone_order.push(top_id);
    let host_id = game.create_card(host_with(p0, &[("X", "Count$TopOfLibraryCMC")]));
    let sa = SpellAbility::new_simple(Some(host_id), p0, "DB$ GainLife | LifeAmount$ X");
    assert_eq!(resolve_numeric_svar(&game, &sa, "LifeAmount", 0), 3);
}

#[test]
fn resolves_player_property_counters_for_discard_damage_and_combat() {
    let mut game = GameState::new(2, 20);
    let p0 = PlayerId(0);
    let p1 = PlayerId(1);
    game.players[0].discarded_this_turn = 2;
    game.players[0].explored_this_turn = 1;
    game.players[0].opponents_assigned_damage_this_turn = 4;
    game.players[0].assigned_damage_this_turn = 7;
    game.players[0].assigned_combat_damage_this_turn = 2;
    game.players[0].attacked_players_this_combat.push(p1);
    game.players[0].been_dealt_combat_damage_since_last_turn = true;
    let host_id = game.create_card(host_with(
        p0,
        &[
            ("A", "PlayerCountPropertyYou$CardsDiscardedThisTurn"),
            ("B", "PlayerCountPropertyYou$ExploredThisTurn"),
            ("C", "PlayerCountPropertyYou$DamageToOppsThisTurn"),
            ("D", "PlayerCountPropertyYou$NonCombatDamageDealtThisTurn"),
            ("E", "PlayerCountPropertyYou$OpponentsAttackedThisCombat"),
            ("F", "PlayerCountPropertyYou$BeenDealtCombatDamageSinceLastTurn"),
        ],
    ));
    let sa =
        SpellAbility::new_simple(Some(host_id), p0, "DB$ GainLife | LifeAmount$ A | NumCards$ B");
    assert_eq!(resolve_numeric_svar(&game, &sa, "LifeAmount", 0), 2);
    assert_eq!(resolve_numeric_svar(&game, &sa, "NumCards", 0), 1);
    assert_eq!(expression(&game, &sa, host_id, p0, "C"), 4);
    assert_eq!(expression(&game, &sa, host_id, p0, "D"), 5);
    assert_eq!(expression(&game, &sa, host_id, p0, "E"), 1);
    assert_eq!(expression(&game, &sa, host_id, p0, "F"), 1);
}

#[test]
fn resolves_trigger_result_sum_and_max_from_trigger_objects() {
    let mut game = GameState::new(2, 20);
    let p0 = PlayerId(0);
    let host_id = game.create_card(host_with(
        p0,
        &[("Sum", "TriggerCount$Result"), ("Max", "TriggerCountMax$Result")],
    ));
    let mut sa = SpellAbility::new_simple(Some(host_id), p0, "DB$ Draw | NumCards$ Sum");
    sa.set_triggering_value(AbilityKey::Result, AbilityValue::Text("4,11,7".to_string()));
    assert_eq!(expression(&game, &sa, host_id, p0, "Sum"), 22);
    assert_eq!(expression(&game, &sa, host_id, p0, "Max"), 11);
}
