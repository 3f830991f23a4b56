use manabrew_engine::game::{AbilityMatch, Card, CardMatch, GameState, PlayerMatch, ZoneEntry};
use manabrew_engine::parsing::params::Params;
use manabrew_engine::replacement::damage_map::CardDamageMap;
use manabrew_engine::spell::{AbilityValue, GameEntity, SpellAbility};
use manabrew_engine::trigger::cast::{
    cast_mode, matches_valid_sa_on_card, TriggerSpellAbilityCastOrCopy,
};
use manabrew_engine::trigger::combat::{
    TriggerAttached, TriggerAttackerBlockedByCreature, TriggerAttacks,
};
use manabrew_engine::trigger::common::{
    RunParams, Trigger, TriggerBehavior, TriggerType, Untapped,
};
use manabrew_engine::trigger::damage::{
    get_damage_amount, get_damage_sources, get_damage_targets, TriggerDamageDone,
    TriggerDamageDoneOnce, TriggerExcessDamageAll,
};
use manabrew_engine::trigger::players::{TriggerPlanarDice, TriggerRingTemptsYou, TriggerScry};
use manabrew_engine::trigger::taps::{
    TriggerManaAdded, TriggerTapAll, TriggerTaps, TriggerUntapAll,
};
use manabrew_engine::trigger::zones::{
    TriggerChangesZoneAll, TriggerDiscardedAll, TriggerLandPlayed, TriggerMilledOnce,
    TriggerTurnFaceUp,
};
use manabrew_engine::types::{AbilityKey, CardId, PlayerId, ZoneType};

const P0: PlayerId = PlayerId(0);
const P1: PlayerId = PlayerId(1);
const HOST: CardId = CardId(0);

/// A host and three more cards; the selector `Mine` takes the first two of them and the player
/// selector `You` the host's controller.
fn table() -> (GameState, Trigger) {
    let mut game = GameState::new(2, 20);
    for i in 0..4u32 {
        let owner = if i == 3 { P1 } else { P0 };
        let mut card = Card::new(CardId(i), "Card", owner);
        card.zone = ZoneType::Battlefield;
        card.types.creature = true;
        card.power = i as i32;
        game.create_card(card);
    }
    for i in 1..3u32 {
        game.facts.card_matches.push(CardMatch {
            selector: "Mine".to_string(),
            source: HOST,
            you: P0,
            card: CardId(i),
        });
    }
    game.facts.player_matches.push(PlayerMatch {
        selector: "You".to_string(),
        source: HOST,
        you: P0,
        player: P0,
    });
    (game, Trigger { host: HOST, controller: P0 })
}

fn ability() -> SpellAbility {
    SpellAbility::new_simple(Some(HOST), P0, "DB$ Draw")
}

fn texts<T: TriggerBehavior>(t: &T, trigger: &Trigger, p: &RunParams, game: &GameState) -> String {
    let mut sa = ability();
    t.set_triggering_objects(trigger, &mut sa, p, game);
    t.get_important_stack_objects(&sa)
}

#[test]
fn attached_tests_source_and_target() {
    let (game, trigger) = table();
    let t = TriggerAttached::parse(&Params::from_raw("ValidSource$ Mine | ValidTarget$ Mine"));
    assert_eq!(t.trigger_type(), TriggerType::Attached);
    let mut p = RunParams::new();
    assert!(!t.perform_test(&trigger, &p, &game));
    p.source_card = Some(CardId(1));
    p.card = Some(CardId(2));
    assert!(t.perform_test(&trigger, &p, &game));
    p.card = Some(CardId(3));
    assert!(!t.perform_test(&trigger, &p, &game));
    assert_eq!(texts(&t, &trigger, &p, &game), "Attachee: 3");
}

#[test]
fn blockers_are_compared_with_attackers() {
    let (game, trigger) = table();
    let t = TriggerAttackerBlockedByCreature::parse(&Params::from_raw(
        "ValidCard$ Mine | ValidBlocker$ LessPowerThanAttacker",
    ));
    let mut p = RunParams::new();
    p.attacker = Some(CardId(2));
    assert!(!t.perform_test(&trigger, &p, &game));
    p.blocker = Some(CardId(1));
    assert!(t.perform_test(&trigger, &p, &game));
    p.blocker = Some(CardId(3));
    assert!(!t.perform_test(&trigger, &p, &game));
    assert_eq!(texts(&t, &trigger, &p, &game), "Attacker: 2, Blocker: 3");
}

#[test]
fn an_attack_may_have_to_be_alone_and_the_first() {
    let (mut game, trigger) = table();
    let t = TriggerAttacks::parse(&Params::from_raw(
        "ValidCard$ Mine | Alone$ true | FirstAttack$ True | Attacked$ You",
    ));
    assert!(t.alone && t.first_attack);
    let mut p = RunParams::new();
    p.attacker = Some(CardId(1));
    p.attacked_player = Some(P0);
    p.num_attackers = Some(1);
    assert!(t.perform_test(&trigger, &p, &game));
    assert_eq!(texts(&t, &trigger, &p, &game), "Attacker: 1");
    p.num_attackers = Some(2);
    assert!(!t.perform_test(&trigger, &p, &game));
    p.num_attackers = Some(1);
    p.attacked_player = Some(P1);
    assert!(!t.perform_test(&trigger, &p, &game));
    p.attacked_player = Some(P0);
    game.cards[1].attacks_this_turn = 2;
    assert!(!t.perform_test(&trigger, &p, &game));
}

#[test]
fn the_attacker_and_defenders_are_handed_on() {
    let (game, trigger) = table();
    let t = TriggerAttacks::parse(&Params::from_raw(""));
    let mut p = RunParams::new();
    p.attacker = Some(CardId(1));
    p.attacked_card = Some(CardId(3));
    p.defending_player = Some(P1);
    assert!(t.perform_test(&trigger, &p, &game));
    let mut sa = ability();
    t.set_triggering_objects(&trigger, &mut sa, &p, &game);
    assert_eq!(sa.get_triggering_cards(AbilityKey::Attacker), vec![CardId(1)]);
    assert_eq!(sa.get_triggering_cards(AbilityKey::Defender), vec![CardId(3)]);
    assert!(matches!(
        sa.get_triggering_value(AbilityKey::DefendingPlayer),
        Some(AbilityValue::Player(PlayerId(1)))
    ));
}

#[test]
fn damage_is_tested_by_source_target_and_kind() {
    let (game, trigger) = table();
    let t = TriggerDamageDone::parse(&Params::from_raw(
        "ValidSource$ Mine | ValidTarget$ You | CombatDamage$ True",
    ));
    let mut p = RunParams::new();
    p.damage_source = Some(CardId(1));
    p.damage_target_player = Some(P0);
    p.damage_amount = Some(4);
    p.is_combat_damage = Some(true);
    assert!(t.perform_test(&trigger, &p, &game));
    assert_eq!(texts(&t, &trigger, &p, &game), "Damage Source: 1, Damaged: 0, Amount: 4");
    p.is_combat_damage = Some(false);
    assert!(!t.perform_test(&trigger, &p, &game));
    p.is_combat_damage = Some(true);
    p.damage_target_card = Some(CardId(3));
    assert!(!t.perform_test(&trigger, &p, &game));
}

#[test]
fn damage_of_one_batch_is_added_up() {
    let (game, trigger) = table();
    let mut map = CardDamageMap::new();
    map.put(CardId(1), GameEntity::Player(P0), 2);
    map.put(CardId(2), GameEntity::Player(P0), 3);
    map.put(CardId(3), GameEntity::Player(P0), 10);
    let mut p = RunParams::new();
    p.damage_map = Some(map);
    p.damage_target_player = Some(P0);
    assert_eq!(get_damage_amount(&p), 15);
    assert_eq!(get_damage_sources(&p), vec![CardId(1), CardId(2), CardId(3)]);
    let t = TriggerDamageDoneOnce::parse(&Params::from_raw("ValidSource$ Mine | DamageAmount$ GE5"));
    assert_eq!(t.damage_amount(&trigger, &p, &game), 5);
    assert_eq!(t.damage_sources(&trigger, &p, &game), vec![CardId(1), CardId(2)]);
    assert!(t.perform_test(&trigger, &p, &game));
    assert_eq!(texts(&t, &trigger, &p, &game), "Damaged: 0, Amount: 5");
    let t = TriggerDamageDoneOnce::parse(&Params::from_raw("ValidSource$ Mine | DamageAmount$ GE6"));
    assert!(!t.perform_test(&trigger, &p, &game));
    let all = TriggerDamageDoneOnce::parse(&Params::from_raw(""));
    assert_eq!(all.damage_amount(&trigger, &p, &game), get_damage_amount(&p));
    assert_eq!(all.damage_sources(&trigger, &p, &game), get_damage_sources(&p));
}

#[test]
fn no_damage_fires_nothing() {
    let (game, trigger) = table();
    let mut p = RunParams::new();
    p.damage_map = Some(CardDamageMap::new());
    p.damage_target_player = Some(P0);
    let t = TriggerDamageDoneOnce::parse(&Params::from_raw(""));
    assert!(!t.perform_test(&trigger, &p, &game));
    assert!(get_damage_sources(&RunParams::new()).is_empty());
}

#[test]
fn excess_damage_takes_one_matching_target() {
    let (game, trigger) = table();
    let t = TriggerExcessDamageAll::parse(&Params::from_raw("ValidTarget$ Mine"));
    let mut p = RunParams::new();
    p.cards = Some(vec![CardId(3)]);
    assert!(!t.perform_test(&trigger, &p, &game));
    p.cards = Some(vec![CardId(3), CardId(2)]);
    assert!(t.perform_test(&trigger, &p, &game));
    assert_eq!(get_damage_targets(&p), vec![CardId(3), CardId(2)]);
    assert_eq!(texts(&t, &trigger, &p, &game), "Damaged: 3,2");
}

#[test]
fn planar_dice_compare_results() {
    let (game, trigger) = table();
    let t = TriggerPlanarDice::parse(&Params::from_raw("ValidPlayer$ You | Result$ Chaos"));
    let mut p = RunParams::new();
    p.player = Some(P0);
    p.mode = Some("Chaos".to_string());
    assert!(t.perform_test(&trigger, &p, &game));
    assert_eq!(texts(&t, &trigger, &p, &game), "Roller: 0");
    p.mode = Some("Blank".to_string());
    assert!(!t.perform_test(&trigger, &p, &game));
    p.mode = None;
    assert!(!t.perform_test(&trigger, &p, &game));
}

#[test]
fn the_ring_and_scrying() {
    let (game, trigger) = table();
    let mut p = RunParams::new();
    p.player = Some(P0);
    p.card = Some(CardId(1));
    p.num = Some(3);
    let t = TriggerRingTemptsYou::parse(&Params::from_raw("ValidPlayer$ You | ValidCard$ Mine"));
    assert!(t.perform_test(&trigger, &p, &game));
    assert_eq!(texts(&t, &trigger, &p, &game), "Player: 0, ");
    let t = TriggerScry::parse(&Params::from_raw("ValidPlayer$ You"));
    assert!(t.perform_test(&trigger, &p, &game));
    assert_eq!(texts(&t, &trigger, &p, &game), "Scryer: 0, 3");
    p.player = Some(P1);
    assert!(!t.perform_test(&trigger, &p, &game));
}

#[test]
fn a_batch_fires_for_the_cards_it_hands_on() {
    let (game, trigger) = table();
    let t = TriggerTapAll::parse(&Params::from_raw("ValidCards$ Mine"));
    let mut p = RunParams::new();
    assert!(!t.perform_test(&trigger, &p, &game));
    p.cards = Some(vec![CardId(3), CardId(1), CardId(0), CardId(2)]);
    assert!(t.perform_test(&trigger, &p, &game));
    let mut sa = ability();
    t.set_triggering_objects(&trigger, &mut sa, &p, &game);
    assert_eq!(sa.get_triggering_cards(AbilityKey::Cards), vec![CardId(1), CardId(2)]);
    p.cards = Some(vec![CardId(3)]);
    assert!(!t.perform_test(&trigger, &p, &game));
}

#[test]
fn tapping_for_the_first_time() {
    let (mut game, trigger) = table();
    let t = TriggerTaps::parse(&Params::from_raw("ValidCard$ Mine | FirstTime$ True"));
    let mut p = RunParams::new();
    p.card = Some(CardId(1));
    assert!(!t.perform_test(&trigger, &p, &game));
    game.cards[1].tapped_this_turn = 1;
    assert!(t.perform_test(&trigger, &p, &game));
    p.first_time = Some(false);
    assert!(!t.perform_test(&trigger, &p, &game));
    assert_eq!(texts(&t, &trigger, &p, &game), "Tapped: 1");
    let t = TriggerTaps::parse(&Params::from_raw("Teamwork$ True"));
    assert!(!t.perform_test(&trigger, &p, &game));
    let t = TriggerTaps::parse(&Params::from_raw("Attacker$ True"));
    assert!(!t.perform_test(&trigger, &p, &game));
    p.attacker = Some(CardId(1));
    assert!(t.perform_test(&trigger, &p, &game));
}

#[test]
fn untapped_cards_are_counted_by_player() {
    let (game, trigger) = table();
    let t = TriggerUntapAll::parse(&Params::from_raw("ValidPlayer$ You | ValidCards$ Mine"));
    let mut p = RunParams::new();
    p.untapped.push(Untapped { player: P1, cards: vec![CardId(1)] });
    assert!(!t.perform_test(&trigger, &p, &game));
    p.untapped.push(Untapped { player: P0, cards: vec![CardId(1), CardId(2), CardId(3)] });
    assert!(t.perform_test(&trigger, &p, &game));
    assert_eq!(texts(&t, &trigger, &p, &game), "Amount: 2");
}

#[test]
fn produced_mana_is_compared_by_its_text() {
    let (mut game, trigger) = table();
    let t = TriggerManaAdded::parse(&Params::from_raw("ValidSource$ Mine | Produced$ G"));
    let mut p = RunParams::new();
    p.card = Some(CardId(1));
    assert!(!t.perform_test(&trigger, &p, &game));
    p.produced = Some("R G".to_string());
    assert!(t.perform_test(&trigger, &p, &game));
    assert_eq!(texts(&t, &trigger, &p, &game), "Produced: R G");
    let t = TriggerManaAdded::parse(&Params::from_raw("ValidSA$ Activated"));
    game.facts.ability_matches.push(AbilityMatch {
        filter: "Activated".to_string(),
        ability: 3,
        host: HOST,
    });
    assert!(!t.perform_test(&trigger, &p, &game));
    p.ability_mana = Some(2);
    assert!(!t.perform_test(&trigger, &p, &game));
    p.ability_mana = Some(3);
    assert!(t.perform_test(&trigger, &p, &game));
}

#[test]
fn zone_changes_come_together() {
    let (game, trigger) = table();
    let t = TriggerChangesZoneAll::parse(&Params::from_raw(
        "Origin$ Battlefield | Destination$ Graveyard | ValidCards$ Mine | ValidAmount$ GE2",
    ));
    let entry = |i: u32| ZoneEntry {
        card: CardId(i),
        player: PlayerId(0),
        origin: ZoneType::Battlefield,
        destination: ZoneType::Graveyard,
    };
    let mut p = RunParams::new();
    assert!(!t.perform_test(&trigger, &p, &game));
    p.zone_changes = Some(vec![entry(1), entry(2), entry(3)]);
    assert!(t.perform_test(&trigger, &p, &game));
    let mut sa = ability();
    t.set_triggering_objects(&trigger, &mut sa, &p, &game);
    assert_eq!(sa.get_triggering_cards(AbilityKey::Cards), vec![CardId(1), CardId(2)]);
    assert_eq!(sa.trigger_remembered_amount, 2);
    assert_eq!(t.get_important_stack_objects(&sa), "Amount: 2");
    p.zone_changes = Some(vec![entry(1), entry(3)]);
    assert!(!t.perform_test(&trigger, &p, &game));
}

#[test]
fn discarded_and_milled_cards() {
    let (game, trigger) = table();
    let mut p = RunParams::new();
    p.player = Some(P0);
    p.cards = Some(vec![CardId(1), CardId(3)]);
    let t = TriggerDiscardedAll::parse(&Params::from_raw("ValidCard$ Mine | ValidPlayer$ You"));
    assert!(t.perform_test(&trigger, &p, &game));
    assert_eq!(texts(&t, &trigger, &p, &game), "Player: 0, Amount: 1");
    let t = TriggerMilledOnce::parse(&Params::from_raw("ValidCard$ Mine | ValidPlayer$ You"));
    assert!(t.perform_test(&trigger, &p, &game));
    let mut sa = ability();
    t.set_triggering_objects(&trigger, &mut sa, &p, &game);
    assert_eq!(sa.get_triggering_cards(AbilityKey::Cards), vec![CardId(1), CardId(3)]);
    assert_eq!(sa.get_triggering_text(AbilityKey::Amount), Some("2"));
    p.cards = None;
    assert!(!t.perform_test(&trigger, &p, &game));
}

#[test]
fn lands_played_and_cards_turned_up() {
    let (game, trigger) = table();
    let mut p = RunParams::new();
    p.card = Some(CardId(1));
    p.origin = Some(ZoneType::Hand);
    let t = TriggerLandPlayed::parse(&Params::from_raw("ValidCard$ Mine | Origin$ Hand"));
    assert!(t.perform_test(&trigger, &p, &game));
    assert_eq!(texts(&t, &trigger, &p, &game), "LandPlayed: 1");
    p.origin = Some(ZoneType::Graveyard);
    assert!(!t.perform_test(&trigger, &p, &game));
    let t = TriggerTurnFaceUp::parse(&Params::from_raw("ValidCard$ Mine"));
    assert!(t.perform_test(&trigger, &p, &game));
    assert_eq!(texts(&t, &trigger, &p, &game), "TurnFaceUp: 1");
    p.card = None;
    assert!(!t.perform_test(&trigger, &p, &game));
}

#[test]
fn modes_of_cast_triggers() {
    assert_eq!(cast_mode("SpellCast"), Some(TriggerType::SpellCast));
    assert_eq!(cast_mode("SpellAbilityCast"), Some(TriggerType::SpellAbilityCast));
    assert_eq!(cast_mode("Attacks"), None);
}

#[test]
fn spells_are_tested_by_card_and_player() {
    let (game, trigger) = table();
    let t = TriggerSpellAbilityCastOrCopy::parse(
        "SpellCast",
        &Params::from_raw("ValidCard$ Mine | ValidActivatingPlayer$ You"),
    );
    assert_eq!(t.trigger_type(), TriggerType::SpellCast);
    let mut p = RunParams::new();
    p.spell_card = Some(CardId(1));
    p.spell_controller = Some(P0);
    assert!(t.perform_test(&trigger, &p, &game));
    p.activator = Some(P1);
    assert!(!t.perform_test(&trigger, &p, &game));
    assert_eq!(texts(&t, &trigger, &p, &game), "Card: 1, Activator: 1, SpellAbility: ");
}

#[test]
fn the_mana_spent_on_a_spell_is_compared() {
    let (mut game, trigger) = table();
    game.facts.ability_matches.push(AbilityMatch {
        filter: "Spell".to_string(),
        ability: 3,
        host: CardId(1),
    });
    game.cards[1].paying_mana_to_cast = vec![1, 1, 1, 1];
    assert!(matches_valid_sa_on_card(&game, &trigger, CardId(1), 3, "Spell.ManaSpent GE4"));
    assert!(!matches_valid_sa_on_card(&game, &trigger, CardId(1), 3, "Spell.ManaSpent GE5"));
    assert!(matches_valid_sa_on_card(
        &game,
        &trigger,
        CardId(1),
        3,
        "Activated.ManaSpent GE1,Spell.ManaSpent EQ4"
    ));
    assert!(!matches_valid_sa_on_card(&game, &trigger, CardId(2), 3, "Spell.ManaSpent GE0"));
    assert!(!matches_valid_sa_on_card(&game, &trigger, CardId(9), 3, "Spell.ManaSpent GE0"));
}

#[test]
fn an_amount_is_cut_behind_two_bytes() {
    let (game, trigger) = table();
    let mut p = RunParams::new();
    p.damage_amount = Some(2);
    let fires = |text: &str| {
        let mut t = TriggerDamageDoneOnce::parse(&Params::from_raw(""));
        t.damage_amount_text = Some(text.to_string());
        t.perform_test(&trigger, &p, &game)
    };
    assert!(fires("GE2"));
    assert!(!fires("GE3"));
    // Where two bytes end within a character, anything will do.
    assert!(fires("G\u{e9}3"));
    assert!(fires("\u{20ac}"));
    assert!(fires("G"));
    // A character of two bytes is no operator.
    assert!(!fires("\u{e9}2"));
}
