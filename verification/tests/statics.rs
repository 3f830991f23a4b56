use manabrew_engine::game::{
    AbilityMatch, Card, CardMatch, CastRecord, DefinedCards, DefinedPlayers, GameState, Layer,
    StaticAbility, StaticMode, SvarStatic,
};
use manabrew_engine::spell::SpellAbility;
use manabrew_engine::staticability::activations::get_limit;
use manabrew_engine::staticability::attack::{entities_must_attack, MustAttackEntity};
use manabrew_engine::staticability::may_play::{
    apply_continuous_ability, can_play, can_play_or_granted, grants_zone_permissions,
    grants_zone_permissions_for, may_play_allows_after_stack, may_play_alt_costs,
    may_play_alt_mana_cost, may_play_grant_source, may_play_grants, may_play_player, may_play_turn,
    player_may_play, run, Grant,
};
use manabrew_engine::staticability::plot::plot_zone;
use manabrew_engine::staticability::prevention::cant_prevent_damage;
use manabrew_engine::types::{CardId, PlayerId, ZoneType};

const P0: PlayerId = PlayerId(0);
const P1: PlayerId = PlayerId(1);

fn ability(mode: StaticMode) -> StaticAbility {
    StaticAbility {
        mode,
        index: None,
        conditions_met: true,
        layers: vec![],
        add_keyword_text: None,
        valid_card: None,
        valid_source: None,
        valid_player: None,
        valid_creature: None,
        valid_sa: None,
        valid_after_stack: None,
        is_combat: None,
        min_limit_text: None,
        additional_text: None,
        must_attack: None,
        affected: None,
        affected_defined: None,
        affected_zones: vec![],
        may_play: false,
        may_play_limit: None,
        may_play_turn: 0,
        may_play_player: None,
        may_play_grants_zone_permissions: true,
        may_play_without_mana_cost: false,
        may_play_alt_mana_cost: None,
        add_static_ability_text: None,
    }
}

fn permission() -> StaticAbility {
    let mut st = ability(StaticMode::Continuous);
    st.may_play = true;
    st
}

fn card_in(game: &mut GameState, zone: ZoneType, owner: PlayerId) -> CardId {
    let mut card = Card::new(CardId(0), "Card", owner);
    card.zone = zone;
    card.types.creature = true;
    let id = game.create_card(card);
    game.zone_order.push(id);
    id
}

fn record(source: CardId, place: Option<usize>) -> CastRecord {
    CastRecord {
        activating_player: P0,
        kick_count: 0,
        kicker1: false,
        kicker2: false,
        optional_keyword_amounts: vec![],
        last_state_battlefield: vec![],
        may_play_source: Some(source),
        may_play_static: place,
    }
}

fn spell(id: u32) -> SpellAbility {
    let mut sa = SpellAbility::new_empty(None, P0);
    sa.id = id;
    sa
}

#[test]
fn one_activation_is_allowed_without_statics() {
    let mut game = GameState::new(2, 20);
    let c = card_in(&mut game, ZoneType::Battlefield, P0);
    assert_eq!(get_limit(&game, c, &spell(0), P0), 1);
}

#[test]
fn statics_raise_the_number_of_activations() {
    let mut game = GameState::new(2, 20);
    let c = card_in(&mut game, ZoneType::Battlefield, P0);
    let mut least = ability(StaticMode::Activations);
    least.min_limit_text = Some("2".to_string());
    let mut more = ability(StaticMode::Activations);
    more.additional_text = Some("3".to_string());
    let mut off = ability(StaticMode::Activations);
    off.additional_text = Some("50".to_string());
    off.conditions_met = false;
    game.cards[0].static_abilities = vec![least, more, off];
    assert_eq!(get_limit(&game, c, &spell(0), P0), 5);
    // A host whose static abilities do not work where it is raises nothing.
    game.cards[0].zone = ZoneType::Hand;
    assert_eq!(get_limit(&game, c, &spell(0), P0), 1);
}

#[test]
fn a_limit_of_minus_one_is_none() {
    let mut game = GameState::new(2, 20);
    let c = card_in(&mut game, ZoneType::Battlefield, P0);
    let mut st = ability(StaticMode::Activations);
    st.min_limit_text = Some("-1".to_string());
    game.cards[0].static_abilities = vec![st];
    assert_eq!(get_limit(&game, c, &spell(0), P0), u32::MAX);
}

#[test]
fn a_limit_speaks_of_its_own_cards() {
    let mut game = GameState::new(2, 20);
    let host = card_in(&mut game, ZoneType::Battlefield, P0);
    let other = card_in(&mut game, ZoneType::Battlefield, P0);
    let mut st = ability(StaticMode::Activations);
    st.valid_card = Some("Card.Other".to_string());
    st.additional_text = Some("1".to_string());
    game.cards[0].static_abilities = vec![st];
    game.facts.card_matches.push(CardMatch {
        selector: "Card.Other".to_string(),
        source: host,
        you: P0,
        card: other,
    });
    assert_eq!(get_limit(&game, other, &spell(0), P0), 2);
    assert_eq!(get_limit(&game, host, &spell(0), P0), 1);
}

#[test]
fn nobody_is_asked_to_attack_the_active_player() {
    let mut game = GameState::new(2, 20);
    let host = card_in(&mut game, ZoneType::Battlefield, P0);
    let theirs = card_in(&mut game, ZoneType::Battlefield, P1);
    let mut st = ability(StaticMode::MustAttack);
    st.must_attack = Some("Everyone".to_string());
    game.cards[0].static_abilities = vec![st, ability(StaticMode::MustAttack)];
    game.facts.defined_players.push(DefinedPlayers {
        defined: "Everyone".to_string(),
        source: host,
        players: vec![P0, P1],
    });
    game.facts.defined_cards.push(DefinedCards {
        defined: "Everyone".to_string(),
        source: host,
        cards: vec![host, theirs],
    });
    let attacker = Card::new(CardId(7), "Attacker", P0);
    assert!(entities_must_attack(&game, &attacker).is_empty());
    let asked = entities_must_attack(&game, &game.cards[0]);
    assert_eq!(
        asked,
        vec![
            MustAttackEntity::Player(P1),
            MustAttackEntity::Card(theirs),
            MustAttackEntity::Any
        ]
    );
}

#[test]
fn damage_that_cannot_be_prevented() {
    let mut game = GameState::new(2, 20);
    let source = card_in(&mut game, ZoneType::Battlefield, P0);
    assert!(!cant_prevent_damage(&game, source, true));
    let mut st = ability(StaticMode::CantPreventDamage);
    st.is_combat = Some(true);
    game.cards[0].static_abilities = vec![st];
    assert!(cant_prevent_damage(&game, source, true));
    assert!(!cant_prevent_damage(&game, source, false));
    // Its own damage counts wherever the source is.
    game.cards[0].zone = ZoneType::Hand;
    assert!(cant_prevent_damage(&game, source, true));
    let other = card_in(&mut game, ZoneType::Battlefield, P0);
    assert!(!cant_prevent_damage(&game, other, true));
}

#[test]
fn plotting_takes_a_static_ability() {
    let mut game = GameState::new(2, 20);
    let host = card_in(&mut game, ZoneType::Battlefield, P0);
    let top = card_in(&mut game, ZoneType::Library, P0);
    assert!(!plot_zone(&game, top));
    let mut st = ability(StaticMode::PlotZone);
    st.valid_card = Some("Card.TopLibrary".to_string());
    game.cards[0].static_abilities = vec![st];
    assert!(!plot_zone(&game, top));
    game.facts.card_matches.push(CardMatch {
        selector: "Card.TopLibrary".to_string(),
        source: host,
        you: P0,
        card: top,
    });
    assert!(plot_zone(&game, top));
}

#[test]
fn effects_are_recomputed_for_their_own_layer() {
    let mut st = ability(StaticMode::Continuous);
    st.layers = vec![Layer::Abilities, Layer::ModifyPt];
    assert!(apply_continuous_ability(&st, Layer::ModifyPt));
    assert!(!apply_continuous_ability(&st, Layer::Copy));
    assert!(run(&st));
    st.conditions_met = false;
    assert!(!apply_continuous_ability(&st, Layer::ModifyPt));
    assert!(!run(&st));
}

#[test]
fn a_permission_is_for_its_zones_and_else_for_the_hand() {
    let mut game = GameState::new(2, 20);
    let host = card_in(&mut game, ZoneType::Battlefield, P0);
    let _ = host;
    let source = &game.cards[0];
    let mut card = Card::new(CardId(9), "Spell", P0);
    let mut st = permission();
    card.zone = ZoneType::Hand;
    assert!(can_play(&st, source, &card, &game));
    card.zone = ZoneType::Graveyard;
    assert!(!can_play(&st, source, &card, &game));
    st.affected_zones = vec![ZoneType::Graveyard];
    assert!(can_play(&st, source, &card, &game));
    card.zone = ZoneType::Hand;
    assert!(!can_play(&st, source, &card, &game));
    st.may_play = false;
    assert!(!can_play(&st, source, &card, &game));
}

#[test]
fn a_permission_is_used_up() {
    let mut game = GameState::new(2, 20);
    let host = card_in(&mut game, ZoneType::Battlefield, P0);
    let cast = card_in(&mut game, ZoneType::Stack, P0);
    let mut st = permission();
    st.index = Some(0);
    st.may_play_limit = Some(2);
    let mut card = Card::new(CardId(9), "Spell", P0);
    card.zone = ZoneType::Hand;
    assert_eq!(may_play_turn(&st, &game.cards[0], &game), 0);
    game.cards[1].cast_record = Some(record(host, Some(0)));
    game.cast_this_turn.push(cast);
    assert_eq!(may_play_turn(&st, &game.cards[0], &game), 1);
    assert!(can_play(&st, &game.cards[0], &card, &game));
    st.may_play_turn = 1;
    assert_eq!(may_play_turn(&st, &game.cards[0], &game), 2);
    assert!(!can_play(&st, &game.cards[0], &card, &game));
    // Another permission of the same host was not used.
    st.index = Some(1);
    assert_eq!(may_play_turn(&st, &game.cards[0], &game), 1);
}

#[test]
fn granted_permissions_count_too() {
    let mut game = GameState::new(2, 20);
    card_in(&mut game, ZoneType::Battlefield, P0);
    let mut granted = permission();
    granted.affected_zones = vec![ZoneType::Exile];
    game.cards[0].svar_statics = vec![SvarStatic { name: "Play".to_string(), ability: granted }];
    let mut st = ability(StaticMode::Continuous);
    st.add_static_ability_text = Some("Missing & Play".to_string());
    let mut card = Card::new(CardId(9), "Spell", P0);
    card.zone = ZoneType::Exile;
    assert!(!can_play(&st, &game.cards[0], &card, &game));
    assert!(can_play_or_granted(&st, &game.cards[0], &card, &game));
    assert!(grants_zone_permissions(&st, &game.cards[0], &card, &game));
    st.conditions_met = false;
    assert!(!can_play_or_granted(&st, &game.cards[0], &card, &game));
}

#[test]
fn a_permission_may_leave_the_zone_closed() {
    let mut game = GameState::new(2, 20);
    card_in(&mut game, ZoneType::Battlefield, P0);
    let mut card = Card::new(CardId(9), "Spell", P0);
    card.zone = ZoneType::Hand;
    let mut st = permission();
    assert!(grants_zone_permissions(&st, &game.cards[0], &card, &game));
    assert!(grants_zone_permissions_for(&st, &game.cards[0], &card, &game, &spell(4)));
    st.valid_sa = Some("Spell.Instant".to_string());
    assert!(!grants_zone_permissions_for(&st, &game.cards[0], &card, &game, &spell(4)));
    game.facts.ability_matches.push(AbilityMatch {
        filter: "Spell.Instant".to_string(),
        ability: 4,
        host: CardId(0),
    });
    assert!(grants_zone_permissions_for(&st, &game.cards[0], &card, &game, &spell(4)));
    // Another ability does not match.
    assert!(!grants_zone_permissions_for(&st, &game.cards[0], &card, &game, &spell(5)));
    st.may_play_grants_zone_permissions = false;
    assert!(!grants_zone_permissions(&st, &game.cards[0], &card, &game));
    assert!(can_play_or_granted(&st, &game.cards[0], &card, &game));
}

#[test]
fn the_player_of_a_permission() {
    let mut game = GameState::new(2, 20);
    card_in(&mut game, ZoneType::Battlefield, P1);
    game.active_player = P1;
    let card = Card::new(CardId(9), "Spell", P0);
    let mut st = permission();
    assert_eq!(may_play_player(&st, &game.cards[0], &card, &game), P1);
    st.may_play_player = Some("CardOwner".to_string());
    assert_eq!(may_play_player(&st, &game.cards[0], &card, &game), P0);
    st.may_play_player = Some("Player.Active".to_string());
    assert_eq!(may_play_player(&st, &game.cards[0], &card, &game), P1);
    st.may_play_player = Some("Player".to_string());
    assert_eq!(may_play_player(&st, &game.cards[0], &card, &game), P0);
    st.may_play_player = Some("Nobody".to_string());
    assert_eq!(may_play_player(&st, &game.cards[0], &card, &game), P1);
}

#[test]
fn a_player_may_play_where_a_permission_lets_them() {
    let mut game = GameState::new(2, 20);
    let host = card_in(&mut game, ZoneType::Battlefield, P0);
    let mut card = Card::new(CardId(9), "Spell", P0);
    card.zone = ZoneType::Graveyard;
    assert!(!player_may_play(&game, P0, &card));
    assert_eq!(may_play_grant_source(&game, P0, &card), None);
    let mut st = permission();
    st.affected_zones = vec![ZoneType::Graveyard];
    st.may_play_alt_mana_cost = Some("R".to_string());
    game.cards[0].static_abilities = vec![ability(StaticMode::Continuous), st];
    assert_eq!(
        may_play_grants(&game, P0, &card),
        vec![Grant { source: host, place: 0 }, Grant { source: host, place: 1 }]
    );
    assert!(may_play_grants(&game, P1, &card).is_empty());
    assert!(player_may_play(&game, P0, &card));
    assert!(!player_may_play(&game, P1, &card));
    assert_eq!(may_play_grant_source(&game, P0, &card), Some((host, Some(1))));
    assert_eq!(may_play_alt_costs(&game, P0, &card), vec!["R".to_string()]);
    let source = &game.cards[0];
    let st = &source.static_abilities[1];
    assert_eq!(may_play_alt_mana_cost(st, source, &card, &game), Some("R".to_string()));
    card.zone = ZoneType::Exile;
    assert_eq!(may_play_alt_mana_cost(st, source, &card, &game), None);
}

#[test]
fn a_spell_from_the_hand_is_legal_on_the_stack() {
    let mut game = GameState::new(2, 20);
    card_in(&mut game, ZoneType::Battlefield, P0);
    let mut card = Card::new(CardId(9), "Spell", P0);
    card.zone = ZoneType::Stack;
    assert!(may_play_allows_after_stack(&game, P0, &card, &spell(4)));
    card.cast_from = Some(ZoneType::Hand);
    assert!(may_play_allows_after_stack(&game, P0, &card, &spell(4)));
    // From another zone a permission that opens it has the last word.
    card.cast_from = Some(ZoneType::Graveyard);
    assert!(may_play_allows_after_stack(&game, P0, &card, &spell(4)));
    let mut st = permission();
    st.affected_zones = vec![ZoneType::Graveyard];
    st.valid_after_stack = Some("Spell.Instant".to_string());
    game.cards[0].static_abilities = vec![st];
    assert!(!may_play_allows_after_stack(&game, P0, &card, &spell(4)));
    game.cards[0].static_abilities[0].valid_after_stack = None;
    assert!(may_play_allows_after_stack(&game, P0, &card, &spell(4)));
}
