use manabrew_engine::game::{Card, CardMatch, EffectKey, GameState, PhaseType, PlayerMatch, SVar};
use manabrew_engine::replacement::ability_walk::{AbilityLink, AbilityWalk};
use manabrew_engine::replacement::apply::{
    apply_moved_replacement, apply_replacements, apply_replacements_with_agents, choice_text,
    replacement_question,
};
use manabrew_engine::replacement::collect::{
    cant_happen_check, collect_effects, has_applicable_effects, nth_layer, visit,
    would_extra_turn_be_skipped, would_phase_be_skipped,
};
use manabrew_engine::replacement::damage_batch::has_replace_damage;
use manabrew_engine::replacement::damage_buffer::run_replace_damage;
use manabrew_engine::replacement::damage_map::{list_by_target, CardDamageMap};
use manabrew_engine::replacement::damage_steps::{DamageReply, DamageRun, DamageStep};
use manabrew_engine::replacement::effect::{parse_replacement, ReplacementEffect};
use manabrew_engine::replacement::event::{
    affected_player_for_event, replacement_event_amount, set_replacement_event_affected,
    set_replacement_event_amount, ReplacementEvent, ReplacementLayer, ReplacementResult,
    ReplacementType,
};
use manabrew_engine::replacement::handler::{ReplacementReply, ReplacementStep};
use manabrew_engine::spell::GameEntity;
use manabrew_engine::types::{CardId, PlayerId, ZoneType};

const P0: PlayerId = PlayerId(0);
const P1: PlayerId = PlayerId(1);

fn effect(raw: &str, layer: ReplacementLayer) -> ReplacementEffect {
    let mut e = parse_replacement(raw).unwrap();
    e.layer = layer;
    e
}

fn host(game: &mut GameState, effects: Vec<ReplacementEffect>) -> CardId {
    let mut card = Card::new(CardId(0), "Host", P0);
    card.types.creature = true;
    card.zone = ZoneType::Battlefield;
    for (i, mut e) in effects.into_iter().enumerate() {
        e.id = i as i32;
        card.replacement_effects.push(e);
    }
    let id = game.create_card(card);
    game.zone_order.push(id);
    for player in [P0, P1] {
        game.facts.player_matches.push(PlayerMatch {
            selector: "Player".to_string(),
            source: id,
            you: P0,
            player,
        });
    }
    id
}

fn gain(amount: i32) -> ReplacementEvent {
    ReplacementEvent::GainLife { player: P0, amount }
}

fn plus_one(game: &mut GameState, id: CardId) {
    game.cards[id.0 as usize].svars.push(SVar {
        name: "PlusOne".to_string(),
        value: "DB$ ReplaceEffect | VarName$ LifeGained | VarValue$ ReplaceCount$LifeGained/Plus.1"
            .to_string(),
    });
}

const MORE: &str = "R$ Event$ GainLife | ValidPlayer$ Player | ReplaceWith$ PlusOne";
const NONE: &str = "R$ Event$ GainLife | ValidPlayer$ Player | Prevent$ True";

fn over(step: ReplacementStep) -> ReplacementResult {
    match step {
        ReplacementStep::Done(result) => result,
        _ => panic!("the run is not over"),
    }
}

#[test]
fn layers_are_searched_in_order() {
    let order = [
        ReplacementLayer::CantHappen,
        ReplacementLayer::Control,
        ReplacementLayer::Copy,
        ReplacementLayer::Transform,
        ReplacementLayer::Other,
    ];
    for (i, layer) in order.iter().enumerate() {
        assert_eq!(nth_layer(i), *layer);
    }
    let mut game = GameState::new(2, 20);
    let id = host(
        &mut game,
        vec![effect(MORE, ReplacementLayer::Other), effect(NONE, ReplacementLayer::Control)],
    );
    plus_one(&mut game, id);
    let mut event = gain(3);
    let mut running = Vec::new();
    let (_, step) = apply_replacements_with_agents(&mut game, &mut running, &mut event, None);
    match step {
        ReplacementStep::Choose { effects, ask, .. } => {
            assert_eq!(effects, vec![EffectKey { card: id, of_rules: false, index: 1, id: 1 }]);
            assert!(!ask);
        }
        _ => panic!("an effect is to be chosen"),
    }
}

#[test]
fn an_effect_is_not_applied_to_its_own_event_again() {
    let mut game = GameState::new(2, 20);
    let id = host(&mut game, vec![effect(MORE, ReplacementLayer::Other)]);
    plus_one(&mut game, id);
    let mut event = gain(3);
    let mut running = Vec::new();
    let (_, step) = apply_replacements(&mut game, &mut running, &mut event, None);
    assert_eq!(over(step), ReplacementResult::Updated);
    assert_eq!(replacement_event_amount(&event), Some(4));
    assert!(running.is_empty());
    // What is running already waits.
    running.push(EffectKey { card: id, of_rules: false, index: 0, id: 0 });
    let (_, step) = apply_replacements(&mut game, &mut running, &mut event, None);
    assert_eq!(over(step), ReplacementResult::NotReplaced);
    assert_eq!(running.len(), 1);
}

#[test]
fn every_effect_of_a_layer_applies_once() {
    let mut game = GameState::new(2, 20);
    let id = host(
        &mut game,
        vec![effect(MORE, ReplacementLayer::Other), effect(MORE, ReplacementLayer::Other)],
    );
    plus_one(&mut game, id);
    let mut event = gain(3);
    let (_, step) = apply_replacements(&mut game, &mut Vec::new(), &mut event, None);
    assert_eq!(over(step), ReplacementResult::Updated);
    assert_eq!(replacement_event_amount(&event), Some(5));
}

#[test]
fn the_affected_player_chooses_among_several() {
    let mut game = GameState::new(2, 20);
    let id = host(
        &mut game,
        vec![effect(MORE, ReplacementLayer::Other), effect(NONE, ReplacementLayer::Other)],
    );
    plus_one(&mut game, id);
    let mut event = ReplacementEvent::GainLife { player: P1, amount: 3 };
    let mut running = Vec::new();
    let (mut handler, step) =
        apply_replacements_with_agents(&mut game, &mut running, &mut event, None);
    match step {
        ReplacementStep::Choose { player, effects, ask } => {
            assert_eq!(player, Some(P1));
            assert_eq!(effects.len(), 2);
            assert!(ask);
        }
        _ => panic!("an effect is to be chosen"),
    }
    assert!(handler.is_awaiting(ReplacementReply::Chosen(1)));
    assert!(!handler.is_awaiting(ReplacementReply::Confirmed(true)));
    let step =
        handler.run(&mut game, &mut running, &mut event, None, ReplacementReply::Chosen(1));
    assert_ne!(over(step), ReplacementResult::NotReplaced);
    assert!(running.is_empty());
}

#[test]
fn what_applies_is_asked_before_it_happens() {
    let mut game = GameState::new(2, 20);
    assert!(!has_applicable_effects(&game, &gain(1)));
    assert!(!cant_happen_check(&game, &gain(1)));
    host(&mut game, vec![effect(NONE, ReplacementLayer::CantHappen)]);
    assert!(has_applicable_effects(&game, &gain(1)));
    assert!(cant_happen_check(&game, &gain(1)));
    assert!(collect_effects(&game, &gain(1), ReplacementLayer::Other, None).is_empty());
    assert_eq!(collect_effects(&game, &gain(1), ReplacementLayer::CantHappen, None).len(), 1);
}

#[test]
fn phases_and_turns_are_skipped() {
    let mut game = GameState::new(2, 20);
    assert!(!would_phase_be_skipped(&game, P0, PhaseType::Draw));
    assert!(!would_extra_turn_be_skipped(&game, P0));
    let mut phase = parse_replacement("R$ Event$ BeginPhase | ValidPlayer$ Player | Skip$ True").unwrap();
    phase.layer = ReplacementLayer::Control;
    let mut turn = parse_replacement("R$ Event$ BeginTurn | ValidPlayer$ Player | Skip$ True").unwrap();
    turn.layer = ReplacementLayer::Other;
    host(&mut game, vec![phase, turn]);
    assert!(would_phase_be_skipped(&game, P0, PhaseType::Draw));
    assert!(would_extra_turn_be_skipped(&game, P1));
}

#[test]
fn amounts_are_read_and_written() {
    let mut event = gain(3);
    assert_eq!(replacement_event_amount(&event), Some(3));
    assert!(set_replacement_event_amount(&mut event, 7));
    assert_eq!(replacement_event_amount(&event), Some(7));
    assert!(set_replacement_event_amount(&mut event, -7));
    assert_eq!(replacement_event_amount(&event), Some(0));
    let mut turn = ReplacementEvent::Learn { player: P0 };
    assert_eq!(replacement_event_amount(&turn), None);
    assert!(!set_replacement_event_amount(&mut turn, 7));
}

#[test]
fn redirected_damage_keeps_its_amount() {
    let mut game = GameState::new(2, 20);
    let id = host(&mut game, vec![]);
    let mut event = ReplacementEvent::DamageToPlayer {
        target: P1,
        amount: 5,
        source: Some(id),
        is_combat: true,
    };
    assert_eq!(affected_player_for_event(&event, &game), Some(P1));
    set_replacement_event_affected(&mut event, GameEntity::Card(id));
    match &event {
        ReplacementEvent::DamageToCard { target, amount, source, is_combat } => {
            assert_eq!((*target, *amount, *source, *is_combat), (id, 5, Some(id), true));
        }
        _ => panic!("damage stays damage"),
    }
    assert_eq!(affected_player_for_event(&event, &game), Some(P0));
}

#[test]
fn a_move_elsewhere_is_left_alone() {
    let mut game = GameState::new(2, 20);
    let exile = "R$ Event$ Moved | Destination$ Graveyard | ValidCard$ Card.Self | NewDestination$ Exile";
    let id = host(&mut game, vec![effect(exile, ReplacementLayer::Other)]);
    game.facts.card_matches.push(CardMatch {
        selector: "Card.Self".to_string(),
        source: id,
        you: P0,
        card: id,
    });
    let mut running = Vec::new();
    let (zone, run) = apply_moved_replacement(&mut game, &mut running, id, ZoneType::Hand, None, None, false);
    assert_eq!(zone, ZoneType::Hand);
    assert!(run.is_none());
    let (zone, run) =
        apply_moved_replacement(&mut game, &mut running, id, ZoneType::Graveyard, None, None, false);
    assert_eq!(zone, ZoneType::Exile);
    assert!(run.is_some());
}

#[test]
fn a_question_names_host_and_card() {
    let a = Card::new(CardId(0), "Leyline", P0);
    let b = Card::new(CardId(1), "Bear", P0);
    assert_eq!(replacement_question(&a, Some(&b), "Exile it."), "Apply Leyline to Bear?\nExile it.");
    assert_eq!(replacement_question(&a, None, "Exile it."), "Apply Leyline?\nExile it.");
    assert_eq!(choice_text(&a, "Exile it."), "Leyline: Exile it.");
}

// ---- damage that is dealt together ----

#[test]
fn damage_is_kept_by_source_and_target() {
    let mut map = CardDamageMap::new();
    map.put(CardId(1), GameEntity::Player(P0), 2);
    map.put(CardId(2), GameEntity::Player(P1), 1);
    map.put(CardId(1), GameEntity::Player(P0), 3);
    let entries: Vec<(CardId, i32)> =
        list_by_target(&map).iter().map(|e| (e.source, e.amount)).collect();
    assert_eq!(entries, vec![(CardId(1), 5), (CardId(2), 1)]);
    map.remove(CardId(1), GameEntity::Player(P0));
    assert_eq!(map.entries.len(), 1);
}

#[test]
fn damage_of_a_batch_is_prevented_once() {
    let mut game = GameState::new(2, 20);
    let shield = "R$ Event$ DamageDone | ValidTarget$ Player | Prevent$ True";
    let id = host(&mut game, vec![effect(shield, ReplacementLayer::Other)]);
    let source = host(&mut game, vec![]);
    let event = ReplacementEvent::DamageToPlayer {
        target: P1,
        amount: 4,
        source: Some(source),
        is_combat: false,
    };
    assert!(has_replace_damage(&game, &Vec::new(), &event));
    let running = vec![EffectKey { card: id, of_rules: false, index: 0, id: 0 }];
    assert!(!has_replace_damage(&game, &running, &event));
    let mut damage = CardDamageMap::new();
    damage.put(source, GameEntity::Player(P1), 4);
    let (batch, follow) =
        run_replace_damage(&game, &Vec::new(), false, damage, CardDamageMap::new());
    // The effect names no ability, so none follows.
    assert!(follow.is_empty());
    assert!(batch.damage_map.entries.is_empty());
    let prevented: Vec<(CardId, i32)> =
        batch.prevent_map.entries.iter().map(|e| (e.source, e.amount)).collect();
    assert_eq!(prevented, vec![(source, 4)]);
    assert_eq!(batch.next_chooser(), None);
}

#[test]
fn damage_of_a_batch_without_effects_stays() {
    let mut game = GameState::new(2, 20);
    let source = host(&mut game, vec![]);
    let mut damage = CardDamageMap::new();
    damage.put(source, GameEntity::Player(P1), 4);
    let (batch, buffered) =
        run_replace_damage(&game, &Vec::new(), true, damage, CardDamageMap::new());
    assert_eq!(batch.damage_map.entries.len(), 1);
    assert!(batch.prevent_map.entries.is_empty());
    assert!(buffered.is_empty());
}

#[test]
fn damage_of_a_batch_grows_for_each_source() {
    let mut game = GameState::new(2, 20);
    let more = "R$ Event$ DamageDone | ValidTarget$ Player | ReplaceWith$ DmgPlus";
    let id = host(&mut game, vec![effect(more, ReplacementLayer::Other)]);
    game.cards[id.0 as usize].svars.push(SVar {
        name: "DmgPlus".to_string(),
        value: "DB$ ReplaceEffect | VarName$ DamageAmount | VarValue$ ReplaceCount$DamageAmount/Plus.1"
            .to_string(),
    });
    let one = host(&mut game, vec![]);
    let two = host(&mut game, vec![]);
    let mut damage = CardDamageMap::new();
    damage.put(one, GameEntity::Player(P1), 2);
    damage.put(two, GameEntity::Player(P1), 5);
    let (batch, follow) =
        run_replace_damage(&game, &Vec::new(), false, damage, CardDamageMap::new());
    // A link that changes the damage and names nothing behind it has nothing follow.
    assert!(follow.is_empty());
    let mut dealt: Vec<(CardId, i32)> =
        batch.damage_map.entries.iter().map(|e| (e.source, e.amount)).collect();
    dealt.sort();
    assert_eq!(dealt, vec![(one, 3), (two, 6)]);
}

#[test]
fn a_walk_finds_effects_on_the_battlefield() {
    let mut game = GameState::new(2, 20);
    let a = host(&mut game, vec![
        effect(NONE, ReplacementLayer::CantHappen),
        effect(NONE, ReplacementLayer::Other),
    ]);
    let hidden = host(&mut game, vec![effect(NONE, ReplacementLayer::Other)]);
    let b = host(&mut game, vec![effect(NONE, ReplacementLayer::Other)]);
    game.cards[hidden.0 as usize].zone = ZoneType::Hand;
    let all = visit(&game, ReplacementType::GainLife, None);
    assert_eq!(all, vec![(a, 0), (a, 1), (b, 3)]);
    let other = visit(&game, ReplacementType::GainLife, Some(ReplacementLayer::Other));
    assert_eq!(other, vec![(a, 1), (b, 3)]);
    let never = visit(&game, ReplacementType::GainLife, Some(ReplacementLayer::CantHappen));
    assert_eq!(never, vec![(a, 0)]);
    assert!(visit(&game, ReplacementType::GainLife, Some(ReplacementLayer::Copy)).is_empty());
}

#[test]
fn players_are_asked_about_a_move() {
    let mut game = GameState::new(2, 20);
    let exile = "R$ Event$ Moved | Destination$ Graveyard | ValidCard$ Card.Self | NewDestination$ Exile";
    let hand = "R$ Event$ Moved | Destination$ Graveyard | ValidCard$ Card.Self | NewDestination$ Hand";
    let id = host(&mut game, vec![
        effect(exile, ReplacementLayer::Other),
        effect(hand, ReplacementLayer::Other),
    ]);
    game.facts.card_matches.push(CardMatch {
        selector: "Card.Self".to_string(),
        source: id,
        you: P0,
        card: id,
    });
    let mut running = Vec::new();
    let (zone, run) =
        apply_moved_replacement(&mut game, &mut running, id, ZoneType::Graveyard, None, None, true);
    assert_eq!(zone, ZoneType::Graveyard);
    let mut run = run.unwrap();
    assert!(matches!(run.step, ReplacementStep::Choose { ask: true, .. }));
    assert!(run.handler.is_awaiting(ReplacementReply::Chosen(1)));
    run.reply(&mut game, &mut running, ReplacementReply::Chosen(1));
    assert_eq!(run.destination(), ZoneType::Hand);
}

fn link(player: Option<PlayerId>, targets: bool, handles: bool) -> AbilityLink {
    AbilityLink {
        uses_targeting: targets,
        target_card: None,
        target_cards: if targets { vec![CardId(7)] } else { Vec::new() },
        target_player: player,
        additional_target_players: Vec::new(),
        parent_targeting_player: None,
        chain_target_cards: Vec::new(),
        handles_sub_ability: handles,
    }
}

#[test]
fn a_chain_hands_its_targets_on() {
    let links = vec![link(Some(P1), true, false), link(None, false, true), link(None, false, false)];
    assert!(AbilityWalk::start(&links, false).is_none());
    let mut walk = AbilityWalk::start(&links, true).unwrap();
    let first = walk.next(&links).unwrap();
    assert_eq!(first.target_player, Some(P1));
    assert_eq!(first.chain_target_cards, vec![CardId(7)]);
    let second = walk.next(&links).unwrap();
    assert_eq!(second.place, 1);
    assert_eq!(second.target_player, Some(P1));
    assert_eq!(second.parent_targeting_player, Some(P1));
    // The second has its sub-ability happen itself.
    assert!(walk.next(&links).is_none());
}

fn svar(game: &mut GameState, id: CardId, name: &str, value: &str) {
    game.cards[id.0 as usize].svars.push(SVar { name: name.to_string(), value: value.to_string() });
}

#[test]
fn an_ability_follows_the_damage_that_was_replaced() {
    let mut game = GameState::new(2, 20);
    let more = "R$ Event$ DamageDone | ValidTarget$ Player | ReplaceWith$ DmgPlus";
    let id = host(&mut game, vec![effect(more, ReplacementLayer::Other)]);
    svar(
        &mut game,
        id,
        "DmgPlus",
        "DB$ ReplaceEffect | VarName$ DamageAmount | VarValue$ ReplaceCount$DamageAmount/Plus.1 | SubAbility$ Gain",
    );
    svar(&mut game, id, "Gain", "DB$ GainLife | LifeAmount$ 1");
    let one = host(&mut game, vec![]);
    let two = host(&mut game, vec![]);
    let deal = |game: &GameState| {
        let mut damage = CardDamageMap::new();
        damage.put(one, GameEntity::Player(P1), 2);
        damage.put(two, GameEntity::Player(P1), 5);
        run_replace_damage(game, &Vec::new(), false, damage, CardDamageMap::new()).1
    };
    let follow = deal(&game);
    assert_eq!(follow.len(), 1);
    assert_eq!(follow[0].ability, "DB$ GainLife | LifeAmount$ 1");
    assert_eq!(follow[0].source, one);
    assert_eq!(follow[0].amount, 9);
    // The sub-ability is named, but there is no such script.
    game.cards[id.0 as usize].svars.pop();
    assert!(deal(&game).is_empty());
}

#[test]
fn an_ability_of_another_kind_follows_itself() {
    let mut game = GameState::new(2, 20);
    let shield =
        "R$ Event$ DamageDone | ValidTarget$ Player | Prevent$ True | ReplaceWith$ Gain | ExecuteMode$ PerSource";
    let id = host(&mut game, vec![effect(shield, ReplacementLayer::Other)]);
    svar(&mut game, id, "Gain", "DB$ GainLife | LifeAmount$ 1");
    let one = host(&mut game, vec![]);
    let two = host(&mut game, vec![]);
    let mut damage = CardDamageMap::new();
    damage.put(one, GameEntity::Player(P1), 2);
    damage.put(two, GameEntity::Player(P1), 5);
    let (_, follow) = run_replace_damage(&game, &Vec::new(), false, damage, CardDamageMap::new());
    let told: Vec<(CardId, i32)> = follow.iter().map(|f| (f.source, f.amount)).collect();
    assert_eq!(told, vec![(one, 2), (two, 5)]);
    assert!(follow.iter().all(|f| f.ability == "DB$ GainLife | LifeAmount$ 1"));
}

/// Two shields of a player, the second one optional, and damage of two sources.
fn shields() -> (GameState, CardId, CardDamageMap) {
    let mut game = GameState::new(2, 20);
    let shield = "R$ Event$ DamageDone | ValidTarget$ Player | Prevent$ True";
    let may = "R$ Event$ DamageDone | ValidTarget$ Player | Prevent$ True | Optional$ True";
    let id = host(&mut game, vec![
        effect(shield, ReplacementLayer::Other),
        effect(may, ReplacementLayer::Other),
    ]);
    let one = host(&mut game, vec![]);
    let two = host(&mut game, vec![]);
    let mut damage = CardDamageMap::new();
    damage.put(one, GameEntity::Player(P1), 2);
    damage.put(two, GameEntity::Player(P1), 5);
    (game, id, damage)
}

#[test]
fn players_choose_among_effects_on_a_batch() {
    let (game, id, damage) = shields();
    let running = Vec::new();
    let mut run =
        DamageRun::start(&game, &running, false, damage, CardDamageMap::new(), true);
    match run.next_step(&game) {
        DamageStep::Choose { player, effects, ask } => {
            assert_eq!(player, P1);
            assert_eq!(effects.iter().map(|k| (k.card, k.index)).collect::<Vec<_>>(), vec![(id, 0), (id, 1)]);
            assert!(ask);
        }
        _ => panic!("an effect is to be chosen"),
    }
    // A confirmation is not waited for.
    run.reply(&game, &running, DamageReply::Confirmed(true));
    assert!(matches!(run.next_step(&game), DamageStep::Choose { .. }));
    // A place behind the last counts as the last, which is optional.
    run.reply(&game, &running, DamageReply::Chosen(9));
    match run.next_step(&game) {
        DamageStep::Confirm { player, effect, damage, ask } => {
            assert_eq!(player, Some(P1));
            assert_eq!(effect.index, 1);
            assert_eq!(damage.unwrap().amount, 2);
            assert!(ask);
        }
        _ => panic!("the effect may be turned down"),
    }
    run.reply(&game, &running, DamageReply::Confirmed(false));
    assert!(matches!(run.next_step(&game), DamageStep::Confirm { ask: true, .. }));
    run.reply(&game, &running, DamageReply::Confirmed(true));
    // One effect is left, for the damage that was not prevented: nobody is asked.
    assert_eq!(run.batch.damage_map.entries.len(), 1);
    match run.next_step(&game) {
        DamageStep::Choose { effects, ask, .. } => {
            assert_eq!(effects[0].index, 0);
            assert_eq!(effects.len(), 1);
            assert!(!ask);
        }
        _ => panic!("an effect is left"),
    }
    run.reply(&game, &running, DamageReply::Chosen(0));
    assert!(matches!(run.next_step(&game), DamageStep::Confirm { ask: false, .. }));
    // What is not optional cannot be turned down.
    run.reply(&game, &running, DamageReply::Confirmed(false));
    assert!(run.batch.damage_map.entries.is_empty());
    match run.next_step(&game) {
        DamageStep::Done(follow) => assert!(follow.is_empty()),
        _ => panic!("the run is over"),
    }
}

#[test]
fn a_batch_without_players_takes_the_first_effect() {
    let (game, _, damage) = shields();
    let running = Vec::new();
    let mut run =
        DamageRun::start(&game, &running, false, damage, CardDamageMap::new(), false);
    let mut steps = 0;
    loop {
        let reply = match run.next_step(&game) {
            DamageStep::Done(_) => break,
            DamageStep::Choose { ask, .. } => {
                assert!(!ask);
                DamageReply::Chosen(1)
            }
            DamageStep::Confirm { effect, ask, .. } => {
                assert!(!ask);
                assert_eq!(effect.index, 0);
                DamageReply::Confirmed(false)
            }
        };
        run.reply(&game, &running, reply);
        steps += 1;
    }
    assert_eq!(steps, 3);
    assert!(run.batch.damage_map.entries.is_empty());
}

#[test]
fn a_threshold_is_cut_behind_two_bytes() {
    let mut game = GameState::new(2, 20);
    let shield = "R$ Event$ DamageDone | ValidTarget$ Player | Prevent$ True";
    let id = host(&mut game, vec![effect(shield, ReplacementLayer::Other)]);
    let source = host(&mut game, vec![]);
    let event = ReplacementEvent::DamageToPlayer {
        target: P1,
        amount: 4,
        source: Some(source),
        is_combat: false,
    };
    let mut applies = |text: &str| {
        game.cards[id.0 as usize].replacement_effects[0].damage_amount = Some(text.to_string());
        has_replace_damage(&game, &Vec::new(), &event)
    };
    assert!(applies("GE4"));
    assert!(!applies("GE5"));
    assert!(applies("G\u{e9}5"));
    assert!(!applies("\u{e9}4"));
}
