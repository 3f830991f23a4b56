use manabrew_engine::game::{Card, CardMatch, GameState, PlayerMatch, SVar};
use manabrew_engine::replacement::apply::{apply_replacements, apply_replacements_with_agents};
use manabrew_engine::replacement::effect::parse_replacement;
use manabrew_engine::replacement::event::{IgnoredDice, ReplacementEvent, ReplacementResult};
use manabrew_engine::replacement::handler::{ReplacementReply, ReplacementStep};
use manabrew_engine::types::{CardId, PlayerId, ZoneType};

fn make_game() -> GameState {
    GameState::new(2, 20)
}

fn add_creature_with_abilities(
    game: &mut GameState,
    owner: PlayerId,
    name: &str,
    abilities: &[&str],
) -> CardId {
    let mut card = Card::new(CardId(0), name, owner);
    card.types.creature = true;
    card.power = 2;
    card.toughness = 2;
    for (i, raw) in abilities.iter().enumerate() {
        let mut effect = parse_replacement(raw).unwrap();
        effect.id = i as i32;
        card.replacement_effects.push(effect);
    }
    let id = game.create_card(card);
    game.zone_order.push(id);
    id
}

fn put_in(game: &mut GameState, id: CardId, zone: ZoneType) {
    game.cards[id.0 as usize].zone = zone;
}

fn set_s_var(game: &mut GameState, id: CardId, name: &str, value: &str) {
    game.cards[id.0 as usize].svars.push(SVar { name: name.to_string(), value: value.to_string() });
}

fn player_matches(game: &mut GameState, selector: &str, source: CardId, player: PlayerId) {
    let you = game.cards[source.0 as usize].controller;
    game.facts.player_matches.push(PlayerMatch {
        selector: selector.to_string(),
        source,
        you,
        player,
    });
}

fn card_matches(game: &mut GameState, selector: &str, source: CardId, card: CardId) {
    let you = game.cards[source.0 as usize].controller;
    game.facts.card_matches.push(CardMatch { selector: selector.to_string(), source, you, card });
}

fn result_of(game: &mut GameState, event: &mut ReplacementEvent) -> ReplacementResult {
    let mut running = Vec::new();
    let (_, step) = apply_replacements(game, &mut running, event, None);
    match step {
        ReplacementStep::Done(result) => result,
        _ => panic!("the run is not over"),
    }
}

fn burial(card: CardId, origin: ZoneType) -> ReplacementEvent {
    ReplacementEvent::Moved {
        card,
        origin,
        destination: ZoneType::Graveyard,
        is_discard: false,
        counter_map: None,
        counter_cause: None,
        counter_is_effect: false,
        after_replacement_static_abilities: Vec::new(),
        stack_sa: None,
        fizzle: None,
    }
}

fn roll(player: PlayerId, sides: i32, number: i32) -> ReplacementEvent {
    ReplacementEvent::RollDice {
        player,
        sides,
        number,
        ignore: 0,
        ignore_chosen: Vec::new(),
        dice_pt_exchanges: Vec::new(),
    }
}

fn skip_draw(game: &mut GameState, abilities: &[&str]) -> CardId {
    let cid = add_creature_with_abilities(game, PlayerId(0), "SkipDraw", abilities);
    player_matches(game, "You", cid, PlayerId(0));
    cid
}

fn draw(player: PlayerId) -> ReplacementEvent {
    ReplacementEvent::Draw { player, extra_draws: 0, is_first_in_draw_step: false }
}

#[test]
fn draw_skip_for_controller() {
    let mut game = make_game();
    let cid = skip_draw(&mut game, &["R$ Event$ Draw | ValidPlayer$ You | Prevent$ True"]);
    put_in(&mut game, cid, ZoneType::Battlefield);
    let mut event = draw(PlayerId(0));
    assert_eq!(result_of(&mut game, &mut event), ReplacementResult::Skipped);
}

#[test]
fn draw_not_skipped_for_opponent() {
    let mut game = make_game();
    let cid = skip_draw(&mut game, &["R$ Event$ Draw | ValidPlayer$ You | Prevent$ True"]);
    put_in(&mut game, cid, ZoneType::Battlefield);
    let mut event = draw(PlayerId(1));
    assert_eq!(result_of(&mut game, &mut event), ReplacementResult::NotReplaced);
}

#[test]
fn draw_not_applied_when_card_not_on_battlefield() {
    let mut game = make_game();
    let cid = skip_draw(
        &mut game,
        &["R$ Event$ Draw | ActiveZones$ Battlefield | ValidPlayer$ You | Prevent$ True"],
    );
    put_in(&mut game, cid, ZoneType::Hand);
    let mut event = draw(PlayerId(0));
    assert_eq!(result_of(&mut game, &mut event), ReplacementResult::NotReplaced);
}

fn shield(game: &mut GameState) -> CardId {
    let alice = PlayerId(0);
    let cid = add_creature_with_abilities(
        game,
        alice,
        "Shield",
        &["R$ Event$ DamageDone | ValidTarget$ Player | Prevent$ True"],
    );
    player_matches(game, "Player", cid, PlayerId(0));
    player_matches(game, "Player", cid, PlayerId(1));
    put_in(game, cid, ZoneType::Battlefield);
    cid
}

#[test]
fn damage_to_player_prevented() {
    let mut game = make_game();
    shield(&mut game);
    let mut event = ReplacementEvent::DamageToPlayer {
        target: PlayerId(0),
        amount: 5,
        source: None,
        is_combat: false,
    };
    assert_eq!(result_of(&mut game, &mut event), ReplacementResult::Prevented);
    if let ReplacementEvent::DamageToPlayer { amount, .. } = event {
        assert_eq!(amount, 0);
    } else {
        panic!("unexpected event type");
    }
}

#[test]
fn damage_zero_not_replaced() {
    let mut game = make_game();
    shield(&mut game);
    let mut event = ReplacementEvent::DamageToPlayer {
        target: PlayerId(0),
        amount: 0,
        source: None,
        is_combat: false,
    };
    assert_eq!(result_of(&mut game, &mut event), ReplacementResult::NotReplaced);
}

#[test]
fn damage_to_card_prevented() {
    let mut game = make_game();
    let alice = PlayerId(0);
    let cid = add_creature_with_abilities(
        &mut game,
        alice,
        "Shield",
        &["R$ Event$ DamageDone | ValidTarget$ Card | Prevent$ True"],
    );
    put_in(&mut game, cid, ZoneType::Battlefield);
    let target = add_creature_with_abilities(&mut game, alice, "Target", &[]);
    put_in(&mut game, target, ZoneType::Battlefield);
    card_matches(&mut game, "Card", cid, cid);
    card_matches(&mut game, "Card", cid, target);
    let mut event = ReplacementEvent::DamageToCard {
        target,
        amount: 3,
        source: None,
        is_combat: false,
    };
    assert_eq!(result_of(&mut game, &mut event), ReplacementResult::Prevented);
    if let ReplacementEvent::DamageToCard { amount, .. } = event {
        assert_eq!(amount, 0);
    } else {
        panic!("unexpected event type");
    }
}

fn more_damage(game: &mut GameState, ability: &str) -> CardId {
    let alice = PlayerId(0);
    let bob = PlayerId(1);
    let replacer = add_creature_with_abilities(game, alice, "Boss", &[ability]);
    set_s_var(
        game,
        replacer,
        "DmgPlus",
        "DB$ ReplaceEffect | VarName$ DamageAmount | VarValue$ ReplaceCount$DamageAmount/Plus.1",
    );
    put_in(game, replacer, ZoneType::Battlefield);
    let source = add_creature_with_abilities(game, alice, "Source", &[]);
    put_in(game, source, ZoneType::Battlefield);
    card_matches(game, "Card.YouCtrl", replacer, replacer);
    card_matches(game, "Card.YouCtrl", replacer, source);
    player_matches(game, "Player.Opponent", replacer, bob);
    source
}

#[test]
fn damage_replace_with_can_increase_amount() {
    let mut game = make_game();
    let source = more_damage(
        &mut game,
        "R$ Event$ DamageDone | ActiveZones$ Battlefield | ValidSource$ Card.YouCtrl | ValidTarget$ Player.Opponent | ReplaceWith$ DmgPlus",
    );
    let mut event = ReplacementEvent::DamageToPlayer {
        target: PlayerId(1),
        amount: 2,
        source: Some(source),
        is_combat: false,
    };
    let _ = result_of(&mut game, &mut event);
    if let ReplacementEvent::DamageToPlayer { amount, .. } = event {
        assert_eq!(amount, 3);
    } else {
        panic!("unexpected event type");
    }
}

#[test]
fn damage_replace_with_respects_max_speed() {
    let mut game = make_game();
    game.players[0].speed = 4;
    let source = more_damage(
        &mut game,
        "R$ Event$ DamageDone | MaxSpeed$ True | ActiveZones$ Battlefield | ValidSource$ Card.YouCtrl | ValidTarget$ Player.Opponent | ReplaceWith$ DmgPlus",
    );
    let mut event = ReplacementEvent::DamageToPlayer {
        target: PlayerId(1),
        amount: 1,
        source: Some(source),
        is_combat: false,
    };
    let _ = result_of(&mut game, &mut event);
    if let ReplacementEvent::DamageToPlayer { amount, .. } = event {
        assert_eq!(amount, 2);
    } else {
        panic!("unexpected event type");
    }
}

#[test]
fn roll_dice_replace_with_updates_number_and_ignore() {
    let mut game = make_game();
    let alice = PlayerId(0);
    let replacer = add_creature_with_abilities(
        &mut game,
        alice,
        "Barbarian Class",
        &["R$ Event$ RollDice | ActiveZones$ Battlefield | ValidPlayer$ You | ReplaceWith$ PlusRoll"],
    );
    set_s_var(
        &mut game,
        replacer,
        "PlusRoll",
        "DB$ ReplaceEffect | VarName$ Number | VarValue$ ReplaceCount$Number/Plus.1 | SubAbility$ IgnoreLowest",
    );
    set_s_var(
        &mut game,
        replacer,
        "IgnoreLowest",
        "DB$ ReplaceEffect | VarName$ Ignore | VarValue$ ReplaceCount$Ignore/Plus.1",
    );
    put_in(&mut game, replacer, ZoneType::Battlefield);
    player_matches(&mut game, "You", replacer, alice);
    let mut event = roll(alice, 20, 1);
    assert_eq!(result_of(&mut game, &mut event), ReplacementResult::Updated);
    if let ReplacementEvent::RollDice { number, ignore, .. } = event {
        assert_eq!(number, 2);
        assert_eq!(ignore, 1);
    } else {
        panic!("unexpected event type");
    }
}

#[test]
fn roll_dice_replace_with_updates_ignore_chosen_map() {
    let mut game = make_game();
    let alice = PlayerId(0);
    let replacer = add_creature_with_abilities(
        &mut game,
        alice,
        "Bamboozling Beeble",
        &["R$ Event$ RollDice | ActiveZones$ Battlefield | ValidPlayer$ You | ReplaceWith$ RigRoll"],
    );
    set_s_var(
        &mut game,
        replacer,
        "RigRoll",
        "DB$ ReplaceEffect | VarName$ IgnoreChosen | VarType$ Map | VarKey$ You | VarValue$ 1",
    );
    put_in(&mut game, replacer, ZoneType::Battlefield);
    player_matches(&mut game, "You", replacer, alice);
    let mut event = roll(alice, 6, 2);
    assert_eq!(result_of(&mut game, &mut event), ReplacementResult::Updated);
    if let ReplacementEvent::RollDice { ignore_chosen, .. } = event {
        assert_eq!(ignore_chosen, vec![IgnoredDice { player: alice, amount: 1 }]);
    } else {
        panic!("unexpected event type");
    }
}

#[test]
fn roll_dice_replace_with_updates_dice_pt_exchange_set() {
    let mut game = make_game();
    let alice = PlayerId(0);
    let replacer = add_creature_with_abilities(
        &mut game,
        alice,
        "Vedalken Squirrel-Whacker",
        &["R$ Event$ RollDice | ActiveZones$ Battlefield | ValidPlayer$ You | ValidSides$ 6 | ReplaceWith$ SwapRoll"],
    );
    set_s_var(
        &mut game,
        replacer,
        "SwapRoll",
        "DB$ ReplaceEffect | VarName$ DicePTExchanges | VarType$ CardSet | VarValue$ Self",
    );
    put_in(&mut game, replacer, ZoneType::Battlefield);
    player_matches(&mut game, "You", replacer, alice);
    let mut event = roll(alice, 6, 2);
    assert_eq!(result_of(&mut game, &mut event), ReplacementResult::Updated);
    if let ReplacementEvent::RollDice { dice_pt_exchanges, .. } = event {
        assert!(dice_pt_exchanges.contains(&replacer));
    } else {
        panic!("unexpected event type");
    }
}

#[test]
fn indestructible_destroy_replaced() {
    let mut game = make_game();
    let alice = PlayerId(0);
    let cid = add_creature_with_abilities(
        &mut game,
        alice,
        "Indestructible Bear",
        &["R$ Event$ Destroy | ValidCard$ Card.Self"],
    );
    put_in(&mut game, cid, ZoneType::Battlefield);
    card_matches(&mut game, "Card.Self", cid, cid);
    let mut event = ReplacementEvent::Destroy { target: cid };
    assert_eq!(result_of(&mut game, &mut event), ReplacementResult::Replaced);
}

#[test]
fn destroy_not_replaced_for_other_card() {
    let mut game = make_game();
    let alice = PlayerId(0);
    let cid = add_creature_with_abilities(
        &mut game,
        alice,
        "Indestructible Bear",
        &["R$ Event$ Destroy | ValidCard$ Card.Self"],
    );
    let other = add_creature_with_abilities(&mut game, alice, "Mortal Bear", &[]);
    put_in(&mut game, cid, ZoneType::Battlefield);
    put_in(&mut game, other, ZoneType::Battlefield);
    card_matches(&mut game, "Card.Self", cid, cid);
    let mut event = ReplacementEvent::Destroy { target: other };
    assert_eq!(result_of(&mut game, &mut event), ReplacementResult::NotReplaced);
}

fn exile_bear(game: &mut GameState) -> CardId {
    let cid = add_creature_with_abilities(
        game,
        PlayerId(0),
        "Exile Bear",
        &["R$ Event$ Moved | Destination$ Graveyard | Origin$ Battlefield | ValidCard$ Card.Self | NewDestination$ Exile"],
    );
    put_in(game, cid, ZoneType::Battlefield);
    card_matches(game, "Card.Self", cid, cid);
    cid
}

#[test]
fn moved_destination_updated_to_exile() {
    let mut game = make_game();
    let cid = exile_bear(&mut game);
    let mut event = burial(cid, ZoneType::Battlefield);
    assert_eq!(result_of(&mut game, &mut event), ReplacementResult::Updated);
    if let ReplacementEvent::Moved { destination, .. } = event {
        assert_eq!(destination, ZoneType::Exile);
    } else {
        panic!("unexpected event type");
    }
}

#[test]
fn moved_not_replaced_wrong_origin() {
    let mut game = make_game();
    let cid = exile_bear(&mut game);
    let mut event = burial(cid, ZoneType::Hand);
    assert_eq!(result_of(&mut game, &mut event), ReplacementResult::NotReplaced);
}

fn asked(game: &mut GameState, event: &mut ReplacementEvent, confirm: bool) -> ReplacementResult {
    let mut running = Vec::new();
    let (mut handler, mut step) = apply_replacements_with_agents(game, &mut running, event, None);
    loop {
        let reply = match &step {
            ReplacementStep::Done(result) => return *result,
            ReplacementStep::Choose { .. } => ReplacementReply::Chosen(0),
            ReplacementStep::Confirm { player, .. } => {
                assert_eq!(*player, Some(PlayerId(0)));
                ReplacementReply::Confirmed(confirm)
            }
            ReplacementStep::Perform { .. } => panic!("no ability is to happen"),
        };
        step = handler.run(game, &mut running, event, None, reply);
    }
}

#[test]
fn declined_optional_replacement_falls_through_to_next_candidate() {
    let mut game = make_game();
    let cid = add_creature_with_abilities(
        &mut game,
        PlayerId(0),
        "Optional Bear",
        &[
            "R$ Event$ Moved | Destination$ Graveyard | Origin$ Battlefield | ValidCard$ Card.Self | Optional$ True | OptionalDecider$ You | NewDestination$ Command",
            "R$ Event$ Moved | Destination$ Graveyard | Origin$ Battlefield | ValidCard$ Card.Self | NewDestination$ Exile",
        ],
    );
    put_in(&mut game, cid, ZoneType::Battlefield);
    card_matches(&mut game, "Card.Self", cid, cid);
    let mut event = burial(cid, ZoneType::Battlefield);
    assert_eq!(asked(&mut game, &mut event, false), ReplacementResult::Updated);
    if let ReplacementEvent::Moved { destination, .. } = event {
        assert_eq!(destination, ZoneType::Exile);
    } else {
        panic!("unexpected event type");
    }
}

#[test]
fn accepted_optional_replacement_updates_destination() {
    let mut game = make_game();
    let cid = add_creature_with_abilities(
        &mut game,
        PlayerId(0),
        "Optional Bear",
        &["R$ Event$ Moved | Destination$ Graveyard | Origin$ Battlefield | ValidCard$ Card.Self | Optional$ True | OptionalDecider$ You | NewDestination$ Command"],
    );
    put_in(&mut game, cid, ZoneType::Battlefield);
    card_matches(&mut game, "Card.Self", cid, cid);
    let mut event = burial(cid, ZoneType::Battlefield);
    assert_eq!(asked(&mut game, &mut event, true), ReplacementResult::Updated);
    if let ReplacementEvent::Moved { destination, .. } = event {
        assert_eq!(destination, ZoneType::Command);
    } else {
        panic!("unexpected event type");
    }
}

#[test]
fn no_effects_returns_not_replaced() {
    let mut game = make_game();
    let mut event = draw(PlayerId(0));
    assert_eq!(result_of(&mut game, &mut event), ReplacementResult::NotReplaced);
}
