use manabrew_engine::game::{Card, CardMatch, GameState};
use manabrew_engine::mana::ability::{ActivatedAbility, CostPart, ProducedMana};
use manabrew_engine::mana::auto_tap::{
    auto_tap_lands, auto_tap_lands_allow_reserved_source_reuse, auto_tap_lands_with_callbacks,
};
use manabrew_engine::mana::autopay::{PayMode, Payment, TapAnswer};
use manabrew_engine::mana::cost::ManaCost;
use manabrew_engine::mana::cost_parts::{PartAnswer, PayScene};
use manabrew_engine::mana::pool::ManaPool;
use manabrew_engine::mana::questions::{next_payment_question, payment_notice, ManaPayCallback};
use manabrew_engine::mana::riders::ManaRiders;
use manabrew_engine::types::{CardId, PlayerId, ZoneType};

fn ability(index: usize, cost: Vec<CostPart>, produced: Option<ProducedMana>) -> ActivatedAbility {
    ActivatedAbility {
        ability_index: index,
        is_mana_ability: produced.is_some(),
        is_mana_reflected: false,
        activation_zone: None,
        cost,
        other_costs_payable: true,
        script_requirements_met: true,
        restrict_valid: None,
        amount: None,
        produced,
        reflected_atoms: Vec::new(),
        reflected_available_atoms: Vec::new(),
        replaced_atoms: Vec::new(),
        sub_ability: None,
        ai_logic: None,
        riders: ManaRiders::none(),
        ability_text: String::new(),
        cost_text: String::new(),
        prompt_mana: Vec::new(),
        prompt_amount: 1,
    }
}

fn of_color(text: &str, atom: u16) -> ProducedMana {
    ProducedMana {
        text: text.to_string(),
        combo_color_identity: false,
        combo: false,
        any_like: false,
        fixed: None,
        special: false,
        special_atoms: Vec::new(),
        atoms: vec![atom],
    }
}

fn of_any_color() -> ProducedMana {
    ProducedMana {
        text: "Any".to_string(),
        combo_color_identity: false,
        combo: false,
        any_like: true,
        fixed: None,
        special: false,
        special_atoms: Vec::new(),
        atoms: vec![1, 2, 4, 8, 16],
    }
}

fn sacrifice(filter: &str) -> CostPart {
    CostPart::Sacrifice { type_filter: filter.to_string(), amount: 1 }
}

fn add(game: &mut GameState, card: Card) -> CardId {
    let id = game.create_card(card);
    game.cards[id.0 as usize].zone = ZoneType::Battlefield;
    game.zone_order.push(id);
    id
}

fn land(name: &str, text: &str, atom: u16) -> Card {
    let mut card = Card::new(CardId(0), name, PlayerId(0));
    card.types.land = true;
    card.activated_abilities.push(ability(0, vec![CostPart::Tap], Some(of_color(text, atom))));
    card
}

fn food() -> Card {
    let mut card = Card::new(CardId(0), "Food Token", PlayerId(0));
    card.types.artifact = true;
    card.types.subtypes.push("Food".to_string());
    card.activated_abilities.push(ability(
        0,
        vec![
            CostPart::Mana { cost: ManaCost { generic: 2, shards: Vec::new() } },
            CostPart::Tap,
            sacrifice("CARDNAME"),
        ],
        None,
    ));
    card
}

fn goose() -> Card {
    let mut card = Card::new(CardId(0), "Gilded Goose", PlayerId(0));
    card.types.creature = true;
    card.types.subtypes.push("Bird".to_string());
    card.activated_abilities.push(ability(
        0,
        vec![CostPart::Tap, sacrifice("Food")],
        Some(of_any_color()),
    ));
    card
}

fn treasure() -> Card {
    let mut card = Card::new(CardId(0), "Treasure Token", PlayerId(0));
    card.types.artifact = true;
    card.types.subtypes.push("Treasure".to_string());
    card.activated_abilities.push(ability(
        0,
        vec![CostPart::Tap, sacrifice("CARDNAME")],
        Some(of_any_color()),
    ));
    card
}

fn generic(n: i32) -> ManaCost {
    ManaCost { generic: n, shards: Vec::new() }
}

fn matches_food(game: &mut GameState, goose: CardId, food: CardId) {
    game.facts.card_matches.push(CardMatch {
        selector: "Food".to_string(),
        source: goose,
        you: PlayerId(0),
        card: food,
    });
}

#[test]
fn auto_tap_does_not_spend_reserved_source_on_mana_sacrifice_costs_by_default() {
    let mut game = GameState::new(2, 20);
    let player = PlayerId(0);
    let mut pool = ManaPool::new();
    let reserved_food = add(&mut game, food());
    let goose = add(&mut game, goose());
    let forest = add(&mut game, land("Forest", "G", 16));
    matches_food(&mut game, goose, reserved_food);

    let tapped = auto_tap_lands(&mut game, &mut pool, player, &generic(2), Some(reserved_food));

    assert_eq!(pool.total_mana(), 1);
    assert_eq!(tapped, vec![forest]);
    assert!(!game.card(goose).unwrap().tapped);
    assert_eq!(game.card(goose).unwrap().zone, ZoneType::Battlefield);
    assert_eq!(game.card(reserved_food).unwrap().zone, ZoneType::Battlefield);
}

#[test]
fn auto_tap_can_spend_reserved_source_when_explicitly_allowed() {
    let mut game = GameState::new(2, 20);
    let player = PlayerId(0);
    let mut pool = ManaPool::new();
    let reserved_food = add(&mut game, food());
    let goose = add(&mut game, goose());
    let forest = add(&mut game, land("Forest", "G", 16));
    matches_food(&mut game, goose, reserved_food);

    let tapped = auto_tap_lands_allow_reserved_source_reuse(
        &mut game,
        &mut pool,
        player,
        &generic(2),
        Some(reserved_food),
    );

    assert_eq!(pool.total_mana(), 2);
    assert_eq!(tapped, vec![forest, goose]);
    assert!(game.card(goose).unwrap().tapped);
    assert!(game.card(forest).unwrap().tapped);
    assert_eq!(game.card(goose).unwrap().zone, ZoneType::Battlefield);
    assert_eq!(game.card(reserved_food).unwrap().zone, ZoneType::Graveyard);
}

#[test]
fn auto_tap_uses_battlefield_order_for_generic_payment() {
    let mut game = GameState::new(2, 20);
    let player = PlayerId(0);
    let mut pool = ManaPool::new();
    let plains = add(&mut game, land("Plains", "W", 1));
    let mountain = add(&mut game, land("Mountain", "R", 8));
    let forest = add(&mut game, land("Forest", "G", 16));

    let tapped = auto_tap_lands(&mut game, &mut pool, player, &generic(2), None);

    assert_eq!(pool.total_mana(), 2);
    assert_eq!(tapped, vec![plains, mountain]);
    assert!(game.card(plains).unwrap().tapped);
    assert!(game.card(mountain).unwrap().tapped);
    assert!(!game.card(forest).unwrap().tapped);
}

fn part(confirmed: bool) -> PartAnswer {
    PartAnswer { confirmed, cards: Vec::new(), outcomes: Vec::new() }
}

/// Uses sources for one generic mana as long as some can be used, and answers every question about
/// a treasure; gives the answers.
fn ask_about(game: &GameState, treasure: CardId, confirmed: bool) -> Vec<TapAnswer> {
    let reserved = Vec::new();
    let scene = PayScene {
        game,
        player: PlayerId(0),
        spell: None,
        reuse: false,
        reserved: &reserved,
    };
    let mode = PayMode { ctx: None, incremental: false, any_color: false };
    let mut payment = Payment::start(&mode, &generic(1), &ManaPool::new(), &Vec::new());
    let mut answers = Vec::new();
    while !payment.unpaid.is_paid() {
        let Some((card, index)) = payment.next_source(scene, &mode) else {
            break;
        };
        let mut parts: Vec<PartAnswer> = Vec::new();
        if card == treasure {
            // Tapping needs no answer; the sacrifice is asked about.
            assert!(next_payment_question(scene, &payment.st, card, index, &parts, &Vec::new())
                .is_none());
            parts.push(part(true));
            match next_payment_question(scene, &payment.st, card, index, &parts, &Vec::new()) {
                Some(ManaPayCallback::ConfirmSelfSacrifice(id)) => assert_eq!(id, treasure),
                _ => panic!("the sacrifice is asked about"),
            }
            let given = part(confirmed);
            let notice =
                payment_notice(scene, &payment.st, card, &sacrifice("CARDNAME"), &given);
            match notice {
                Some(ManaPayCallback::NotifySacrificeForMana(id)) => {
                    assert!(confirmed);
                    assert_eq!(id, treasure);
                }
                Some(_) => panic!("a sacrifice is to be done"),
                None => assert!(!confirmed),
            }
            parts.push(given);
            assert!(next_payment_question(scene, &payment.st, card, index, &parts, &Vec::new())
                .is_none());
        }
        let answer =
            TapAnswer { parts, replaced: None, colors: Vec::new(), pool_choices: Vec::new() };
        assert!(payment.use_next(scene, &mode, &answer));
        answers.push(answer);
    }
    answers
}

#[test]
fn auto_tap_calls_confirm_payment_for_self_sacrifice() {
    let mut game = GameState::new(2, 20);
    let player = PlayerId(0);
    let first = add(&mut game, treasure());
    {
        let mut pool = ManaPool::new();
        let answers = ask_about(&game, first, true);
        let tapped = auto_tap_lands_with_callbacks(
            &mut game,
            &mut pool,
            player,
            &generic(1),
            None,
            &answers,
        );
        assert_eq!(tapped, vec![first]);
        assert_eq!(game.card(first).unwrap().zone, ZoneType::Graveyard);
        assert_eq!(pool.total_mana(), 1);
    }
    let second = add(&mut game, treasure());
    let forest = add(&mut game, land("Forest", "G", 16));
    {
        let mut pool = ManaPool::new();
        let answers = ask_about(&game, second, false);
        let tapped = auto_tap_lands_with_callbacks(
            &mut game,
            &mut pool,
            player,
            &generic(1),
            None,
            &answers,
        );
        assert_eq!(tapped, vec![forest]);
        assert_eq!(game.card(second).unwrap().zone, ZoneType::Battlefield);
        assert_eq!(game.card(forest).unwrap().zone, ZoneType::Battlefield);
        assert_eq!(pool.total_mana(), 1);
    }
}

fn elf() -> Card {
    let mut card = Card::new(CardId(0), "Elf", PlayerId(0));
    card.types.creature = true;
    card.activated_abilities.push(ability(0, vec![CostPart::Tap], Some(of_color("G", 16))));
    card
}

#[test]
fn a_declined_treasure_is_passed_over_for_an_elf() {
    let mut game = GameState::new(2, 20);
    let treasure = add(&mut game, treasure());
    let elf = add(&mut game, elf());
    let mut pool = ManaPool::new();
    let answers = ask_about(&game, treasure, false);
    let tapped = auto_tap_lands_with_callbacks(
        &mut game,
        &mut pool,
        PlayerId(0),
        &generic(1),
        None,
        &answers,
    );
    assert_eq!(tapped, vec![elf]);
    assert_eq!(pool.total_mana(), 1);
    assert_eq!(game.card(treasure).unwrap().zone, ZoneType::Battlefield);
    assert!(!game.card(treasure).unwrap().tapped);
}

#[test]
fn a_declined_treasure_is_passed_over_for_another() {
    let mut game = GameState::new(2, 20);
    let first = add(&mut game, treasure());
    let second = add(&mut game, treasure());
    let no = TapAnswer {
        parts: vec![part(true), part(false)],
        replaced: None,
        colors: Vec::new(),
        pool_choices: Vec::new(),
    };
    let mut pool = ManaPool::new();
    let tapped = auto_tap_lands_with_callbacks(
        &mut game,
        &mut pool,
        PlayerId(0),
        &generic(1),
        None,
        &vec![no],
    );
    assert_eq!(tapped.len(), 1);
    assert_eq!(pool.total_mana(), 1);
    let kept = if tapped[0] == first { second } else { first };
    assert_eq!(game.card(tapped[0]).unwrap().zone, ZoneType::Graveyard);
    assert_eq!(game.card(kept).unwrap().zone, ZoneType::Battlefield);
}
