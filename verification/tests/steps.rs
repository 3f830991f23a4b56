use manabrew_engine::game::{Card, GameState, PhaseType};
use manabrew_engine::phase::extra_phase::ExtraPhase;
use manabrew_engine::phase::untap::{do_day_time, do_phasing, do_untap};
use manabrew_engine::types::{CardId, PlayerId, ZoneType};

const P0: PlayerId = PlayerId(0);
const P1: PlayerId = PlayerId(1);

fn permanent(game: &mut GameState, owner: PlayerId) -> CardId {
    let mut card = Card::new(CardId(0), "Permanent", owner);
    card.zone = ZoneType::Battlefield;
    game.create_card(card)
}

#[test]
fn permanents_phase_in_and_out_with_their_player() {
    let mut game = GameState::new(2, 20);
    permanent(&mut game, P0);
    permanent(&mut game, P0);
    permanent(&mut game, P1);
    game.cards[0].phased_out = true;
    game.cards[1].keywords.push("Phasing".to_string());
    game.cards[2].phased_out = true;
    do_phasing(&mut game, P0);
    assert!(!game.cards[0].phased_out);
    assert!(game.cards[1].phased_out);
    assert!(game.cards[2].phased_out);
}

#[test]
fn day_and_night_follow_the_spells_that_were_cast() {
    let mut game = GameState::new(2, 20);
    let spell = permanent(&mut game, P1);
    // Without day or night nothing changes.
    assert_eq!(do_day_time(&mut game, Some(P1)), None);
    game.is_day = true;
    assert_eq!(do_day_time(&mut game, None), None);
    assert_eq!(do_day_time(&mut game, Some(P1)), Some(true));
    assert!(game.is_night && !game.is_day);
    game.cast_last_turn.push(spell);
    assert_eq!(do_day_time(&mut game, Some(P1)), None);
    game.cast_last_turn.push(spell);
    assert_eq!(do_day_time(&mut game, Some(P0)), None);
    assert_eq!(do_day_time(&mut game, Some(P1)), Some(false));
    assert!(game.is_day && !game.is_night);
}

#[test]
fn permanents_untap_unless_something_keeps_them() {
    let mut game = GameState::new(2, 20);
    for _ in 0..5 {
        permanent(&mut game, P0);
    }
    permanent(&mut game, P1);
    for i in 0..6 {
        game.cards[i].tapped = true;
    }
    for i in 0..6u32 {
        game.zone_order.push(CardId(i));
    }
    game.cards[1].keywords.push("CARDNAME doesn't untap during your untap step.".to_string());
    game.cards[2].exerted = true;
    game.cards[3]
        .keywords
        .push("This card doesn't untap during your next untap step.".to_string());
    let untapped = do_untap(&mut game, P0);
    assert_eq!(untapped, vec![CardId(0), CardId(4)]);
    let tapped: Vec<bool> = game.cards.iter().map(|c| c.tapped).collect();
    assert_eq!(tapped, vec![false, true, true, true, false, true]);
    assert!(!game.cards[2].exerted);
    assert!(game.cards[3].keywords.is_empty());
    // What was kept once untaps the next time.
    assert_eq!(do_untap(&mut game, P0), vec![CardId(2), CardId(3)]);
    assert!(game.cards[1].tapped);
}

#[test]
fn an_extra_phase_keeps_its_triggers_in_order() {
    let mut extra: ExtraPhase<u32> = ExtraPhase::new(PhaseType::CombatBegin);
    assert_eq!(extra.get_phase(), PhaseType::CombatBegin);
    assert!(extra.get_delayed_triggers().is_empty());
    extra.add_trigger(7);
    extra.add_trigger(3);
    assert_eq!(extra.get_delayed_triggers(), &vec![7, 3]);
}
