use manabrew_engine::game::{Card, CardMatch, Counter, GameState, SVar};
use manabrew_engine::mana::ability::ManaAbilityRef;
use manabrew_engine::mana::ai_sources::ByLowBits;
use manabrew_engine::mana::prefer::ByText;
use manabrew_engine::sorting::{sort_by, sort_runs};
use manabrew_engine::spell::{NumericParam, NumericParamIr, SpellAbility};
use manabrew_engine::svar::cost_amount::{check_counter_qualifier, resolve_cost_amount_svar};
use manabrew_engine::svar::eval::{
    player_condition_matches, resolve_count_svar, resolve_numeric_svar, resolve_numeric_value,
    resolve_player_count_svar,
};
use manabrew_engine::svar::folds::{count_valid_aggregate, fold_values, list_property_fold, ListFold};
use manabrew_engine::svar::lists::longest_run;
use manabrew_engine::svar::math::{apply_simple_operator_chain, divide, divide_rest, operate};
use manabrew_engine::svar::party::count_party;
use manabrew_engine::svar::simple::{check_prime, compare_expr, evaluate_svar};
use manabrew_engine::types::{CardId, PlayerId, ZoneType};

const P0: PlayerId = PlayerId(0);

fn put(game: &mut GameState, card: Card, zone: ZoneType) -> CardId {
    let id = game.create_card(card);
    game.cards[id.0 as usize].zone = zone;
    game.zone_order.push(id);
    id
}

fn creature(power: i32, toughness: i32, subtypes: &[&str]) -> Card {
    let mut card = Card::new(CardId(0), "Creature", P0);
    card.types.creature = true;
    card.power = power;
    card.toughness = toughness;
    card.types.subtypes = subtypes.iter().map(|s| s.to_string()).collect();
    card
}

// ---- arithmetic ----

#[test]
fn halves_and_thirds() {
    for n in [-5, -4, -1, 0, 1, 4, 7] {
        assert_eq!(operate(n, "HalfUp", 0) + operate(n, "HalfDown", 0), n);
    }
    assert_eq!(operate(7, "HalfUp", 0), 4);
    assert_eq!(operate(7, "HalfDown", 0), 3);
    assert_eq!(operate(-7, "HalfDown", 0), -4);
    assert_eq!(operate(7, "ThirdUp", 0), 3);
    assert_eq!(operate(7, "ThirdDown", 0), 2);
}

#[test]
fn minus_takes_back_what_plus_adds() {
    for (n, k) in [(3, 4), (i32::MAX, 1), (-2, i32::MIN)] {
        assert_eq!(operate(operate(n, "Plus", k), "Minus", k), n);
        assert_eq!(operate(operate(n, "NMinus", k), "NMinus", k), n);
    }
    assert_eq!(operate(3, "NMinus", 10), 7);
    assert_eq!(operate(3, "Negative", 0), -3);
    assert_eq!(operate(-3, "Abs", 0), 3);
    assert_eq!(operate(3, "Unknown", 9), 3);
}

#[test]
fn products_powers_and_quotients() {
    assert_eq!(operate(3, "Twice", 0), 6);
    assert_eq!(operate(3, "Thrice", 0), 9);
    assert_eq!(operate(3, "Times", 5), 15);
    assert_eq!(operate(2, "Pow", 10), 1024);
    assert_eq!(operate(10, "Pow", 20), i32::MAX);
    assert_eq!(operate(-10, "Pow", 21), i32::MIN);
    assert_eq!(operate(2, "Pow", -1), 0);
    assert_eq!(operate(0, "Pow", -1), i32::MAX);
    assert_eq!(operate(7, "DivideEvenlyUp", 2), 4);
    assert_eq!(operate(8, "DivideEvenlyUp", 2), 4);
    assert_eq!(operate(7, "DivideEvenlyDown", 2), 3);
    assert_eq!(operate(7, "DivideEvenlyDown", 0), 0);
    assert_eq!(operate(7, "Mod", 4), 3);
    for (n, by) in [(7, 2), (-7, 2), (7, -2), (-7, -2)] {
        assert_eq!(divide(n, by) * by + divide_rest(n, by), n);
    }
}

#[test]
fn limits_hold() {
    assert_eq!(operate(9, "LimitMax", 5), 5);
    assert_eq!(operate(3, "LimitMax", 5), 3);
    assert_eq!(operate(9, "LimitMin", 5), 9);
    assert_eq!(operate(3, "LimitMin", 5), 5);
}

#[test]
fn operators_are_chained_from_left_to_right() {
    assert_eq!(apply_simple_operator_chain(3, "Plus.2/Times.4/Minus.1"), 19);
    assert_eq!(apply_simple_operator_chain(5, "HalfUp"), 3);
    assert_eq!(apply_simple_operator_chain(5, "HalfDown"), 2);
    assert_eq!(apply_simple_operator_chain(5, "Plus.x"), 5);
    assert_eq!(apply_simple_operator_chain(5, ""), 5);
}

#[test]
fn conditions_compare_numbers() {
    assert!(compare_expr(3, "GE3"));
    assert!(!compare_expr(3, "GT3"));
    assert!(compare_expr(3, "LE3"));
    assert!(!compare_expr(3, "LT3"));
    assert!(compare_expr(3, "EQ3"));
    assert!(compare_expr(3, "NE4"));
    assert!(!compare_expr(3, "XX3"));
    assert!(!compare_expr(3, "GEx"));
}

#[test]
fn primes_are_known() {
    let primes: Vec<i32> = (-2..20).filter(|&n| check_prime(n)).collect();
    assert_eq!(primes, vec![2, 3, 5, 7, 11, 13, 17, 19]);
}

#[test]
fn values_are_folded() {
    let values = vec![4, 2, 4, 7];
    assert_eq!(list_property_fold("GreatestPower"), (ListFold::Greatest, "Power"));
    assert_eq!(list_property_fold("Power"), (ListFold::Sum, "Power"));
    assert_eq!(fold_values(ListFold::Greatest, &values), 7);
    assert_eq!(fold_values(ListFold::Least, &values), 2);
    assert_eq!(fold_values(ListFold::Different, &values), 3);
    assert_eq!(fold_values(ListFold::Sum, &values), 17);
    assert_eq!(fold_values(ListFold::Greatest, &vec![]), 0);
    assert_eq!(longest_run(&vec![1, 1, 2, 2, 2, 1]), 3);
    assert_eq!(longest_run(&vec![]), 0);
}

// ---- counts ----

#[test]
fn counts_of_a_player_and_a_card() {
    let mut game = GameState::new(2, 20);
    game.players[0].life = 13;
    game.players[0].speed = 4;
    let id = put(&mut game, creature(3, 5, &[]), ZoneType::Battlefield);
    let count = |t: &str| resolve_count_svar(t, &game, id, P0);
    assert_eq!(count("Count$YourLifeTotal"), 13);
    assert_eq!(count("Count$YourLifeTotal/HalfUp"), 7);
    assert_eq!(count("Count$CardPower"), 3);
    assert_eq!(count("Count$CardToughness"), 5);
    assert_eq!(count("Count$YourSpeed"), 4);
    assert_eq!(count("Count$MaxSpeed.2.1"), 2);
}

#[test]
fn devotion_counts_symbols() {
    let mut game = GameState::new(2, 20);
    let mut card = creature(1, 1, &[]);
    card.cost_shards = vec![16, 16, 8];
    let id = put(&mut game, card, ZoneType::Battlefield);
    assert_eq!(resolve_count_svar("Count$Devotion.Green", &game, id, P0), 2);
    assert_eq!(resolve_count_svar("Count$Devotion.red", &game, id, P0), 1);
}

#[test]
fn counters_on_a_card_are_counted() {
    let mut game = GameState::new(2, 20);
    let mut card = creature(1, 1, &[]);
    card.counters.push(Counter { kind: "P1P1".to_string(), count: 3 });
    card.counters.push(Counter { kind: "LOYALTY".to_string(), count: 2 });
    let id = put(&mut game, card, ZoneType::Battlefield);
    assert_eq!(resolve_count_svar("Count$CardCounters.P1P1", &game, id, P0), 3);
    assert_eq!(resolve_count_svar("Count$CardCounters.ALL", &game, id, P0), 5);
    assert!(check_counter_qualifier(&game.cards[0], "counters_GE3_P1P1"));
    assert!(!check_counter_qualifier(&game.cards[0], "counters_GE4_P1P1"));
}

#[test]
fn valid_cards_are_counted() {
    let mut game = GameState::new(2, 20);
    let host = put(&mut game, creature(1, 1, &[]), ZoneType::Battlefield);
    let other = put(&mut game, creature(4, 4, &[]), ZoneType::Battlefield);
    for card in [host, other] {
        game.facts.card_matches.push(CardMatch {
            selector: "Creature.YouCtrl".to_string(),
            source: host,
            you: P0,
            card,
        });
    }
    assert_eq!(resolve_count_svar("Count$Valid Creature.YouCtrl", &game, host, P0), 2);
    assert_eq!(resolve_count_svar("Count$Valid Creature.YouCtrl/Twice", &game, host, P0), 4);
    assert_eq!(resolve_count_svar("Count$Valid Land", &game, host, P0), 0);
    assert_eq!(count_valid_aggregate(&game, &vec![host, other], "CardPower"), 5);
    assert_eq!(count_valid_aggregate(&game, &vec![host, other], "GreatestCardPower"), 4);
    assert_eq!(count_valid_aggregate(&game, &vec![host, other], "Amount"), 2);
}

#[test]
fn a_party_has_one_of_each_role() {
    let mut game = GameState::new(2, 20);
    let mut ids = Vec::new();
    for subtypes in [&["Cleric"][..], &["Cleric"], &["Rogue", "Warrior"], &["Rogue"], &["Goblin"]] {
        ids.push(put(&mut game, creature(1, 1, subtypes), ZoneType::Battlefield));
    }
    assert_eq!(count_party(&game, &ids), 3);
    let mut wild = creature(1, 1, &[]);
    wild.keywords.push("Changeling".to_string());
    for _ in 0..3 {
        let id = put(&mut game, creature(1, 1, &["Wizard", "Cleric"]), ZoneType::Battlefield);
        ids.push(id);
    }
    let id = put(&mut game, wild, ZoneType::Battlefield);
    ids.push(id);
    assert_eq!(count_party(&game, &ids), 4);
    assert_eq!(count_party(&game, &vec![]), 0);
}

#[test]
fn numbers_and_script_variables_are_resolved() {
    let mut game = GameState::new(2, 20);
    let mut card = creature(1, 1, &[]);
    card.svars.push(SVar { name: "X".to_string(), value: "Count$YourLifeTotal".to_string() });
    let host = put(&mut game, card, ZoneType::Battlefield);
    let sa = SpellAbility::new_simple(Some(host), P0, "DB$ Draw");
    assert_eq!(resolve_numeric_value(&game, &sa, "7", 0), 7);
    assert_eq!(resolve_numeric_value(&game, &sa, "X", 0), 20);
    assert_eq!(resolve_numeric_value(&game, &sa, "Unknown", 5), 5);
    assert_eq!(evaluate_svar("Number$4", &sa), 4);
    assert_eq!(resolve_cost_amount_svar(&game, &game.cards[0], "X", P0), 20);
    assert_eq!(resolve_cost_amount_svar(&game, &game.cards[0], "6", P0), 6);
    assert_eq!(resolve_cost_amount_svar(&game, &game.cards[0], "Missing", P0), 0);
}

#[test]
fn conditions_on_players_compare_life() {
    let mut game = GameState::new(2, 20);
    let host = put(&mut game, creature(1, 1, &[]), ZoneType::Battlefield);
    let sa = SpellAbility::new_simple(Some(host), P0, "DB$ Draw");
    let meets = |t: &str| player_condition_matches(P0, t, &game, host, P0, &sa);
    assert!(meets("ConditionGE20 LifeTotal"));
    assert!(!meets("ConditionGT20 LifeTotal"));
    assert!(!meets("LifeTotal"));
}

// ---- sorting ----

fn making(text: &str) -> ManaAbilityRef {
    ManaAbilityRef {
        card_id: CardId(0),
        ability_index: None,
        atoms: Vec::new(),
        amount: 1,
        mana_text: text.to_string(),
        combo_color_identity: false,
        combo: false,
        any_like: false,
        special: false,
        fixed: None,
        special_atoms: Vec::new(),
        source_order: 0,
    }
}

#[test]
fn sorting_keeps_the_order_of_equals() {
    assert_eq!(sort_by(&vec![33, 2, 64, 1, 34], &ByLowBits {}), vec![64, 33, 1, 2, 34]);
    assert_eq!(sort_by(&vec![1, 2, 15], &ByLowBits {}), vec![1, 2, 15]);
    assert_eq!(sort_by(&vec![], &ByLowBits {}), Vec::<i32>::new());
}

#[test]
fn runs_are_sorted_by_comparing() {
    let refs = vec![making("R"), making("G"), making("R G"), making("W")];
    let first = ByText { refs: &refs, part: "W", first: true };
    assert_eq!(sort_runs(&vec![0, 1, 2, 3], &first), vec![3, 0, 1, 2]);
    let last = ByText { refs: &refs, part: "R", first: false };
    let mut sorted = sort_runs(&vec![1, 3, 0], &last);
    assert_eq!(sorted.pop(), Some(0));
    assert_eq!(sort_runs(&vec![], &last), Vec::<usize>::new());
}

#[test]
fn a_sign_turns_a_value_round() {
    let mut game = GameState::new(2, 20);
    let id = put(&mut game, creature(1, 1, &[]), ZoneType::Battlefield);
    game.cards[id.0 as usize].svars.push(SVar {
        name: "Y".to_string(),
        value: "Number$7".to_string(),
    });
    let mut sa = SpellAbility::new_empty(Some(id), P0);
    sa.x_mana_cost_paid = 4;
    let value = |t: &str| resolve_numeric_value(&game, &sa, t, 9);
    assert_eq!((value("Y"), value("+Y"), value("-Y")), (7, 7, -7));
    assert_eq!((value("X"), value("+X"), value("-X")), (4, 4, -4));
    assert_eq!((value("5"), value("+5"), value("-5")), (5, 5, -5));
    // What names nothing gives the default, whatever the sign.
    assert_eq!((value("Z"), value("+Z"), value("-Z")), (9, 9, 9));
    // This number has only its opposite in range.
    assert_eq!((value("2147483648"), value("-2147483648")), (9, i32::MIN));
}

#[test]
fn values_that_name_themselves_come_to_an_end() {
    let mut game = GameState::new(2, 20);
    let id = put(&mut game, creature(1, 1, &[]), ZoneType::Battlefield);
    game.cards[id.0 as usize].svars.push(SVar {
        name: "Loop".to_string(),
        value: "Count$Adamant.red.Loop.Loop".to_string(),
    });
    let sa = SpellAbility::new_empty(Some(id), P0);
    assert_eq!(resolve_numeric_value(&game, &sa, "Loop", 9), 0);
}

#[test]
fn counts_of_players_bound_each_other() {
    let mut game = GameState::new(3, 20);
    game.players[1].life = 5;
    game.players[2].life = 11;
    let id = put(&mut game, creature(1, 1, &[]), ZoneType::Battlefield);
    let count = |t: &str| resolve_count_svar(t, &game, id, P0);
    assert_eq!(count("PlayerCountPlayers$Amount"), 3);
    assert_eq!(count("PlayerCountPlayers$LowestLifeTotal"), 5);
    assert_eq!(count("PlayerCountPlayers$HighestLifeTotal"), 20);
    assert_eq!(count("PlayerCountPlayers$LifeTotal"), 36);
    // Nobody is remembered.
    for property in ["Amount", "LowestLifeTotal", "HighestLifeTotal", "LifeTotal"] {
        assert_eq!(count(&format!("PlayerCountRemembered${property}")), 0);
    }
}

#[test]
fn aggregates_are_bounded_by_cards() {
    let mut game = GameState::new(2, 20);
    let mut ids = Vec::new();
    for (power, color) in [(3, 1), (-1, 8), (2, 9)] {
        let mut card = creature(power, 1, &[]);
        card.color = color;
        card.cmc = power + 1;
        card.mana_value = power + 1;
        ids.push(put(&mut game, card, ZoneType::Battlefield));
    }
    let all = |what: &str| count_valid_aggregate(&game, &ids, what);
    assert_eq!((all(""), all("Amount")), (3, 3));
    assert_eq!((all("LeastCardPower"), all("GreatestCardPower")), (-1, 3));
    assert_eq!((all("LeastCardManaCost"), all("GreatestCardManaCost")), (0, 4));
    assert_eq!(all("DifferentCardNames"), 1);
    assert_eq!(all("Colors"), 2);
    for what in ["", "Amount", "LeastCardPower", "GreatestCardManaCost", "Colors", "CardTypes"] {
        assert_eq!(count_valid_aggregate(&game, &Vec::new(), what), 0);
    }
}

#[test]
fn a_condition_is_cut_behind_two_bytes() {
    let mut game = GameState::new(2, 20);
    let id = put(&mut game, creature(1, 1, &[]), ZoneType::Battlefield);
    let sa = SpellAbility::new_empty(Some(id), P0);
    let meets = |t: &str| player_condition_matches(P0, t, &game, id, P0, &sa);
    assert!(meets("ConditionGE20 LifeTotal"));
    assert!(!meets("ConditionGE21 LifeTotal"));
    // Without an operator one is enough.
    assert!(meets("Condition LifeTotal"));
    assert!(meets("ConditionG LifeTotal"));
    // A character of two bytes is no operator.
    assert!(!meets("Condition\u{e9} LifeTotal"));
    assert!(!meets("Condition\u{e9}1 LifeTotal"));
}

#[test]
fn chains_that_are_joined_act_in_turn() {
    for (a, b) in [("Plus.2", "Times.4"), ("Times.3/Minus.1", "HalfUp"), ("", "Plus.1")] {
        let joined = format!("{a}/{b}");
        assert_eq!(
            apply_simple_operator_chain(5, &joined),
            apply_simple_operator_chain(apply_simple_operator_chain(5, a), b),
        );
    }
    assert_eq!(apply_simple_operator_chain(5, "Plus.2/Times.4"), 28);
}

#[test]
fn players_are_counted_for_an_ability() {
    let mut game = GameState::new(3, 20);
    game.players[2].life = 11;
    let id = put(&mut game, creature(1, 1, &[]), ZoneType::Battlefield);
    let sa = SpellAbility::new_empty(Some(id), P0);
    let count = |t: &str| resolve_player_count_svar(t, &game, id, P0, &sa);
    assert_eq!(count("PlayerCountPlayers$Amount"), 3);
    assert_eq!(count("PlayerCountPlayers$LowestLifeTotal"), 11);
    assert_eq!(count("PlayerCountPlayers$HighestLifeTotal"), 20);
    assert_eq!(count("PlayerCountPlayers$LifeTotal"), 51);
    assert_eq!(count("PlayerCountRemembered$Amount"), 0);
}

#[test]
fn an_amount_stands_or_the_default_does() {
    let mut game = GameState::new(2, 20);
    let id = put(&mut game, creature(1, 1, &[]), ZoneType::Battlefield);
    let mut sa = SpellAbility::new_empty(Some(id), P0);
    for (name, value) in [("A", Some(4)), ("B", None)] {
        sa.numeric_params.push(NumericParam {
            name: name.to_string(),
            value: NumericParamIr::Amount(value),
        });
    }
    assert_eq!(resolve_numeric_svar(&game, &sa, "A", 9), 4);
    assert_eq!(resolve_numeric_svar(&game, &sa, "B", 9), 9);
    assert_eq!(resolve_numeric_svar(&game, &sa, "C", 9), 9);
}
