use manabrew_engine::game::{Card, Facts};
use manabrew_engine::parsing::compiled::cached_compiled_selector;
use manabrew_engine::parsing::lowering::lower_selector_part;
use manabrew_engine::parsing::misc::{
    enchant_type_matches_card, enchant_type_to_target_params, enchant_type_to_valid_tgts,
    parse_classified_or_warn, parse_or_warn, strip_times_multiplier,
};
use manabrew_engine::parsing::params::{
    raw_get, raw_has_any, raw_has_key, split_param_list_value, Params,
};
use manabrew_engine::parsing::selector::{
    selector_predicate_order, CardIdentitySelector, CardSelectorType, CompiledSelector,
    ControllerSelector, NumericSelectorProperty, SelectorCompareOperator, SelectorNumericOperand,
    SelectorPredicate,
};
use manabrew_engine::text::{
    eq_ignore_case, join, less, parse_i32, parse_unsigned, replace_text, split, split_up_to,
    to_lower, trim, write_count, write_number,
};
use manabrew_engine::types::{CardId, PlayerId, ZoneType};

// ---- texts ----

#[test]
fn white_space_is_trimmed_at_both_ends() {
    assert_eq!(trim(" \t a b \u{3000}\n"), "a b");
    assert_eq!(trim("   "), "");
    assert_eq!(trim(""), "");
}

#[test]
fn lower_case_changes_letters_alone() {
    assert_eq!(to_lower("AbZ-9\u{c4}"), "abz-9\u{c4}");
    assert!(eq_ignore_case("LiBrary", "library"));
    assert!(!eq_ignore_case("library", "libraries"));
}

#[test]
fn a_text_is_split_at_every_mark() {
    assert_eq!(split("a,b,,c", ","), vec!["a", "b", "", "c"]);
    assert_eq!(split("abc", ","), vec!["abc"]);
    assert_eq!(split("", ","), vec![""]);
    assert_eq!(split_up_to("a b c d", " ", 2), vec!["a", "b c d"]);
}

#[test]
fn numbers_are_read_as_std_reads_them() {
    assert_eq!(parse_i32("42"), Some(42));
    assert_eq!(parse_i32("+7"), Some(7));
    assert_eq!(parse_i32("-2147483648"), Some(i32::MIN));
    assert_eq!(parse_i32("2147483648"), None);
    assert_eq!(parse_i32(""), None);
    assert_eq!(parse_i32("-"), None);
    assert_eq!(parse_i32("1 "), None);
    assert_eq!(parse_unsigned("18", 18), Some(18));
    assert_eq!(parse_unsigned("19", 18), None);
    assert_eq!(parse_unsigned("-1", 18), None);
}

#[test]
fn a_written_number_is_read_again() {
    assert_eq!(write_number(0), "0");
    assert_eq!(write_number(-120), "-120");
    assert_eq!(write_number(i64::MIN), "-9223372036854775808");
    assert_eq!(write_count(907), "907");
    for n in [0i32, 9, 10, -1, 12345, i32::MAX, i32::MIN] {
        assert_eq!(parse_i32(&write_number(n as i64)), Some(n));
    }
}

#[test]
fn texts_are_joined_replaced_and_ordered() {
    let parts = vec!["a".to_string(), "b".to_string(), "c".to_string()];
    assert_eq!(join(&parts, ", "), "a, b, c");
    assert_eq!(join(&Vec::new(), ", "), "");
    assert_eq!(replace_text("aXbXc", "X", "--"), "a--b--c");
    assert!(less("abc", "abd"));
    assert!(less("ab", "abc"));
    assert!(!less("abc", "abc"));
}

// ---- parameter lists ----

#[test]
fn the_last_of_equal_keys_counts() {
    let params = Params::from_raw("Amount$ 1 | Amount$ 2 | Other$ x | Amount$3");
    assert_eq!(params.get("Amount"), Some("3"));
    assert_eq!(params.iter().len(), 2);
    let parsed = Params::from_parsed(&[("A", "1"), ("B", "2"), ("A", "3")]);
    assert_eq!(parsed.get("A"), Some("3"));
    assert_eq!(parsed.get("B"), Some("2"));
    assert_eq!(raw_get("A$ 1 | A$ 2", "A"), Some("2"));
}

#[test]
fn pieces_without_a_mark_say_nothing() {
    let params = Params::from_raw("nothing | Key$ Value | ");
    assert_eq!(params.iter(), vec![("Key", "Value")]);
    assert!(Params::from_raw("").is_empty());
}

#[test]
fn parameters_are_put_and_removed() {
    let mut params = Params::from_raw("B$ 1");
    params.put("A".to_string(), "x".to_string());
    params.put("B".to_string(), "2".to_string());
    assert_eq!(params.iter(), vec![("A", "x"), ("B", "2")]);
    assert_eq!(params.remove("A"), Some("x".to_string()));
    assert_eq!(params.remove("A"), None);
    assert_eq!(params.get("A"), None);
    assert_eq!(params.get("B"), Some("2"));
    assert!(!params.is_empty());
}

#[test]
fn the_inner_list_is_in_key_order() {
    let params = Params::from_raw("Zone$ Hand | Amount$ 2 | Mode$ Any");
    let keys: Vec<&str> = params.inner().iter().map(|e| e.key.as_str()).collect();
    assert_eq!(keys, vec!["Amount", "Mode", "Zone"]);
    let values: Vec<String> = params.into_inner().into_iter().map(|e| e.value).collect();
    assert_eq!(values, vec!["2", "Any", "Hand"]);
}

#[test]
fn raw_lists_are_asked_for_keys() {
    assert!(raw_has_key("Mode$ Any | Cost$ 1", "Cost"));
    assert!(!raw_has_key("Mode$ Any | Cost$ 1", "cost"));
    assert!(raw_has_any("Mode$ Any", &["Cost", "Mode"]));
    assert!(!raw_has_any("Mode$ Any", &[]));
}

#[test]
fn zones_are_read_from_values() {
    let params = Params::from_raw("A$ Hand,Library | B$ Deck | C$ nowhere | D$ Exile Nowhere");
    assert_eq!(params.zone_types("A"), vec![ZoneType::Hand, ZoneType::Library]);
    assert_eq!(params.zone_type("B"), Some(ZoneType::Library));
    assert_eq!(params.zone_type("C"), None);
    assert_eq!(params.zone_types("D"), vec![ZoneType::Exile]);
    assert_eq!(params.zone_types("Missing"), vec![]);
}

#[test]
fn delimited_values_lose_blanks() {
    assert_eq!(split_param_list_value(Some(" a & b &  & c "), "&"), vec!["a", "b", "c"]);
    assert!(split_param_list_value(None, ",").is_empty());
    let params = Params::from_raw("List$ x, y");
    assert_eq!(params.split_param_list("List", ","), vec!["x", "y"]);
}

#[test]
fn selectors_come_from_the_first_key_that_is_given() {
    let params = Params::from_raw("ValidCard$ Creature.YouCtrl | ValidToken$ Land");
    let s = params.selector_cloned_any(&["Missing", "ValidToken", "ValidCard"]).unwrap();
    assert_eq!(s.as_raw(), "Land");
    assert!(params.selector_cloned("Missing").is_none());
}

// ---- selectors ----

#[test]
fn a_selector_keeps_what_was_written() {
    let s = CompiledSelector::parse("Creature.Other+YouCtrl,Land");
    assert_eq!(s.as_raw(), "Creature.Other+YouCtrl,Land");
    assert_eq!(s.alternatives.len(), 2);
    assert_eq!(s.ir.alternatives.len(), 2);
    assert!(!s.is_any_of(["Land"]));
    assert!(cached_compiled_selector(" You ").is_any_of(["Opponent", "you"]));
}

#[test]
fn conditions_are_tried_in_the_order_of_their_ranks() {
    let s = CompiledSelector::parse("Creature.cmcLE3+YouCtrl+Other");
    let ranks: Vec<_> = s.ir.alternatives[0].predicates.iter().map(selector_predicate_order).collect();
    let mut sorted = ranks.clone();
    sorted.sort();
    assert_eq!(ranks, sorted);
    assert_eq!(s.ir.alternatives[0].predicates.len(), 4);
    assert!(s.ir.alternatives[0]
        .predicates
        .contains(&SelectorPredicate::CardController(ControllerSelector::You)));
    assert!(s.ir.alternatives[0].predicates.contains(&SelectorPredicate::NumericComparison {
        property: NumericSelectorProperty::ManaValue,
        operator: SelectorCompareOperator::Le,
        value: SelectorNumericOperand::Literal(3),
    }));
}

#[test]
fn an_exclamation_mark_negates() {
    assert_eq!(
        lower_selector_part("!Self", false),
        SelectorPredicate::Not(Box::new(SelectorPredicate::CardIdentity(
            CardIdentitySelector::Self_
        )))
    );
    assert_eq!(
        lower_selector_part("!!tapped", false),
        SelectorPredicate::Not(Box::new(SelectorPredicate::Not(Box::new(
            SelectorPredicate::Tapped(true)
        ))))
    );
    // White space behind the mark does not matter.
    assert_eq!(lower_selector_part("! Self ", false), lower_selector_part("!Self", false));
}

#[test]
fn words_that_are_matched_as_text_stay_as_they_are() {
    assert_eq!(lower_selector_part("", true), SelectorPredicate::Raw(String::new()));
    assert_eq!(
        lower_selector_part("isSuspected", false),
        SelectorPredicate::Raw("isSuspected".to_string())
    );
    assert_eq!(
        lower_selector_part("Goblin", false),
        SelectorPredicate::CardType(CardSelectorType::Subtype("Goblin".to_string()))
    );
    let s = CompiledSelector::from_raw_alternative(" Card.isSuspected ");
    assert_eq!(s.as_raw(), "Card.isSuspected");
    let s = CompiledSelector::parse("Card.isSuspected+YouCtrl");
    assert_eq!(s.raw_predicates(), vec!["isSuspected"]);
}

#[test]
fn the_first_part_names_a_type() {
    assert_eq!(
        lower_selector_part("Creature", true),
        SelectorPredicate::CardType(CardSelectorType::Creature)
    );
    assert_eq!(
        lower_selector_part("Goblin", true),
        SelectorPredicate::CardType(CardSelectorType::Subtype("Goblin".to_string()))
    );
}

// ---- small readings ----

#[test]
fn multipliers_are_cut_off() {
    assert_eq!(strip_times_multiplier("Creature.YouCtrl/Times.3"), ("Creature.YouCtrl", 3));
    assert_eq!(strip_times_multiplier("Creature/Times.x"), ("Creature", 1));
    assert_eq!(strip_times_multiplier("Creature"), ("Creature", 1));
}

#[test]
fn enchant_keywords_become_filters() {
    assert_eq!(enchant_type_to_valid_tgts("CREATURE"), "Creature");
    assert_eq!(enchant_type_to_valid_tgts("creature or player"), "Creature,Player");
    assert_eq!(enchant_type_to_valid_tgts(""), "Permanent");
    assert_eq!(enchant_type_to_valid_tgts("Creature.YouCtrl:creature you control"), "Creature.YouCtrl");
    assert_eq!(enchant_type_to_target_params("Land"), "ValidTgts$ Land");
    assert_eq!(
        enchant_type_to_target_params("Creature.inZoneGraveyard"),
        "Origin$ Graveyard | ValidTgts$ Creature"
    );
    // Letters beyond ASCII are lower-cased too: the Kelvin sign is a capital k.
    assert_eq!(enchant_type_to_valid_tgts("planeswal\u{212a}er"), "Planeswalker");
}

#[test]
fn an_aura_stays_on_what_it_enchants() {
    let facts = Facts::new();
    let mut card = Card::new(CardId(0), "Bear", PlayerId(0));
    card.types.creature = true;
    card.zone = ZoneType::Battlefield;
    assert!(enchant_type_matches_card(&facts, "Creature", &card, None));
    assert!(enchant_type_matches_card(&facts, "Permanent", &card, None));
    assert!(!enchant_type_matches_card(&facts, "Land", &card, None));
    assert!(!enchant_type_matches_card(&facts, "Creature.Goblin", &card, None));
    card.zone = ZoneType::Graveyard;
    assert!(!enchant_type_matches_card(&facts, "Creature", &card, None));
    assert!(enchant_type_matches_card(&facts, "Creature.inZoneGraveyard", &card, None));
}

#[test]
fn only_lines_of_the_kind_are_warned_about() {
    let (r, w) = parse_or_warn::<i32>(None, "Trigger", " T$ Mode$ X");
    assert_eq!(r, None);
    assert_eq!(w, Some("[parse] failed to parse Trigger from: T$ Mode$ X".to_string()));
    assert_eq!(parse_or_warn::<i32>(None, "Trigger", "S$ X").1, None);
    assert_eq!(parse_or_warn(Some(1), "Trigger", "T$ X"), (Some(1), None));
    assert_eq!(
        parse_classified_or_warn::<i32>(None, "Trigger", "X").1,
        Some("[parse] failed to parse Trigger from: X".to_string())
    );
    assert_eq!(parse_classified_or_warn(Some(2), "Trigger", "X"), (Some(2), None));
    let long = "y".repeat(200);
    let w = parse_classified_or_warn::<i32>(None, "K", &long).1.unwrap();
    assert_eq!(w.len(), "[parse] failed to parse K from: ".len() + 100);
}
