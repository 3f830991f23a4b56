use std::collections::BTreeMap;

use manabrew_engine::parsing::params::{ParamKind, Params};

#[test]
fn parse_basic_pipe_params() {
    let params = Params::from_raw("Mode$ ChangesZone | Origin$ Any | Destination$ Battlefield");
    assert_eq!(params.get("Mode"), Some("ChangesZone"));
    assert_eq!(params.get("Origin"), Some("Any"));
    assert_eq!(params.get("Destination"), Some("Battlefield"));
}

#[test]
fn parse_bare_dollar_no_space() {
    let params = Params::from_raw("Key$Value | Other$ Spaced");
    assert_eq!(params.get("Key"), Some("Value"));
    assert_eq!(params.get("Other"), Some("Spaced"));
}

#[test]
fn is_true_case_insensitive() {
    let params = Params::from_raw("Hidden$ True | Mandatory$ true | Other$ false");
    assert!(params.is_true("Hidden"));
    assert!(params.is_true("Mandatory"));
    assert!(!params.is_true("Other"));
    assert!(!params.is_true("Missing"));
}

#[test]
fn numeric_accessors() {
    let params = Params::from_raw("Amount$ 3 | Bad$ notanumber");
    assert_eq!(params.as_i32("Amount"), Some(3));
    assert_eq!(params.as_usize("Amount"), Some(3));
    assert_eq!(params.as_i32("Bad"), None);
    assert_eq!(params.as_i32("Missing"), None);
}

#[test]
fn get_or_default_works() {
    let params = Params::from_raw("Mode$ Continuous");
    assert_eq!(params.get_or_default("Mode", "None"), "Continuous");
    assert_eq!(params.get_or_default("Missing", "fallback"), "fallback");
}

#[test]
fn serde_roundtrip() {
    let params = Params::from_raw("Mode$ Test | Amount$ 5");
    let stored: BTreeMap<String, String> =
        params.into_inner().into_iter().map(|e| (e.key, e.value)).collect();
    let json = serde_json::to_string(&stored).unwrap();
    let read: BTreeMap<String, String> = serde_json::from_str(&json).unwrap();
    let deserialized = Params::from_map(read.into_iter().collect());
    assert_eq!(deserialized.get("Mode"), Some("Test"));
    assert_eq!(deserialized.get("Amount"), Some("5"));
}

#[test]
fn large_sizes_are_read() {
    let params = Params::from_raw("Amount$ 3000000000 | Less$ -1 | Plus$ +4 | Bad$ x");
    assert_eq!(params.as_usize("Amount"), Some(3000000000));
    assert_eq!(params.as_i32("Amount"), None);
    assert_eq!(params.as_usize("Less"), None);
    assert_eq!(params.as_usize("Plus"), Some(4));
    assert_eq!(params.as_usize("Bad"), None);
    assert_eq!(params.as_usize("Missing"), None);
}

#[test]
fn a_missing_parameter_is_worth_a_word() {
    let params = Params::from_raw("Amount$ 3");
    assert_eq!(params.require("Amount", "a line"), (Some("3"), None));
    let said = "[parse] missing required param 'Cost' in a line".to_string();
    assert_eq!(params.require("Cost", "a line"), (None, Some(said.clone())));
    assert_eq!(params.require_cloned("Cost", "a line"), (None, Some(said)));
}

#[test]
fn selectors_are_given_for_their_kinds() {
    let params = Params::from_raw("ValidCard$ Creature.YouCtrl");
    let selector = params.selector("ValidCard", ParamKind::Selector).unwrap();
    assert_eq!(selector.as_raw(), "Creature.YouCtrl");
    assert!(params.selector_untracked("ValidCard", ParamKind::Raw).is_none());
    assert_eq!(
        params.reference("ValidCard", ParamKind::Reference).unwrap().as_raw(),
        "Creature.YouCtrl",
    );
    assert!(params.selector("Missing", ParamKind::Selector).is_none());
}
