//! What mana carries with it for what it is spent on.

use vstd::prelude::*;
use crate::parsing::params::string_of;

verus! {

/// What mana does for the spell that it is spent on: whether that spell cannot be countered,
/// keywords and counters that it gets, each with what it may be, and what triggers when the mana
/// is spent.
pub struct ManaRiders {
    pub adds_no_counter: bool,
    pub adds_keywords: Option<String>,
    pub adds_keywords_valid: Option<String>,
    pub adds_counters: Option<String>,
    pub adds_counters_valid: Option<String>,
    pub triggers_when_spent: Option<String>,
}

#[verifier::ext_equal]
pub struct RidersView {
    pub adds_no_counter: bool,
    pub adds_keywords: Option<Seq<char>>,
    pub adds_keywords_valid: Option<Seq<char>>,
    pub adds_counters: Option<Seq<char>>,
    pub adds_counters_valid: Option<Seq<char>>,
    pub triggers_when_spent: Option<Seq<char>>,
}

impl View for ManaRiders {
    type V = RidersView;

    open spec fn view(&self) -> RidersView {
        RidersView {
            adds_no_counter: self.adds_no_counter,
            adds_keywords: string_of(self.adds_keywords),
            adds_keywords_valid: string_of(self.adds_keywords_valid),
            adds_counters: string_of(self.adds_counters),
            adds_counters_valid: string_of(self.adds_counters_valid),
            triggers_when_spent: string_of(self.triggers_when_spent),
        }
    }
}

/// What plain mana carries.
pub open spec fn no_riders() -> RidersView {
    RidersView {
        adds_no_counter: false,
        adds_keywords: None,
        adds_keywords_valid: None,
        adds_counters: None,
        adds_counters_valid: None,
        triggers_when_spent: None,
    }
}

fn copy_text(t: &Option<String>) -> (r: Option<String>)
    ensures
        string_of(r) == string_of(*t),
{
    match t {
        Some(s) => Some(s.as_str().to_string()),
        None => None,
    }
}

impl ManaRiders {
    pub fn none() -> (r: ManaRiders)
        ensures
            r@ == no_riders(),
    {
        ManaRiders {
            adds_no_counter: false,
            adds_keywords: None,
            adds_keywords_valid: None,
            adds_counters: None,
            adds_counters_valid: None,
            triggers_when_spent: None,
        }
    }

    pub fn copy(&self) -> (r: ManaRiders)
        ensures
            r@ == self@,
    {
        ManaRiders {
            adds_no_counter: self.adds_no_counter,
            adds_keywords: copy_text(&self.adds_keywords),
            adds_keywords_valid: copy_text(&self.adds_keywords_valid),
            adds_counters: copy_text(&self.adds_counters),
            adds_counters_valid: copy_text(&self.adds_counters_valid),
            triggers_when_spent: copy_text(&self.triggers_when_spent),
        }
    }
}

} // verus!
