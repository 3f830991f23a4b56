//! Lowering of selector text to predicates.

use vstd::prelude::*;
use crate::parsing::selector::{
    CardSelectorType, ContextPredicate, NumericSelectorProperty, RelationPredicate,
    SelectorCompareOperator, SelectorNumericOperand, SelectorPredicate,
};
use crate::parsing::words::{
    attached_type_word, attached_type_word_of, card_type_word, card_type_word_of, cast_origin,
    cast_origin_of, entered_zone, entered_zone_of, first_word, first_word_of, fixed_word,
    fixed_word_of, is_textual_word, negated_word, negated_word_of, operator_word,
    operator_word_of, target_named, target_named_of, textual_word,
};
use crate::text::{
    char_is_alnum, contains, ends_with, eq_ignore_case, first_place, has_part, has_prefix,
    has_suffix, int_value, is_alnum, is_white, lemma_end_stays, lemma_trim_end_len,
    lemma_trim_start_len, lemma_trimmed_end, lowered, parse_i32, replace_char, replaced,
    same_ignoring_case, skip_chars, split_once, starts_with, strip_prefix, text_eq, to_lower, trim,
    trim_end, trim_start, trimmed,
};
use crate::types::{key_named, AbilityKey};

verus! {

pub open spec fn is_raw(p: SelectorPredicate, text: Seq<char>) -> bool {
    p matches SelectorPredicate::Raw(t) && t@ == text
}

fn raw(text: &str) -> (p: SelectorPredicate)
    ensures
        is_raw(p, text@),
{
    SelectorPredicate::Raw(text.to_owned())
}

pub open spec fn is_subtype(p: SelectorPredicate, text: Seq<char>) -> bool {
    p matches SelectorPredicate::CardType(CardSelectorType::Subtype(t)) && t@ == text
}

/// What a qualifier says behind its keyword, whatever the case of the keyword.
pub open spec fn argument(text: Seq<char>, keyword: Seq<char>) -> Option<Seq<char>> {
    if has_prefix(lowered(text), keyword) {
        Some(trimmed(text.skip(keyword.len() as int)))
    } else {
        None
    }
}

fn argument_of<'a>(text: &'a str, lower: &str, keyword: &str) -> (r: Option<&'a str>)
    requires
        lower@ == lowered(text@),
    ensures
        r is Some == argument(text@, keyword@) is Some,
        r matches Some(a) ==> argument(text@, keyword@) == Some(a@),
{
    if starts_with(lower, keyword) {
        Some(trim(skip_chars(text, keyword.unicode_len())))
    } else {
        None
    }
}

/// The card name behind `named`: `;` stands for a comma and `_` for a space.
pub open spec fn card_name_text(text: Seq<char>) -> Seq<char> {
    replaced(replaced(text, ';', ','), '_', ' ')
}

fn card_name_of(text: &str) -> (r: String)
    ensures
        r@ == card_name_text(text@),
{
    let commas = replace_char(text, ';', ',');
    replace_char(commas.as_str(), '_', ' ')
}

/// Letters, digits, hyphens and apostrophes.
pub open spec fn is_plain_word(text: Seq<char>) -> bool {
    forall|k: int|
        0 <= k < text.len() ==> is_alnum(#[trigger] text[k]) || text[k] == '-' || text[k] == '\''
}

fn plain_word(text: &str) -> (r: bool)
    ensures
        r == is_plain_word(text@),
{
    let n: usize = text.unicode_len();
    let mut i: usize = 0;
    while i < n
        invariant
            n == text@.len(),
            i <= n,
            forall|k: int|
                0 <= k < i ==> is_alnum(#[trigger] text@[k]) || text@[k] == '-' || text@[k]
                    == '\'',
        decreases n - i,
    {
        let c: char = text.get_char(i);
        if !(char_is_alnum(c) || c == '-' || c == '\'') {
            assert(!(is_alnum(text@[i as int]) || text@[i as int] == '-' || text@[i as int]
                == '\''));
            return false;
        }
        i = i + 1;
    }
    true
}

/// A symbol: letters, digits and underscores.
pub open spec fn is_symbol(text: Seq<char>) -> bool {
    forall|k: int| 0 <= k < text.len() ==> is_alnum(#[trigger] text[k]) || text[k] == '_'
}

fn symbol(text: &str) -> (r: bool)
    ensures
        r == is_symbol(text@),
{
    let n: usize = text.unicode_len();
    let mut i: usize = 0;
    while i < n
        invariant
            n == text@.len(),
            i <= n,
            forall|k: int| 0 <= k < i ==> is_alnum(#[trigger] text@[k]) || text@[k] == '_',
        decreases n - i,
    {
        let c: char = text.get_char(i);
        if !(char_is_alnum(c) || c == '_') {
            assert(!(is_alnum(text@[i as int]) || text@[i as int] == '_'));
            return false;
        }
        i = i + 1;
    }
    true
}

// ---- comparisons ----

/// Whether a text can stand on the right of a comparison.
pub open spec fn is_operand(text: Seq<char>) -> bool {
    text.len() > 0 && (int_value(text) is Some || is_symbol(text))
}

/// The operand that a text writes: a number where it reads as one, else a symbol.
pub open spec fn writes_operand(text: Seq<char>, v: SelectorNumericOperand) -> bool {
    match int_value(text) {
        Some(n) => v matches SelectorNumericOperand::Literal(m) && m == n,
        None => v matches SelectorNumericOperand::Symbol(t) && t@ == text,
    }
}

fn parse_selector_operand(value: &str) -> (r: Option<SelectorNumericOperand>)
    ensures
        r is Some == is_operand(value@),
        r matches Some(v) ==> writes_operand(value@, v),
{
    if value.unicode_len() == 0 {
        return None;
    }
    if let Some(n) = parse_i32(value) {
        Some(SelectorNumericOperand::Literal(n))
    } else if symbol(value) {
        Some(SelectorNumericOperand::Symbol(value.to_owned()))
    } else {
        None
    }
}

/// The operator that the first two characters write.
pub open spec fn leading_operator(text: Seq<char>) -> Option<SelectorCompareOperator> {
    if text.len() >= 2 {
        operator_word(lowered(text.take(2)))
    } else {
        None
    }
}

fn leading_operator_of(text: &str) -> (r: Option<SelectorCompareOperator>)
    ensures
        r == leading_operator(text@),
        r is Some ==> text@.len() >= 2,
{
    if text.unicode_len() < 2 {
        return None;
    }
    let head = text.substring_char(0, 2);
    assert(head@ =~= text@.take(2));
    let low = to_lower(head);
    operator_word_of(low.as_str())
}

/// `GE3`, `LTX`: an operator and an operand.
pub open spec fn is_comparison(text: Seq<char>) -> bool {
    leading_operator(text) is Some && is_operand(text.skip(2))
}

fn parse_selector_comparison(rest: &str) -> (r: Option<
    (SelectorCompareOperator, SelectorNumericOperand),
>)
    ensures
        r is Some == is_comparison(rest@),
        r matches Some((op, v)) ==> leading_operator(rest@) == Some(op) && writes_operand(
            rest@.skip(2),
            v,
        ),
{
    match leading_operator_of(rest) {
        Some(op) => {
            match parse_selector_operand(skip_chars(rest, 2)) {
                Some(v) => Some((op, v)),
                None => None,
            }
        },
        None => None,
    }
}

/// The property that a numeric qualifier names, and what it says of it.
pub open spec fn numeric_property(text: Seq<char>) -> Option<
    (NumericSelectorProperty, Seq<char>),
> {
    let low = lowered(text);
    if has_prefix(low, "cmc"@) {
        Some((NumericSelectorProperty::ManaValue, text.skip("cmc"@.len() as int)))
    } else if has_prefix(low, "power"@) {
        Some((NumericSelectorProperty::Power, text.skip("power"@.len() as int)))
    } else if has_prefix(low, "toughness"@) {
        Some((NumericSelectorProperty::Toughness, text.skip("toughness"@.len() as int)))
    } else if has_prefix(low, "totalpt_"@) {
        Some((NumericSelectorProperty::TotalPT, text.skip("totalpt_"@.len() as int)))
    } else if has_prefix(low, "numtargets "@) {
        Some(
            (
                NumericSelectorProperty::TargetCount,
                trimmed(text.skip("numtargets "@.len() as int)),
            ),
        )
    } else if has_prefix(low, "manaspent "@) {
        Some(
            (
                NumericSelectorProperty::ManaSpent,
                trimmed(text.skip("manaspent "@.len() as int)),
            ),
        )
    } else {
        None
    }
}

fn numeric_property_of<'a>(text: &'a str, lower: &str) -> (r: Option<
    (NumericSelectorProperty, &'a str),
>)
    requires
        lower@ == lowered(text@),
    ensures
        r is Some == numeric_property(text@) is Some,
        r matches Some((property, rest)) ==> numeric_property(text@) == Some((property, rest@)),
{
    if starts_with(lower, "cmc") {
        Some((NumericSelectorProperty::ManaValue, skip_chars(text, "cmc".unicode_len())))
    } else if starts_with(lower, "power") {
        Some((NumericSelectorProperty::Power, skip_chars(text, "power".unicode_len())))
    } else if starts_with(lower, "toughness") {
        Some((NumericSelectorProperty::Toughness, skip_chars(text, "toughness".unicode_len())))
    } else if starts_with(lower, "totalpt_") {
        Some((NumericSelectorProperty::TotalPT, skip_chars(text, "totalpt_".unicode_len())))
    } else if starts_with(lower, "numtargets ") {
        let rest = trim(skip_chars(text, "numtargets ".unicode_len()));
        Some((NumericSelectorProperty::TargetCount, rest))
    } else if starts_with(lower, "manaspent ") {
        let rest = trim(skip_chars(text, "manaspent ".unicode_len()));
        Some((NumericSelectorProperty::ManaSpent, rest))
    } else {
        None
    }
}

/// Whether a qualifier compares a number or asks for its parity.
pub open spec fn is_numeric(text: Seq<char>) -> bool {
    numeric_property(text) matches Some((property, rest)) && (same_ignoring_case(rest, "even"@)
        || same_ignoring_case(rest, "odd"@) || is_comparison(rest))
}

pub open spec fn numeric_lowers(text: Seq<char>, p: SelectorPredicate) -> bool {
    numeric_property(text) matches Some((property, rest)) && if same_ignoring_case(rest, "even"@) {
        p == (SelectorPredicate::NumericParity { property, even: true })
    } else if same_ignoring_case(rest, "odd"@) {
        p == (SelectorPredicate::NumericParity { property, even: false })
    } else {
        p matches SelectorPredicate::NumericComparison { property: q, operator, value }
            && q == property && leading_operator(rest) == Some(operator) && writes_operand(
            rest.skip(2),
            value,
        )
    }
}

fn lower_selector_comparison(text: &str, lower: &str) -> (r: Option<SelectorPredicate>)
    requires
        lower@ == lowered(text@),
    ensures
        r is Some == is_numeric(text@),
        r matches Some(p) ==> numeric_lowers(text@, p),
{
    match numeric_property_of(text, lower) {
        Some((property, rest)) => {
            if eq_ignore_case(rest, "even") {
                return Some(SelectorPredicate::NumericParity { property, even: true });
            }
            if eq_ignore_case(rest, "odd") {
                return Some(SelectorPredicate::NumericParity { property, even: false });
            }
            match parse_selector_comparison(rest) {
                Some((operator, value)) => Some(
                    SelectorPredicate::NumericComparison { property, operator, value },
                ),
                None => None,
            }
        },
        None => None,
    }
}

/// `counters_GE1_P1P1`: operator, operand and counter type of a counter comparison.
pub open spec fn counter_text(text: Seq<char>) -> Option<(Seq<char>, Seq<char>, Seq<char>)> {
    let rest = text.skip("counters_"@.len() as int);
    if has_prefix(text, "counters_"@) && rest.len() >= 2 {
        match first_place(rest.skip(2), "_"@) {
            Some(i) => Some(
                (
                    rest.take(2),
                    rest.skip(2).take(i),
                    rest.skip(2).skip(i + "_"@.len()),
                ),
            ),
            None => None,
        }
    } else {
        None
    }
}

pub open spec fn is_counter_comparison(text: Seq<char>) -> bool {
    counter_text(text) matches Some((op, v, kind)) && operator_word(lowered(op)) is Some
        && is_operand(v)
}

pub open spec fn counter_lowers(text: Seq<char>, p: SelectorPredicate) -> bool {
    counter_text(text) matches Some((op, v, kind)) && p matches
        SelectorPredicate::CounterComparison { operator, value, counter_type } && operator_word(
        lowered(op),
    ) == Some(operator) && writes_operand(v, value) && counter_type@ == kind
}

fn lower_counter_comparison(text: &str) -> (r: Option<SelectorPredicate>)
    ensures
        r is Some == is_counter_comparison(text@),
        r matches Some(p) ==> counter_lowers(text@, p),
{
    let rest = match strip_prefix(text, "counters_") {
        Some(rest) => rest,
        None => {
            return None;
        },
    };
    let operator = match leading_operator_of(rest) {
        Some(operator) => operator,
        None => {
            return None;
        },
    };
    match split_once(skip_chars(rest, 2), "_") {
        Some((v, kind)) => {
            match parse_selector_operand(v) {
                Some(value) => Some(
                    SelectorPredicate::CounterComparison {
                        operator,
                        value,
                        counter_type: kind.to_owned(),
                    },
                ),
                None => None,
            }
        },
        None => {
            proof {
                crate::text::lemma_first_place(rest@.skip(2), "_"@);
            }
            None
        },
    }
}

// ---- negated words, keywords and subtypes ----

/// `nonX` negates `X`.
pub open spec fn non_lowers(text: Seq<char>, p: SelectorPredicate) -> bool {
    let n = "non"@.len() as int;
    p matches SelectorPredicate::Not(inner) && match negated_word(lowered(text).skip(n)) {
        Some(q) => *inner == q,
        None => is_subtype(*inner, text.skip(n)),
    }
}

fn lower_non_predicate(text: &str, lower: &str) -> (r: Option<SelectorPredicate>)
    requires
        lower@ == lowered(text@),
    ensures
        r is Some == (has_prefix(lowered(text@), "non"@) && text@.len() > "non"@.len()),
        r matches Some(p) ==> non_lowers(text@, p),
{
    match strip_prefix(lower, "non") {
        Some(rest) => {
            if rest.unicode_len() == 0 {
                return None;
            }
            let positive = match negated_word_of(rest) {
                Some(q) => q,
                None => SelectorPredicate::CardType(
                    CardSelectorType::Subtype(skip_chars(text, "non".unicode_len()).to_owned()),
                ),
            };
            Some(SelectorPredicate::Not(Box::new(positive)))
        },
        None => None,
    }
}

pub open spec fn is_keyword(p: SelectorPredicate, word: Seq<char>, wanted: bool) -> bool {
    p matches SelectorPredicate::Keyword { name, present } && name@ == word && present == wanted
}

/// The keyword behind `without` (false) or `with` (true).
pub open spec fn keyword_text(text: Seq<char>) -> Option<(Seq<char>, bool)> {
    let low = lowered(text);
    if has_prefix(low, "without"@) && text.len() > "without"@.len() {
        Some((text.skip("without"@.len() as int), false))
    } else if has_prefix(low, "with"@) && text.len() > "with"@.len() {
        Some((text.skip("with"@.len() as int), true))
    } else {
        None
    }
}

fn lower_keyword_predicate(text: &str, lower: &str) -> (r: Option<SelectorPredicate>)
    requires
        lower@ == lowered(text@),
    ensures
        r is Some == keyword_text(text@) is Some,
        r matches Some(p) ==> (keyword_text(text@) matches Some((word, wanted)) && is_keyword(
            p,
            word,
            wanted,
        )),
{
    let n: usize = text.unicode_len();
    if starts_with(lower, "without") && n > "without".unicode_len() {
        let name = skip_chars(text, "without".unicode_len()).to_owned();
        return Some(SelectorPredicate::Keyword { name, present: false });
    }
    if starts_with(lower, "with") && n > "with".unicode_len() {
        let name = skip_chars(text, "with".unicode_len()).to_owned();
        return Some(SelectorPredicate::Keyword { name, present: true });
    }
    None
}

/// Texts that are built from more than a word and so are no subtype.
pub open spec fn is_structured(text: Seq<char>) -> bool {
    let low = lowered(text);
    ||| has_prefix(low, "cmc"@)
    ||| has_prefix(low, "power"@)
    ||| has_prefix(low, "toughness"@)
    ||| has_prefix(low, "counters_"@)
    ||| has_prefix(low, "wascastfrom"@)
    ||| has_prefix(low, "shares"@)
    ||| has_prefix(low, "attached"@)
    ||| has_prefix(low, "controlledby "@)
    ||| has_suffix(low, "source"@)
    ||| has_part(text, " "@)
    ||| has_part(text, "_"@)
    ||| has_part(text, "/"@)
}

/// Whether a text reads as a subtype.
pub open spec fn reads_as_subtype(text: Seq<char>) -> bool {
    !is_structured(text) && text.len() > 0 && is_plain_word(text)
}

fn lower_subtype_predicate(text: &str, lower: &str) -> (r: Option<SelectorPredicate>)
    requires
        lower@ == lowered(text@),
    ensures
        r is Some == reads_as_subtype(text@),
        r matches Some(p) ==> is_subtype(p, text@),
{
    let structured = starts_with(lower, "cmc") || starts_with(lower, "power") || starts_with(
        lower,
        "toughness",
    ) || starts_with(lower, "counters_") || starts_with(lower, "wascastfrom") || starts_with(
        lower,
        "shares",
    ) || starts_with(lower, "attached") || starts_with(lower, "controlledby ") || ends_with(
        lower,
        "source",
    ) || contains(text, " ") || contains(text, "_") || contains(text, "/");
    if structured || text.unicode_len() == 0 || !plain_word(text) {
        return None;
    }
    Some(SelectorPredicate::CardType(CardSelectorType::Subtype(text.to_owned())))
}

/// What a qualifier means that no fixed word and no keyword argument explains.
pub open spec fn open_lowers(text: Seq<char>, p: SelectorPredicate) -> bool {
    if has_prefix(lowered(text), "non"@) && text.len() > "non"@.len() {
        non_lowers(text, p)
    } else if let Some((word, wanted)) = keyword_text(text) {
        is_keyword(p, word, wanted)
    } else if is_numeric(text) {
        numeric_lowers(text, p)
    } else if is_counter_comparison(text) {
        counter_lowers(text, p)
    } else if reads_as_subtype(text) {
        is_subtype(p, text)
    } else {
        is_raw(p, text)
    }
}

fn lower_open(text: &str, lower: &str) -> (p: SelectorPredicate)
    requires
        lower@ == lowered(text@),
    ensures
        open_lowers(text@, p),
{
    if let Some(p) = lower_non_predicate(text, lower) {
        return p;
    }
    if let Some(p) = lower_keyword_predicate(text, lower) {
        return p;
    }
    if let Some(p) = lower_selector_comparison(text, lower) {
        return p;
    }
    if let Some(p) = lower_counter_comparison(text) {
        return p;
    }
    if let Some(p) = lower_subtype_predicate(text, lower) {
        return p;
    }
    raw(text)
}

// ---- qualifiers with an argument ----

/// What `ControlledBy` inside a property defines.
pub open spec fn is_controlled_by(text: Seq<char>, defined: Option<String>) -> bool {
    match first_place(text, "ControlledBy"@) {
        Some(i) => defined matches Some(d) && d@ == text.skip(i + "ControlledBy"@.len()),
        None => defined is None,
    }
}

fn controlled_by_suffix(property: &str) -> (r: Option<String>)
    ensures
        is_controlled_by(property@, r),
{
    proof {
        crate::text::lemma_first_place(property@, "ControlledBy"@);
    }
    match split_once(property, "ControlledBy") {
        Some((_, defined)) => Some(defined.to_owned()),
        None => None,
    }
}

/// A card type or subtype that a combat qualifier names.
pub open spec fn names_card_type(text: Seq<char>, t: CardSelectorType) -> bool {
    match card_type_word(lowered(text)) {
        Some(q) => t == q,
        None => t matches CardSelectorType::Subtype(s) && s@ == text,
    }
}

pub open spec fn is_card_type(text: Seq<char>) -> bool {
    card_type_word(lowered(text)) is Some || is_plain_word(text)
}

fn lower_card_selector_type(text: &str) -> (r: Option<CardSelectorType>)
    ensures
        r is Some == is_card_type(text@),
        r matches Some(t) ==> names_card_type(text@, t),
{
    let low = to_lower(text);
    match card_type_word_of(low.as_str()) {
        Some(t) => Some(t),
        None => if plain_word(text) {
            Some(CardSelectorType::Subtype(text.to_owned()))
        } else {
            None
        },
    }
}

/// The meaning of a qualifier whose keyword takes a selector or a type.
pub open spec fn typed_argument_lowers(text: Seq<char>, p: SelectorPredicate) -> bool {
    if let Some(a) = argument(text, "blockedbyvalidthisturn "@) {
        match target_named(a) {
            Some(t) => p == SelectorPredicate::Context(
                ContextPredicate::BlockedByValidThisTurn(t),
            ),
            None => if is_card_type(a) {
                p matches SelectorPredicate::Context(
                    ContextPredicate::BlockedByValidThisTurnType(t),
                ) && names_card_type(a, t)
            } else {
                is_raw(p, text)
            },
        }
    } else if let Some(a) = argument(text, "blockedvalidthisturn "@) {
        if is_card_type(a) {
            p matches SelectorPredicate::Context(ContextPredicate::BlockedValidThisTurn(t))
                && names_card_type(a, t)
        } else {
            is_raw(p, text)
        }
    } else if let Some(a) = argument(text, "blockingvalid "@) {
        if is_card_type(a) {
            p matches SelectorPredicate::Context(ContextPredicate::BlockingValid(t))
                && names_card_type(a, t)
        } else {
            is_raw(p, text)
        }
    } else if let Some(a) = argument(text, "attachedto "@) {
        match target_named(a) {
            Some(t) => p == SelectorPredicate::Relation(RelationPredicate::AttachedTo(t)),
            None => match attached_type_word(lowered(a)) {
                Some(t) => p == SelectorPredicate::Relation(RelationPredicate::AttachedToType(t)),
                None => is_raw(p, text),
            },
        }
    } else if let Some(a) = argument(text, "thisturnenteredfrom_"@) {
        match entered_zone(lowered(a)) {
            Some(z) => p == SelectorPredicate::Context(ContextPredicate::EnteredThisTurnFrom(z)),
            None => is_raw(p, text),
        }
    } else {
        open_lowers(text, p)
    }
}

fn lower_blocked_by_valid_this_turn(text: &str, a: &str) -> (p: SelectorPredicate)
    requires
        argument(text@, "blockedbyvalidthisturn "@) == Some(a@),
    ensures
        typed_argument_lowers(text@, p),
{
    match target_named_of(a) {
        Some(t) => SelectorPredicate::Context(ContextPredicate::BlockedByValidThisTurn(t)),
        None => match lower_card_selector_type(a) {
            Some(t) => SelectorPredicate::Context(
                ContextPredicate::BlockedByValidThisTurnType(t),
            ),
            None => raw(text),
        },
    }
}

fn lower_typed_argument(text: &str, lower: &str) -> (p: SelectorPredicate)
    requires
        lower@ == lowered(text@),
    ensures
        typed_argument_lowers(text@, p),
{
    if let Some(a) = argument_of(text, lower, "blockedbyvalidthisturn ") {
        return lower_blocked_by_valid_this_turn(text, a);
    }
    if let Some(a) = argument_of(text, lower, "blockedvalidthisturn ") {
        return match lower_card_selector_type(a) {
            Some(t) => SelectorPredicate::Context(ContextPredicate::BlockedValidThisTurn(t)),
            None => raw(text),
        };
    }
    if let Some(a) = argument_of(text, lower, "blockingvalid ") {
        return match lower_card_selector_type(a) {
            Some(t) => SelectorPredicate::Context(ContextPredicate::BlockingValid(t)),
            None => raw(text),
        };
    }
    if let Some(a) = argument_of(text, lower, "attachedto ") {
        return match target_named_of(a) {
            Some(t) => SelectorPredicate::Relation(RelationPredicate::AttachedTo(t)),
            None => {
                let low = to_lower(a);
                match attached_type_word_of(low.as_str()) {
                    Some(t) => SelectorPredicate::Relation(RelationPredicate::AttachedToType(t)),
                    None => raw(text),
                }
            },
        };
    }
    if let Some(a) = argument_of(text, lower, "thisturnenteredfrom_") {
        let low = to_lower(a);
        return match entered_zone_of(low.as_str()) {
            Some(z) => SelectorPredicate::Context(ContextPredicate::EnteredThisTurnFrom(z)),
            None => raw(text),
        };
    }
    lower_open(text, lower)
}

/// The meaning of a qualifier whose keyword takes an object.
pub open spec fn relation_lowers(text: Seq<char>, p: SelectorPredicate) -> bool {
    if let Some(a) = argument(text, "sharesnamewith"@) {
        if has_prefix(a, "Valid "@) {
            p matches SelectorPredicate::Relation(RelationPredicate::SharesNameWithValid(t))
                && t@ == a.skip("Valid "@.len() as int)
        } else {
            match target_named(a) {
                Some(t) => p == SelectorPredicate::Relation(RelationPredicate::SharesNameWith(t)),
                None => is_raw(p, text),
            }
        }
    } else if let Some(a) = argument(text, "doesnotsharenamewith"@) {
        match target_named(a) {
            Some(t) => p == SelectorPredicate::Relation(
                RelationPredicate::DoesNotShareNameWith(t),
            ),
            None => p matches SelectorPredicate::Relation(
                RelationPredicate::DoesNotShareNameWithValid(t),
            ) && t@ == a,
        }
    } else if let Some(a) = argument(text, "sharescardtypewithother"@) {
        match target_named(a) {
            Some(t) => p == SelectorPredicate::Relation(RelationPredicate::SharesCardTypeWithOther(t)),
            None => is_raw(p, text),
        }
    } else if let Some(a) = argument(text, "sharescardtypewith"@) {
        match target_named(a) {
            Some(t) => p == SelectorPredicate::Relation(RelationPredicate::SharesCardTypeWith(t)),
            None => is_raw(p, text),
        }
    } else if let Some(a) = argument(text, "sharescolorwith"@) {
        match target_named(a) {
            Some(t) => p == SelectorPredicate::Relation(RelationPredicate::SharesColorWith(t)),
            None => is_raw(p, text),
        }
    } else if let Some(a) = argument(text, "sharescmcwith"@) {
        match target_named(a) {
            Some(t) => p == SelectorPredicate::Relation(RelationPredicate::SharesManaValueWith(t)),
            None => is_raw(p, text),
        }
    } else if let Some(a) = argument(text, "sharescreaturetypewith"@) {
        match target_named(a) {
            Some(t) => p == SelectorPredicate::Relation(RelationPredicate::SharesCreatureTypeWith(t)),
            None => is_raw(p, text),
        }
    } else if let Some(a) = argument(text, "attacking "@) {
        match target_named(a) {
            Some(t) => p == SelectorPredicate::Context(ContextPredicate::Attacking(Some(t))),
            None => is_raw(p, text),
        }
    } else if let Some(a) = argument(text, "blocking "@) {
        match target_named(a) {
            Some(t) => p == SelectorPredicate::Context(ContextPredicate::Blocking(Some(t))),
            None => is_raw(p, text),
        }
    } else if let Some(a) = argument(text, "ownedby "@) {
        match target_named(a) {
            Some(t) => p == SelectorPredicate::Relation(RelationPredicate::OwnedBy(t)),
            None => is_raw(p, text),
        }
    } else if let Some(a) = argument(text, "opponentof "@) {
        match target_named(a) {
            Some(t) => p == SelectorPredicate::Relation(RelationPredicate::OpponentOf(t)),
            None => is_raw(p, text),
        }
    } else if let Some(a) = argument(text, "istargeting "@) {
        match target_named(a) {
            Some(t) => p == SelectorPredicate::Relation(RelationPredicate::IsTargeting(t)),
            None => is_raw(p, text),
        }
    } else if let Some(a) = argument(text, "enteredunder "@) {
        match target_named(a) {
            Some(t) => p == SelectorPredicate::Context(ContextPredicate::EnteredUnder(t)),
            None => is_raw(p, text),
        }
    } else {
        typed_argument_lowers(text, p)
    }
}

fn lower_relation(text: &str, lower: &str) -> (p: SelectorPredicate)
    requires
        lower@ == lowered(text@),
    ensures
        relation_lowers(text@, p),
{
    if let Some(a) = argument_of(text, lower, "sharesnamewith") {
        return match strip_prefix(a, "Valid ") {
            Some(valid) => SelectorPredicate::Relation(
                RelationPredicate::SharesNameWithValid(valid.to_owned()),
            ),
            None => match target_named_of(a) {
                Some(t) => SelectorPredicate::Relation(RelationPredicate::SharesNameWith(t)),
                None => raw(text),
            },
        };
    }
    if let Some(a) = argument_of(text, lower, "doesnotsharenamewith") {
        return match target_named_of(a) {
            Some(t) => SelectorPredicate::Relation(RelationPredicate::DoesNotShareNameWith(t)),
            None => SelectorPredicate::Relation(
                RelationPredicate::DoesNotShareNameWithValid(a.to_owned()),
            ),
        };
    }
    if let Some(a) = argument_of(text, lower, "sharescardtypewithother") {
        return match target_named_of(a) {
            Some(t) => SelectorPredicate::Relation(RelationPredicate::SharesCardTypeWithOther(t)),
            None => raw(text),
        };
    }
    if let Some(a) = argument_of(text, lower, "sharescardtypewith") {
        return match target_named_of(a) {
            Some(t) => SelectorPredicate::Relation(RelationPredicate::SharesCardTypeWith(t)),
            None => raw(text),
        };
    }
    if let Some(a) = argument_of(text, lower, "sharescolorwith") {
        return match target_named_of(a) {
            Some(t) => SelectorPredicate::Relation(RelationPredicate::SharesColorWith(t)),
            None => raw(text),
        };
    }
    if let Some(a) = argument_of(text, lower, "sharescmcwith") {
        return match target_named_of(a) {
            Some(t) => SelectorPredicate::Relation(RelationPredicate::SharesManaValueWith(t)),
            None => raw(text),
        };
    }
    if let Some(a) = argument_of(text, lower, "sharescreaturetypewith") {
        return match target_named_of(a) {
            Some(t) => SelectorPredicate::Relation(RelationPredicate::SharesCreatureTypeWith(t)),
            None => raw(text),
        };
    }
    if let Some(a) = argument_of(text, lower, "attacking ") {
        return match target_named_of(a) {
            Some(t) => SelectorPredicate::Context(ContextPredicate::Attacking(Some(t))),
            None => raw(text),
        };
    }
    if let Some(a) = argument_of(text, lower, "blocking ") {
        return match target_named_of(a) {
            Some(t) => SelectorPredicate::Context(ContextPredicate::Blocking(Some(t))),
            None => raw(text),
        };
    }
    if let Some(a) = argument_of(text, lower, "ownedby ") {
        return match target_named_of(a) {
            Some(t) => SelectorPredicate::Relation(RelationPredicate::OwnedBy(t)),
            None => raw(text),
        };
    }
    if let Some(a) = argument_of(text, lower, "opponentof ") {
        return match target_named_of(a) {
            Some(t) => SelectorPredicate::Relation(RelationPredicate::OpponentOf(t)),
            None => raw(text),
        };
    }
    if let Some(a) = argument_of(text, lower, "istargeting ") {
        return match target_named_of(a) {
            Some(t) => SelectorPredicate::Relation(RelationPredicate::IsTargeting(t)),
            None => raw(text),
        };
    }
    if let Some(a) = argument_of(text, lower, "enteredunder ") {
        return match target_named_of(a) {
            Some(t) => SelectorPredicate::Context(ContextPredicate::EnteredUnder(t)),
            None => raw(text),
        };
    }
    lower_typed_argument(text, lower)
}

/// The meaning of a qualifier behind the head of a selector.
pub open spec fn qualifier_lowers(text: Seq<char>, p: SelectorPredicate) -> bool {
    let low = lowered(text);
    if is_textual_word(low) {
        is_raw(p, text)
    } else if low == "time lord"@ {
        is_subtype(p, "Time Lord"@)
    } else if let Some(q) = fixed_word(low) {
        p == q
    } else if let Some(a) = argument(text, "castsa "@) {
        p matches SelectorPredicate::Context(ContextPredicate::CastSa(t)) && t@ == a
    } else if let Some(a) = argument(text, "named"@) {
        p matches SelectorPredicate::CardType(CardSelectorType::Named(t)) && t@ == card_name_text(a)
    } else if has_prefix(low, "wascastfrom"@) {
        match cast_origin(low) {
            Some(o) => p == SelectorPredicate::Context(ContextPredicate::WasCastFrom(o)),
            None => is_raw(p, text),
        }
    } else if has_prefix(low, "chosenmode"@) {
        is_raw(p, text)
    } else if has_prefix(low, "rememberedplayer"@) {
        p == SelectorPredicate::Context(
            if has_suffix(low, "ctrl"@) {
                ContextPredicate::RememberedPlayerCtrl
            } else {
                ContextPredicate::RememberedPlayerOwn
            },
        )
    } else if has_prefix(low, "greatestpower"@) {
        p matches SelectorPredicate::Context(ContextPredicate::GreatestPower(d))
            && is_controlled_by(text, d)
    } else if has_prefix(low, "leastpower"@) {
        p matches SelectorPredicate::Context(ContextPredicate::LeastPower(d)) && is_controlled_by(
            text,
            d,
        )
    } else if has_prefix(low, "notdefined"@) {
        is_raw(p, text)
    } else if let Some(a) = argument(text, "controlledby "@) {
        p matches SelectorPredicate::Context(ContextPredicate::ControlledBy(t)) && t@ == a
    } else {
        relation_lowers(text, p)
    }
}

fn lower_qualifier(text: &str) -> (p: SelectorPredicate)
    ensures
        qualifier_lowers(text@, p),
{
    let low = to_lower(text);
    let lower = low.as_str();
    if textual_word(lower) {
        return raw(text);
    }
    if text_eq(lower, "time lord") {
        return SelectorPredicate::CardType(CardSelectorType::Subtype("Time Lord".to_owned()));
    }
    if let Some(p) = fixed_word_of(lower) {
        return p;
    }
    if let Some(a) = argument_of(text, lower, "castsa ") {
        return SelectorPredicate::Context(ContextPredicate::CastSa(a.to_owned()));
    }
    if let Some(a) = argument_of(text, lower, "named") {
        return SelectorPredicate::CardType(CardSelectorType::Named(card_name_of(a)));
    }
    if starts_with(lower, "wascastfrom") {
        return match cast_origin_of(lower) {
            Some(o) => SelectorPredicate::Context(ContextPredicate::WasCastFrom(o)),
            None => raw(text),
        };
    }
    if starts_with(lower, "chosenmode") {
        return raw(text);
    }
    if starts_with(lower, "rememberedplayer") {
        return SelectorPredicate::Context(
            if ends_with(lower, "ctrl") {
                ContextPredicate::RememberedPlayerCtrl
            } else {
                ContextPredicate::RememberedPlayerOwn
            },
        );
    }
    if starts_with(lower, "greatestpower") {
        return SelectorPredicate::Context(
            ContextPredicate::GreatestPower(controlled_by_suffix(text)),
        );
    }
    if starts_with(lower, "leastpower") {
        return SelectorPredicate::Context(
            ContextPredicate::LeastPower(controlled_by_suffix(text)),
        );
    }
    if starts_with(lower, "notdefined") {
        return raw(text);
    }
    if let Some(a) = argument_of(text, lower, "controlledby ") {
        return SelectorPredicate::Context(ContextPredicate::ControlledBy(a.to_owned()));
    }
    lower_relation(text, lower)
}

// ---- whole parts ----

/// The meaning of the head of a selector.
pub open spec fn head_lowers(text: Seq<char>, p: SelectorPredicate) -> bool {
    if let Some(q) = first_word(lowered(text)) {
        p == q
    } else if let Some(a) = argument(text, "named"@) {
        p matches SelectorPredicate::CardType(CardSelectorType::Named(t)) && t@ == card_name_text(a)
    } else {
        is_subtype(p, text)
    }
}

fn lower_head(text: &str) -> (p: SelectorPredicate)
    ensures
        head_lowers(text@, p),
{
    let low = to_lower(text);
    if let Some(p) = first_word_of(low.as_str()) {
        return p;
    }
    if let Some(a) = argument_of(text, low.as_str(), "named") {
        return SelectorPredicate::CardType(CardSelectorType::Named(card_name_of(a)));
    }
    SelectorPredicate::CardType(CardSelectorType::Subtype(text.to_owned()))
}

/// The event property that `Triggered...` asks for.
pub open spec fn triggered_key(text: Seq<char>) -> Option<AbilityKey> {
    if has_prefix(text, "Triggered"@) {
        key_named(text.skip("Triggered"@.len() as int))
    } else {
        None
    }
}

pub(crate) fn triggered_property_key(property: &str) -> (r: Option<AbilityKey>)
    ensures
        r == triggered_key(property@),
{
    match strip_prefix(property, "Triggered") {
        Some(name) => AbilityKey::from_name(name),
        None => None,
    }
}

pub proof fn lemma_trimmed_len(s: Seq<char>)
    ensures
        trimmed(s).len() <= s.len(),
{
    lemma_trim_start_len(s);
    lemma_trim_end_len(trim_start(s));
}

/// The predicate that one part of a selector stands for. The head of a selector (`first`)
/// names a type or a player; behind it stand qualifiers, which `!` negates.
pub open spec fn lowers(value: Seq<char>, first: bool, p: SelectorPredicate) -> bool
    decreases value.len(),
{
    let text = trimmed(value);
    if text.len() == 0 {
        is_raw(p, Seq::empty())
    } else if first {
        head_lowers(text, p)
    } else if text[0] == '!' {
        proof {
            lemma_trimmed_len(value);
        }
        p matches SelectorPredicate::Not(inner) && lowers(text.skip(1), false, *inner)
    } else if let Some(key) = triggered_key(text) {
        p == SelectorPredicate::Context(ContextPredicate::Triggered(key))
    } else {
        qualifier_lowers(text, p)
    }
}

/// Lowers one part of a selector.
pub fn lower_selector_part(value: &str, is_first_part: bool) -> (p: SelectorPredicate)
    ensures
        lowers(value@, is_first_part, p),
    decreases value@.len(),
{
    let text = trim(value);
    if text.unicode_len() == 0 {
        return SelectorPredicate::Raw(String::new());
    }
    if is_first_part {
        return lower_head(text);
    }
    if text.get_char(0) == '!' {
        let inner = lower_selector_part(skip_chars(text, 1), false);
        return SelectorPredicate::Not(Box::new(inner));
    }
    if let Some(key) = triggered_property_key(text) {
        return SelectorPredicate::Context(ContextPredicate::Triggered(key));
    }
    lower_qualifier(text)
}

proof fn lemma_lowers_trimmed(a: Seq<char>, b: Seq<char>, p: SelectorPredicate)
    requires
        trimmed(a) == trimmed(b),
    ensures
        lowers(a, false, p) == lowers(b, false, p),
{
}

/// A qualifier behind an exclamation mark means that the qualifier does not hold.
pub proof fn law_negation(x: Seq<char>, p: SelectorPredicate)
    ensures
        lowers(seq!['!'] + x, false, SelectorPredicate::Not(Box::new(p))) == lowers(x, false, p),
        !(p is Not) ==> !lowers(seq!['!'] + x, false, p),
{
    let t = seq!['!'] + x;
    assert(t[0] == '!');
    assert(!is_white('!'));
    lemma_end_stays('!', x);
    lemma_trimmed_end(x);
    assert(trimmed(t) == seq!['!'] + trim_end(x));
    assert(trimmed(t).skip(1) =~= trim_end(x));
    lemma_lowers_trimmed(trim_end(x), x, p);
}

} // verus!
