//! How scripts and selectors are read.

use vstd::prelude::*;
use crate::laws::changes::lemma_no_white_ends;
use crate::laws::numbers::{lemma_number_chars, lemma_parts_from, lemma_starts};
use crate::parsing::lowering::{head_lowers, is_keyword, numeric_property, open_lowers};
use crate::parsing::params::{entry_of, found, listed, params_of};
use crate::parsing::selector::{
    CardColorSelector, CardIdentitySelector, CardSelectorType, CardStateSelector,
    CardSupertypeSelector, ControllerSelector, NumericSelectorProperty, SelectorCompareOperator, SelectorNumericOperand, SelectorPredicate,
};
use crate::parsing::words::{first_word, negated_word, owner_word};
use crate::text::{
    find_from, first_place, has_prefix, int_value, is_white, lemma_find_from, lemma_pieces_joined,
    lower_char, lowered, occurs_at, pieces, same_ignoring_case, trimmed,
};
use crate::types::ZoneType;

verus! {

// ---- parameters ----

/// Whether a text can be a key: it is not empty, has no white space around it, and no marks in it.
pub open spec fn is_key(k: Seq<char>) -> bool {
    k.len() > 0 && !is_white(k[0]) && !is_white(k.last()) && !k.contains('$') && !k.contains('|')
}

/// Whether a text can be a value.
pub open spec fn is_value(v: Seq<char>) -> bool {
    v.len() > 0 && !is_white(v[0]) && !is_white(v.last()) && !v.contains('|')
}

/// A parameter: its key, a mark, and its value.
pub open spec fn written(k: Seq<char>, v: Seq<char>) -> Seq<char> {
    k + seq!['$', ' '] + v
}

proof fn lemma_padded(p: Seq<char>)
    ensures
        trimmed(seq![' '] + p) == trimmed(p),
{
    let q = seq![' '] + p;
    assert(q.skip(1) =~= p);
    assert(q[0] == ' ');
    assert(is_white(' '));
}

proof fn lemma_marked(a: Seq<char>, m: Seq<char>, b: Seq<char>)
    requires
        m.len() > 0,
        !a.contains(m[0]),
    ensures
        first_place(a + m + b, m) == Some(a.len() as int),
{
    let p = a + m + b;
    let n = a.len() as int;
    assert(occurs_at(p, m, n)) by {
        assert(p.subrange(n, n + m.len()) =~= m);
    }
    assert forall|i: int| 0 <= i < n implies !occurs_at(p, m, i) by {
        if occurs_at(p, m, i) {
            assert(p.subrange(i, i + m.len())[0] == p[i]);
            assert(a[i] == m[0]);
        }
    }
    lemma_find_from(p, m, 0);
    match find_from(p, m, 0) {
        Some(i) => {
            assert(i == n);
        },
        None => {
            assert(!occurs_at(p, m, n));
        },
    }
}

proof fn lemma_entry(k: Seq<char>, v: Seq<char>, pad: bool)
    requires
        is_key(k),
        is_value(v),
    ensures
        entry_of(if pad {
            seq![' '] + written(k, v)
        } else {
            written(k, v)
        }) == Some((k, v)),
{
    reveal_strlit("$ ");
    assert("$ "@ =~= seq!['$', ' ']);
    let p = written(k, v);
    assert(p[0] == k[0] && p.last() == v.last());
    lemma_no_white_ends(p);
    lemma_padded(p);
    lemma_marked(k, seq!['$', ' '], v);
    let n = k.len() as int;
    assert(p.take(n) =~= k);
    assert(p.skip(n + 2) =~= v);
    lemma_no_white_ends(k);
    lemma_no_white_ends(v);
}

/// What is written behind a script as one more parameter is read as that parameter, in place of an
/// earlier one of the same key; all others stay.
pub proof fn law_parameters_are_read(raw: Seq<char>, k: Seq<char>, v: Seq<char>)
    requires
        is_key(k),
        is_value(v),
    ensures
        params_of(raw + seq!['|'] + (seq![' '] + written(k, v))) == params_of(raw).insert(k, v),
        params_of(raw + seq!['|'] + written(k, v)) == params_of(raw).insert(k, v),
{
    lemma_more(raw, k, v, true);
    lemma_more(raw, k, v, false);
}

proof fn lemma_more(raw: Seq<char>, k: Seq<char>, v: Seq<char>, pad: bool)
    requires
        is_key(k),
        is_value(v),
    ensures
        params_of(raw + seq!['|'] + (if pad {
            seq![' '] + written(k, v)
        } else {
            written(k, v)
        })) == params_of(raw).insert(k, v),
{
    reveal_strlit("|");
    assert("|"@ =~= seq!['|']);
    let e = if pad {
        seq![' '] + written(k, v)
    } else {
        written(k, v)
    };
    lemma_entry(k, v, pad);
    assert(!e.contains('|')) by {
        if e.contains('|') {
            let i = choose|i: int| 0 <= i < e.len() && e[i] == '|';
            let o = if pad {
                1int
            } else {
                0
            };
            let n = k.len() as int;
            if o <= i < o + n {
                assert(k[i - o] == '|');
            } else if i >= o + n + 2 {
                assert(v[i - o - n - 2] == '|');
            }
        }
    }
    crate::laws::turns::lemma_first_none(e, '|');
    assert(pieces(e, "|"@) == seq![e]);
    lemma_pieces_joined(raw, '|', e);
    let a = pieces(raw, "|"@);
    let all = a + seq![e];
    assert(all.drop_last() =~= a);
    assert(all.last() == e);
}

/// A script of one parameter has it and no other.
pub proof fn law_one_parameter(k: Seq<char>, v: Seq<char>, other: Seq<char>)
    requires
        is_key(k),
        is_value(v),
    ensures
        found(params_of(written(k, v)), k) == Some(v),
        other != k ==> found(params_of(written(k, v)), other) is None,
{
    reveal_strlit("|");
    assert("|"@ =~= seq!['|']);
    let e = written(k, v);
    lemma_entry(k, v, false);
    assert(!e.contains('|')) by {
        if e.contains('|') {
            let i = choose|i: int| 0 <= i < e.len() && e[i] == '|';
            let n = k.len() as int;
            if i < n {
                assert(k[i] == '|');
            } else if i >= n + 2 {
                assert(v[i - n - 2] == '|');
            }
        }
    }
    crate::laws::turns::lemma_first_none(e, '|');
    let one = seq![e];
    assert(pieces(e, "|"@) == one);
    assert(one.drop_last() =~= Seq::<Seq<char>>::empty());
    assert(listed(one.drop_last()) =~= Map::<Seq<char>, Seq<char>>::empty());
}

// ---- words of selectors ----

/// The first word of a selector says what it is about, whatever the case of its letters.
pub proof fn law_first_words(text: Seq<char>)
    ensures
        lowered(text) == "any"@ ==> first_word(lowered(text)) == Some(SelectorPredicate::Any),
        lowered(text) == "card"@ ==> first_word(lowered(text)) == Some(SelectorPredicate::CardType(CardSelectorType::Card)),
        lowered(text) == "creature"@ ==> first_word(lowered(text)) == Some(SelectorPredicate::CardType(CardSelectorType::Creature)),
        lowered(text) == "land"@ ==> first_word(lowered(text)) == Some(SelectorPredicate::CardType(CardSelectorType::Land)),
        lowered(text) == "instant"@ ==> first_word(lowered(text)) == Some(SelectorPredicate::CardType(CardSelectorType::Instant)),
        lowered(text) == "sorcery"@ ==> first_word(lowered(text)) == Some(SelectorPredicate::CardType(CardSelectorType::Sorcery)),
        lowered(text) == "artifact"@ ==> first_word(lowered(text)) == Some(SelectorPredicate::CardType(CardSelectorType::Artifact)),
        lowered(text) == "enchantment"@ ==> first_word(lowered(text)) == Some(SelectorPredicate::CardType(CardSelectorType::Enchantment)),
        lowered(text) == "planeswalker"@ ==> first_word(lowered(text)) == Some(SelectorPredicate::CardType(CardSelectorType::Planeswalker)),
        lowered(text) == "permanent"@ ==> first_word(lowered(text)) == Some(SelectorPredicate::CardType(CardSelectorType::Permanent)),
        lowered(text) == "spell"@ ==> first_word(lowered(text)) == Some(SelectorPredicate::CardType(CardSelectorType::Spell)),
        lowered(text) == "nonland"@ ==> first_word(lowered(text)) == Some(SelectorPredicate::CardType(CardSelectorType::NonLand)),
        lowered(text) == "noncreature"@ ==> first_word(lowered(text)) == Some(SelectorPredicate::CardType(CardSelectorType::NonCreature)),
        lowered(text) == "player"@ ==> first_word(lowered(text)) == Some(SelectorPredicate::Player),
        lowered(text) == "each"@ ==> first_word(lowered(text)) == Some(SelectorPredicate::Player),
        lowered(text) == "player.ingame"@ ==> first_word(lowered(text)) == Some(SelectorPredicate::Player),
        lowered(text) == "you"@ ==> first_word(lowered(text)) == Some(SelectorPredicate::PlayerController(ControllerSelector::You)),
        lowered(text) == "youctrl"@ ==> first_word(lowered(text)) == Some(SelectorPredicate::PlayerController(ControllerSelector::You)),
        lowered(text) == "opponent"@ ==> first_word(lowered(text)) == Some(SelectorPredicate::PlayerController(ControllerSelector::Opponent)),
        lowered(text) == "oppctrl"@ ==> first_word(lowered(text)) == Some(SelectorPredicate::PlayerController(ControllerSelector::Opponent)),
        lowered(text) == "opponentctrl"@ ==> first_word(lowered(text)) == Some(SelectorPredicate::PlayerController(ControllerSelector::Opponent)),
{
    lemma_first_word_0(text);
    lemma_first_word_1(text);
    lemma_first_word_2(text);
    lemma_first_word_3(text);
    lemma_first_word_4(text);
    lemma_first_word_5(text);
    lemma_first_word_6(text);
    lemma_first_word_7(text);
    lemma_first_word_8(text);
    lemma_first_word_9(text);
    lemma_first_word_10(text);
    lemma_first_word_11(text);
    lemma_first_word_12(text);
    lemma_first_word_13(text);
    lemma_first_word_14(text);
    lemma_first_word_15(text);
    lemma_first_word_16(text);
    lemma_first_word_17(text);
    lemma_first_word_18(text);
    lemma_first_word_19(text);
    lemma_first_word_20(text);
}

proof fn lemma_first_word_0(text: Seq<char>)
    ensures
        lowered(text) == "any"@ ==> first_word(lowered(text)) == Some(SelectorPredicate::Any),
{
    let w = "any"@;
    reveal_strlit("any");
}

proof fn lemma_first_word_1(text: Seq<char>)
    ensures
        lowered(text) == "card"@ ==> first_word(lowered(text)) == Some(SelectorPredicate::CardType(CardSelectorType::Card)),
{
    let w = "card"@;
    reveal_strlit("card");
    reveal_strlit("any");
    lemma_parts_from(w, "any"@, 0);
}

proof fn lemma_first_word_2(text: Seq<char>)
    ensures
        lowered(text) == "creature"@ ==> first_word(lowered(text)) == Some(SelectorPredicate::CardType(CardSelectorType::Creature)),
{
    let w = "creature"@;
    reveal_strlit("creature");
    reveal_strlit("any");
    lemma_parts_from(w, "any"@, 0);
    reveal_strlit("card");
    lemma_parts_from(w, "card"@, 1);
}

proof fn lemma_first_word_3(text: Seq<char>)
    ensures
        lowered(text) == "land"@ ==> first_word(lowered(text)) == Some(SelectorPredicate::CardType(CardSelectorType::Land)),
{
    let w = "land"@;
    reveal_strlit("land");
    reveal_strlit("any");
    lemma_parts_from(w, "any"@, 0);
    reveal_strlit("card");
    lemma_parts_from(w, "card"@, 0);
    reveal_strlit("creature");
    lemma_parts_from(w, "creature"@, 0);
}

proof fn lemma_first_word_4(text: Seq<char>)
    ensures
        lowered(text) == "instant"@ ==> first_word(lowered(text)) == Some(SelectorPredicate::CardType(CardSelectorType::Instant)),
{
    let w = "instant"@;
    reveal_strlit("instant");
    reveal_strlit("any");
    lemma_parts_from(w, "any"@, 0);
    reveal_strlit("card");
    lemma_parts_from(w, "card"@, 0);
    reveal_strlit("creature");
    lemma_parts_from(w, "creature"@, 0);
    reveal_strlit("land");
    lemma_parts_from(w, "land"@, 0);
}

proof fn lemma_first_word_5(text: Seq<char>)
    ensures
        lowered(text) == "sorcery"@ ==> first_word(lowered(text)) == Some(SelectorPredicate::CardType(CardSelectorType::Sorcery)),
{
    let w = "sorcery"@;
    reveal_strlit("sorcery");
    reveal_strlit("any");
    lemma_parts_from(w, "any"@, 0);
    reveal_strlit("card");
    lemma_parts_from(w, "card"@, 0);
    reveal_strlit("creature");
    lemma_parts_from(w, "creature"@, 0);
    reveal_strlit("land");
    lemma_parts_from(w, "land"@, 0);
    reveal_strlit("instant");
    lemma_parts_from(w, "instant"@, 0);
}

proof fn lemma_first_word_6(text: Seq<char>)
    ensures
        lowered(text) == "artifact"@ ==> first_word(lowered(text)) == Some(SelectorPredicate::CardType(CardSelectorType::Artifact)),
{
    let w = "artifact"@;
    reveal_strlit("artifact");
    reveal_strlit("any");
    lemma_parts_from(w, "any"@, 1);
    reveal_strlit("card");
    lemma_parts_from(w, "card"@, 0);
    reveal_strlit("creature");
    lemma_parts_from(w, "creature"@, 0);
    reveal_strlit("land");
    lemma_parts_from(w, "land"@, 0);
    reveal_strlit("instant");
    lemma_parts_from(w, "instant"@, 0);
    reveal_strlit("sorcery");
    lemma_parts_from(w, "sorcery"@, 0);
}

proof fn lemma_first_word_7(text: Seq<char>)
    ensures
        lowered(text) == "enchantment"@ ==> first_word(lowered(text)) == Some(SelectorPredicate::CardType(CardSelectorType::Enchantment)),
{
    let w = "enchantment"@;
    reveal_strlit("enchantment");
    reveal_strlit("any");
    lemma_parts_from(w, "any"@, 0);
    reveal_strlit("card");
    lemma_parts_from(w, "card"@, 0);
    reveal_strlit("creature");
    lemma_parts_from(w, "creature"@, 0);
    reveal_strlit("land");
    lemma_parts_from(w, "land"@, 0);
    reveal_strlit("instant");
    lemma_parts_from(w, "instant"@, 0);
    reveal_strlit("sorcery");
    lemma_parts_from(w, "sorcery"@, 0);
    reveal_strlit("artifact");
    lemma_parts_from(w, "artifact"@, 0);
}

proof fn lemma_first_word_8(text: Seq<char>)
    ensures
        lowered(text) == "planeswalker"@ ==> first_word(lowered(text)) == Some(SelectorPredicate::CardType(CardSelectorType::Planeswalker)),
{
    let w = "planeswalker"@;
    reveal_strlit("planeswalker");
    reveal_strlit("any");
    lemma_parts_from(w, "any"@, 0);
    reveal_strlit("card");
    lemma_parts_from(w, "card"@, 0);
    reveal_strlit("creature");
    lemma_parts_from(w, "creature"@, 0);
    reveal_strlit("land");
    lemma_parts_from(w, "land"@, 0);
    reveal_strlit("instant");
    lemma_parts_from(w, "instant"@, 0);
    reveal_strlit("sorcery");
    lemma_parts_from(w, "sorcery"@, 0);
    reveal_strlit("artifact");
    lemma_parts_from(w, "artifact"@, 0);
    reveal_strlit("enchantment");
    lemma_parts_from(w, "enchantment"@, 0);
}

proof fn lemma_first_word_9(text: Seq<char>)
    ensures
        lowered(text) == "permanent"@ ==> first_word(lowered(text)) == Some(SelectorPredicate::CardType(CardSelectorType::Permanent)),
{
    let w = "permanent"@;
    reveal_strlit("permanent");
    reveal_strlit("any");
    lemma_parts_from(w, "any"@, 0);
    reveal_strlit("card");
    lemma_parts_from(w, "card"@, 0);
    reveal_strlit("creature");
    lemma_parts_from(w, "creature"@, 0);
    reveal_strlit("land");
    lemma_parts_from(w, "land"@, 0);
    reveal_strlit("instant");
    lemma_parts_from(w, "instant"@, 0);
    reveal_strlit("sorcery");
    lemma_parts_from(w, "sorcery"@, 0);
    reveal_strlit("artifact");
    lemma_parts_from(w, "artifact"@, 0);
    reveal_strlit("enchantment");
    lemma_parts_from(w, "enchantment"@, 0);
    reveal_strlit("planeswalker");
    lemma_parts_from(w, "planeswalker"@, 1);
}

proof fn lemma_first_word_10(text: Seq<char>)
    ensures
        lowered(text) == "spell"@ ==> first_word(lowered(text)) == Some(SelectorPredicate::CardType(CardSelectorType::Spell)),
{
    let w = "spell"@;
    reveal_strlit("spell");
    reveal_strlit("any");
    lemma_parts_from(w, "any"@, 0);
    reveal_strlit("card");
    lemma_parts_from(w, "card"@, 0);
    reveal_strlit("creature");
    lemma_parts_from(w, "creature"@, 0);
    reveal_strlit("land");
    lemma_parts_from(w, "land"@, 0);
    reveal_strlit("instant");
    lemma_parts_from(w, "instant"@, 0);
    reveal_strlit("sorcery");
    lemma_parts_from(w, "sorcery"@, 1);
    reveal_strlit("artifact");
    lemma_parts_from(w, "artifact"@, 0);
    reveal_strlit("enchantment");
    lemma_parts_from(w, "enchantment"@, 0);
    reveal_strlit("planeswalker");
    lemma_parts_from(w, "planeswalker"@, 0);
    reveal_strlit("permanent");
    lemma_parts_from(w, "permanent"@, 0);
}

proof fn lemma_first_word_11(text: Seq<char>)
    ensures
        lowered(text) == "nonland"@ ==> first_word(lowered(text)) == Some(SelectorPredicate::CardType(CardSelectorType::NonLand)),
{
    let w = "nonland"@;
    reveal_strlit("nonland");
    reveal_strlit("any");
    lemma_parts_from(w, "any"@, 0);
    reveal_strlit("card");
    lemma_parts_from(w, "card"@, 0);
    reveal_strlit("creature");
    lemma_parts_from(w, "creature"@, 0);
    reveal_strlit("land");
    lemma_parts_from(w, "land"@, 0);
    reveal_strlit("instant");
    lemma_parts_from(w, "instant"@, 0);
    reveal_strlit("sorcery");
    lemma_parts_from(w, "sorcery"@, 0);
    reveal_strlit("artifact");
    lemma_parts_from(w, "artifact"@, 0);
    reveal_strlit("enchantment");
    lemma_parts_from(w, "enchantment"@, 0);
    reveal_strlit("planeswalker");
    lemma_parts_from(w, "planeswalker"@, 0);
    reveal_strlit("permanent");
    lemma_parts_from(w, "permanent"@, 0);
    reveal_strlit("spell");
    lemma_parts_from(w, "spell"@, 0);
}

proof fn lemma_first_word_12(text: Seq<char>)
    ensures
        lowered(text) == "noncreature"@ ==> first_word(lowered(text)) == Some(SelectorPredicate::CardType(CardSelectorType::NonCreature)),
{
    let w = "noncreature"@;
    reveal_strlit("noncreature");
    reveal_strlit("any");
    lemma_parts_from(w, "any"@, 0);
    reveal_strlit("card");
    lemma_parts_from(w, "card"@, 0);
    reveal_strlit("creature");
    lemma_parts_from(w, "creature"@, 0);
    reveal_strlit("land");
    lemma_parts_from(w, "land"@, 0);
    reveal_strlit("instant");
    lemma_parts_from(w, "instant"@, 0);
    reveal_strlit("sorcery");
    lemma_parts_from(w, "sorcery"@, 0);
    reveal_strlit("artifact");
    lemma_parts_from(w, "artifact"@, 0);
    reveal_strlit("enchantment");
    lemma_parts_from(w, "enchantment"@, 0);
    reveal_strlit("planeswalker");
    lemma_parts_from(w, "planeswalker"@, 0);
    reveal_strlit("permanent");
    lemma_parts_from(w, "permanent"@, 0);
    reveal_strlit("spell");
    lemma_parts_from(w, "spell"@, 0);
    reveal_strlit("nonland");
    lemma_parts_from(w, "nonland"@, 3);
}

proof fn lemma_first_word_13(text: Seq<char>)
    ensures
        lowered(text) == "player"@ ==> first_word(lowered(text)) == Some(SelectorPredicate::Player),
{
    let w = "player"@;
    reveal_strlit("player");
    reveal_strlit("any");
    lemma_parts_from(w, "any"@, 0);
    reveal_strlit("card");
    lemma_parts_from(w, "card"@, 0);
    reveal_strlit("creature");
    lemma_parts_from(w, "creature"@, 0);
    reveal_strlit("land");
    lemma_parts_from(w, "land"@, 0);
    reveal_strlit("instant");
    lemma_parts_from(w, "instant"@, 0);
    reveal_strlit("sorcery");
    lemma_parts_from(w, "sorcery"@, 0);
    reveal_strlit("artifact");
    lemma_parts_from(w, "artifact"@, 0);
    reveal_strlit("enchantment");
    lemma_parts_from(w, "enchantment"@, 0);
    reveal_strlit("planeswalker");
    lemma_parts_from(w, "planeswalker"@, 3);
    reveal_strlit("permanent");
    lemma_parts_from(w, "permanent"@, 1);
    reveal_strlit("spell");
    lemma_parts_from(w, "spell"@, 0);
    reveal_strlit("nonland");
    lemma_parts_from(w, "nonland"@, 0);
    reveal_strlit("noncreature");
    lemma_parts_from(w, "noncreature"@, 0);
}

proof fn lemma_first_word_14(text: Seq<char>)
    ensures
        lowered(text) == "each"@ ==> first_word(lowered(text)) == Some(SelectorPredicate::Player),
{
    let w = "each"@;
    reveal_strlit("each");
    reveal_strlit("any");
    lemma_parts_from(w, "any"@, 0);
    reveal_strlit("card");
    lemma_parts_from(w, "card"@, 0);
    reveal_strlit("creature");
    lemma_parts_from(w, "creature"@, 0);
    reveal_strlit("land");
    lemma_parts_from(w, "land"@, 0);
    reveal_strlit("instant");
    lemma_parts_from(w, "instant"@, 0);
    reveal_strlit("sorcery");
    lemma_parts_from(w, "sorcery"@, 0);
    reveal_strlit("artifact");
    lemma_parts_from(w, "artifact"@, 0);
    reveal_strlit("enchantment");
    lemma_parts_from(w, "enchantment"@, 1);
    reveal_strlit("planeswalker");
    lemma_parts_from(w, "planeswalker"@, 0);
    reveal_strlit("permanent");
    lemma_parts_from(w, "permanent"@, 0);
    reveal_strlit("spell");
    lemma_parts_from(w, "spell"@, 0);
    reveal_strlit("nonland");
    lemma_parts_from(w, "nonland"@, 0);
    reveal_strlit("noncreature");
    lemma_parts_from(w, "noncreature"@, 0);
}

proof fn lemma_first_word_15(text: Seq<char>)
    ensures
        lowered(text) == "player.ingame"@ ==> first_word(lowered(text)) == Some(SelectorPredicate::Player),
{
    let w = "player.ingame"@;
    reveal_strlit("player.ingame");
    reveal_strlit("any");
    lemma_parts_from(w, "any"@, 0);
    reveal_strlit("card");
    lemma_parts_from(w, "card"@, 0);
    reveal_strlit("creature");
    lemma_parts_from(w, "creature"@, 0);
    reveal_strlit("land");
    lemma_parts_from(w, "land"@, 0);
    reveal_strlit("instant");
    lemma_parts_from(w, "instant"@, 0);
    reveal_strlit("sorcery");
    lemma_parts_from(w, "sorcery"@, 0);
    reveal_strlit("artifact");
    lemma_parts_from(w, "artifact"@, 0);
    reveal_strlit("enchantment");
    lemma_parts_from(w, "enchantment"@, 0);
    reveal_strlit("planeswalker");
    lemma_parts_from(w, "planeswalker"@, 3);
    reveal_strlit("permanent");
    lemma_parts_from(w, "permanent"@, 1);
    reveal_strlit("spell");
    lemma_parts_from(w, "spell"@, 0);
    reveal_strlit("nonland");
    lemma_parts_from(w, "nonland"@, 0);
    reveal_strlit("noncreature");
    lemma_parts_from(w, "noncreature"@, 0);
}

proof fn lemma_first_word_16(text: Seq<char>)
    ensures
        lowered(text) == "you"@ ==> first_word(lowered(text)) == Some(SelectorPredicate::PlayerController(ControllerSelector::You)),
{
    let w = "you"@;
    reveal_strlit("you");
    reveal_strlit("any");
    lemma_parts_from(w, "any"@, 0);
    reveal_strlit("card");
    lemma_parts_from(w, "card"@, 0);
    reveal_strlit("creature");
    lemma_parts_from(w, "creature"@, 0);
    reveal_strlit("land");
    lemma_parts_from(w, "land"@, 0);
    reveal_strlit("instant");
    lemma_parts_from(w, "instant"@, 0);
    reveal_strlit("sorcery");
    lemma_parts_from(w, "sorcery"@, 0);
    reveal_strlit("artifact");
    lemma_parts_from(w, "artifact"@, 0);
    reveal_strlit("enchantment");
    lemma_parts_from(w, "enchantment"@, 0);
    reveal_strlit("planeswalker");
    lemma_parts_from(w, "planeswalker"@, 0);
    reveal_strlit("permanent");
    lemma_parts_from(w, "permanent"@, 0);
    reveal_strlit("spell");
    lemma_parts_from(w, "spell"@, 0);
    reveal_strlit("nonland");
    lemma_parts_from(w, "nonland"@, 0);
    reveal_strlit("noncreature");
    lemma_parts_from(w, "noncreature"@, 0);
    reveal_strlit("player");
    lemma_parts_from(w, "player"@, 0);
    reveal_strlit("each");
    lemma_parts_from(w, "each"@, 0);
    reveal_strlit("player.ingame");
    lemma_parts_from(w, "player.ingame"@, 0);
}

proof fn lemma_first_word_17(text: Seq<char>)
    ensures
        lowered(text) == "youctrl"@ ==> first_word(lowered(text)) == Some(SelectorPredicate::PlayerController(ControllerSelector::You)),
{
    let w = "youctrl"@;
    reveal_strlit("youctrl");
    reveal_strlit("any");
    lemma_parts_from(w, "any"@, 0);
    reveal_strlit("card");
    lemma_parts_from(w, "card"@, 0);
    reveal_strlit("creature");
    lemma_parts_from(w, "creature"@, 0);
    reveal_strlit("land");
    lemma_parts_from(w, "land"@, 0);
    reveal_strlit("instant");
    lemma_parts_from(w, "instant"@, 0);
    reveal_strlit("sorcery");
    lemma_parts_from(w, "sorcery"@, 0);
    reveal_strlit("artifact");
    lemma_parts_from(w, "artifact"@, 0);
    reveal_strlit("enchantment");
    lemma_parts_from(w, "enchantment"@, 0);
    reveal_strlit("planeswalker");
    lemma_parts_from(w, "planeswalker"@, 0);
    reveal_strlit("permanent");
    lemma_parts_from(w, "permanent"@, 0);
    reveal_strlit("spell");
    lemma_parts_from(w, "spell"@, 0);
    reveal_strlit("nonland");
    lemma_parts_from(w, "nonland"@, 0);
    reveal_strlit("noncreature");
    lemma_parts_from(w, "noncreature"@, 0);
    reveal_strlit("player");
    lemma_parts_from(w, "player"@, 0);
    reveal_strlit("each");
    lemma_parts_from(w, "each"@, 0);
    reveal_strlit("player.ingame");
    lemma_parts_from(w, "player.ingame"@, 0);
}

proof fn lemma_first_word_18(text: Seq<char>)
    ensures
        lowered(text) == "opponent"@ ==> first_word(lowered(text)) == Some(SelectorPredicate::PlayerController(ControllerSelector::Opponent)),
{
    let w = "opponent"@;
    reveal_strlit("opponent");
    reveal_strlit("any");
    lemma_parts_from(w, "any"@, 0);
    reveal_strlit("card");
    lemma_parts_from(w, "card"@, 0);
    reveal_strlit("creature");
    lemma_parts_from(w, "creature"@, 0);
    reveal_strlit("land");
    lemma_parts_from(w, "land"@, 0);
    reveal_strlit("instant");
    lemma_parts_from(w, "instant"@, 0);
    reveal_strlit("sorcery");
    lemma_parts_from(w, "sorcery"@, 0);
    reveal_strlit("artifact");
    lemma_parts_from(w, "artifact"@, 0);
    reveal_strlit("enchantment");
    lemma_parts_from(w, "enchantment"@, 0);
    reveal_strlit("planeswalker");
    lemma_parts_from(w, "planeswalker"@, 0);
    reveal_strlit("permanent");
    lemma_parts_from(w, "permanent"@, 0);
    reveal_strlit("spell");
    lemma_parts_from(w, "spell"@, 0);
    reveal_strlit("nonland");
    lemma_parts_from(w, "nonland"@, 0);
    reveal_strlit("noncreature");
    lemma_parts_from(w, "noncreature"@, 0);
    reveal_strlit("player");
    lemma_parts_from(w, "player"@, 0);
    reveal_strlit("each");
    lemma_parts_from(w, "each"@, 0);
    reveal_strlit("player.ingame");
    lemma_parts_from(w, "player.ingame"@, 0);
    reveal_strlit("you");
    lemma_parts_from(w, "you"@, 0);
    reveal_strlit("youctrl");
    lemma_parts_from(w, "youctrl"@, 0);
}

proof fn lemma_first_word_19(text: Seq<char>)
    ensures
        lowered(text) == "oppctrl"@ ==> first_word(lowered(text)) == Some(SelectorPredicate::PlayerController(ControllerSelector::Opponent)),
{
    let w = "oppctrl"@;
    reveal_strlit("oppctrl");
    reveal_strlit("any");
    lemma_parts_from(w, "any"@, 0);
    reveal_strlit("card");
    lemma_parts_from(w, "card"@, 0);
    reveal_strlit("creature");
    lemma_parts_from(w, "creature"@, 0);
    reveal_strlit("land");
    lemma_parts_from(w, "land"@, 0);
    reveal_strlit("instant");
    lemma_parts_from(w, "instant"@, 0);
    reveal_strlit("sorcery");
    lemma_parts_from(w, "sorcery"@, 0);
    reveal_strlit("artifact");
    lemma_parts_from(w, "artifact"@, 0);
    reveal_strlit("enchantment");
    lemma_parts_from(w, "enchantment"@, 0);
    reveal_strlit("planeswalker");
    lemma_parts_from(w, "planeswalker"@, 0);
    reveal_strlit("permanent");
    lemma_parts_from(w, "permanent"@, 0);
    reveal_strlit("spell");
    lemma_parts_from(w, "spell"@, 0);
    reveal_strlit("nonland");
    lemma_parts_from(w, "nonland"@, 0);
    reveal_strlit("noncreature");
    lemma_parts_from(w, "noncreature"@, 0);
    reveal_strlit("player");
    lemma_parts_from(w, "player"@, 0);
    reveal_strlit("each");
    lemma_parts_from(w, "each"@, 0);
    reveal_strlit("player.ingame");
    lemma_parts_from(w, "player.ingame"@, 0);
    reveal_strlit("you");
    lemma_parts_from(w, "you"@, 0);
    reveal_strlit("youctrl");
    lemma_parts_from(w, "youctrl"@, 0);
}

proof fn lemma_first_word_20(text: Seq<char>)
    ensures
        lowered(text) == "opponentctrl"@ ==> first_word(lowered(text)) == Some(SelectorPredicate::PlayerController(ControllerSelector::Opponent)),
{
    let w = "opponentctrl"@;
    reveal_strlit("opponentctrl");
    reveal_strlit("any");
    lemma_parts_from(w, "any"@, 0);
    reveal_strlit("card");
    lemma_parts_from(w, "card"@, 0);
    reveal_strlit("creature");
    lemma_parts_from(w, "creature"@, 0);
    reveal_strlit("land");
    lemma_parts_from(w, "land"@, 0);
    reveal_strlit("instant");
    lemma_parts_from(w, "instant"@, 0);
    reveal_strlit("sorcery");
    lemma_parts_from(w, "sorcery"@, 0);
    reveal_strlit("artifact");
    lemma_parts_from(w, "artifact"@, 0);
    reveal_strlit("enchantment");
    lemma_parts_from(w, "enchantment"@, 0);
    reveal_strlit("planeswalker");
    lemma_parts_from(w, "planeswalker"@, 0);
    reveal_strlit("permanent");
    lemma_parts_from(w, "permanent"@, 0);
    reveal_strlit("spell");
    lemma_parts_from(w, "spell"@, 0);
    reveal_strlit("nonland");
    lemma_parts_from(w, "nonland"@, 0);
    reveal_strlit("noncreature");
    lemma_parts_from(w, "noncreature"@, 0);
    reveal_strlit("player");
    lemma_parts_from(w, "player"@, 0);
    reveal_strlit("each");
    lemma_parts_from(w, "each"@, 0);
    reveal_strlit("player.ingame");
    lemma_parts_from(w, "player.ingame"@, 0);
    reveal_strlit("you");
    lemma_parts_from(w, "you"@, 0);
    reveal_strlit("youctrl");
    lemma_parts_from(w, "youctrl"@, 0);
}

/// Words on which card it is, whose it is, and where and how it is.
pub proof fn law_words_of_owners(text: Seq<char>)
    ensures
        lowered(text) == "self"@ ==> owner_word(lowered(text)) == Some(SelectorPredicate::CardIdentity(CardIdentitySelector::Self_)),
        lowered(text) == "strictlyself"@ ==> owner_word(lowered(text)) == Some(SelectorPredicate::CardIdentity(CardIdentitySelector::Self_)),
        lowered(text) == "other"@ ==> owner_word(lowered(text)) == Some(SelectorPredicate::CardIdentity(CardIdentitySelector::Other)),
        lowered(text) == "strictlyother"@ ==> owner_word(lowered(text)) == Some(SelectorPredicate::CardIdentity(CardIdentitySelector::Other)),
        lowered(text) == "you"@ ==> owner_word(lowered(text)) == Some(SelectorPredicate::CardController(ControllerSelector::You)),
        lowered(text) == "youctrl"@ ==> owner_word(lowered(text)) == Some(SelectorPredicate::CardController(ControllerSelector::You)),
        lowered(text) == "youcontrol"@ ==> owner_word(lowered(text)) == Some(SelectorPredicate::CardController(ControllerSelector::You)),
        lowered(text) == "opponent"@ ==> owner_word(lowered(text)) == Some(SelectorPredicate::CardController(ControllerSelector::Opponent)),
        lowered(text) == "oppctrl"@ ==> owner_word(lowered(text)) == Some(SelectorPredicate::CardController(ControllerSelector::Opponent)),
        lowered(text) == "opponentctrl"@ ==> owner_word(lowered(text)) == Some(SelectorPredicate::CardController(ControllerSelector::Opponent)),
        lowered(text) == "youown"@ ==> owner_word(lowered(text)) == Some(SelectorPredicate::CardOwner(ControllerSelector::You)),
        lowered(text) == "oppown"@ ==> owner_word(lowered(text)) == Some(SelectorPredicate::CardOwner(ControllerSelector::Opponent)),
        lowered(text) == "opponentown"@ ==> owner_word(lowered(text)) == Some(SelectorPredicate::CardOwner(ControllerSelector::Opponent)),
        lowered(text) == "youdontctrl"@ ==> owner_word(lowered(text)) == Some(SelectorPredicate::Not(Box::new(SelectorPredicate::CardController(ControllerSelector::You)))),
        lowered(text) == "youdontown"@ ==> owner_word(lowered(text)) == Some(SelectorPredicate::Not(Box::new(SelectorPredicate::CardOwner(ControllerSelector::You)))),
        lowered(text) == "tapped"@ ==> owner_word(lowered(text)) == Some(SelectorPredicate::Tapped(true)),
        lowered(text) == "untapped"@ ==> owner_word(lowered(text)) == Some(SelectorPredicate::Tapped(false)),
        lowered(text) == "startedtheturntapped"@ ==> owner_word(lowered(text)) == Some(SelectorPredicate::StartedTurnTapped(true)),
        lowered(text) == "startedtheturnuntapped"@ ==> owner_word(lowered(text)) == Some(SelectorPredicate::StartedTurnTapped(false)),
        lowered(text) == "cameundercontrolsincelastupkeep"@ ==> owner_word(lowered(text)) == Some(SelectorPredicate::CameUnderControlSinceLastUpkeep),
        lowered(text) == "inzonebattlefield"@ ==> owner_word(lowered(text)) == Some(SelectorPredicate::Zone(ZoneType::Battlefield)),
        lowered(text) == "inrealzonebattlefield"@ ==> owner_word(lowered(text)) == Some(SelectorPredicate::Zone(ZoneType::Battlefield)),
        lowered(text) == "inzonegraveyard"@ ==> owner_word(lowered(text)) == Some(SelectorPredicate::Zone(ZoneType::Graveyard)),
        lowered(text) == "inrealzonegraveyard"@ ==> owner_word(lowered(text)) == Some(SelectorPredicate::Zone(ZoneType::Graveyard)),
        lowered(text) == "inzonehand"@ ==> owner_word(lowered(text)) == Some(SelectorPredicate::Zone(ZoneType::Hand)),
        lowered(text) == "inrealzonehand"@ ==> owner_word(lowered(text)) == Some(SelectorPredicate::Zone(ZoneType::Hand)),
        lowered(text) == "inzoneexile"@ ==> owner_word(lowered(text)) == Some(SelectorPredicate::Zone(ZoneType::Exile)),
        lowered(text) == "inrealzoneexile"@ ==> owner_word(lowered(text)) == Some(SelectorPredicate::Zone(ZoneType::Exile)),
        lowered(text) == "inzonestack"@ ==> owner_word(lowered(text)) == Some(SelectorPredicate::Zone(ZoneType::Stack)),
        lowered(text) == "inrealzonestack"@ ==> owner_word(lowered(text)) == Some(SelectorPredicate::Zone(ZoneType::Stack)),
{
    lemma_owner_word_0(text);
    lemma_owner_word_1(text);
    lemma_owner_word_2(text);
    lemma_owner_word_3(text);
    lemma_owner_word_4(text);
    lemma_owner_word_5(text);
    lemma_owner_word_6(text);
    lemma_owner_word_7(text);
    lemma_owner_word_8(text);
    lemma_owner_word_9(text);
    lemma_owner_word_10(text);
    lemma_owner_word_11(text);
    lemma_owner_word_12(text);
    lemma_owner_word_13(text);
    lemma_owner_word_14(text);
    lemma_owner_word_15(text);
    lemma_owner_word_16(text);
    lemma_owner_word_17(text);
    lemma_owner_word_18(text);
    lemma_owner_word_19(text);
    lemma_owner_word_20(text);
    lemma_owner_word_21(text);
    lemma_owner_word_22(text);
    lemma_owner_word_23(text);
    lemma_owner_word_24(text);
    lemma_owner_word_25(text);
    lemma_owner_word_26(text);
    lemma_owner_word_27(text);
    lemma_owner_word_28(text);
    lemma_owner_word_29(text);
}

proof fn lemma_owner_word_0(text: Seq<char>)
    ensures
        lowered(text) == "self"@ ==> owner_word(lowered(text)) == Some(SelectorPredicate::CardIdentity(CardIdentitySelector::Self_)),
{
    let w = "self"@;
    reveal_strlit("self");
}

proof fn lemma_owner_word_1(text: Seq<char>)
    ensures
        lowered(text) == "strictlyself"@ ==> owner_word(lowered(text)) == Some(SelectorPredicate::CardIdentity(CardIdentitySelector::Self_)),
{
    let w = "strictlyself"@;
    reveal_strlit("strictlyself");
}

proof fn lemma_owner_word_2(text: Seq<char>)
    ensures
        lowered(text) == "other"@ ==> owner_word(lowered(text)) == Some(SelectorPredicate::CardIdentity(CardIdentitySelector::Other)),
{
    let w = "other"@;
    reveal_strlit("other");
    reveal_strlit("self");
    lemma_parts_from(w, "self"@, 0);
    reveal_strlit("strictlyself");
    lemma_parts_from(w, "strictlyself"@, 0);
}

proof fn lemma_owner_word_3(text: Seq<char>)
    ensures
        lowered(text) == "strictlyother"@ ==> owner_word(lowered(text)) == Some(SelectorPredicate::CardIdentity(CardIdentitySelector::Other)),
{
    let w = "strictlyother"@;
    reveal_strlit("strictlyother");
    reveal_strlit("self");
    lemma_parts_from(w, "self"@, 1);
    reveal_strlit("strictlyself");
    lemma_parts_from(w, "strictlyself"@, 8);
}

proof fn lemma_owner_word_4(text: Seq<char>)
    ensures
        lowered(text) == "you"@ ==> owner_word(lowered(text)) == Some(SelectorPredicate::CardController(ControllerSelector::You)),
{
    let w = "you"@;
    reveal_strlit("you");
    reveal_strlit("self");
    lemma_parts_from(w, "self"@, 0);
    reveal_strlit("strictlyself");
    lemma_parts_from(w, "strictlyself"@, 0);
    reveal_strlit("other");
    lemma_parts_from(w, "other"@, 0);
    reveal_strlit("strictlyother");
    lemma_parts_from(w, "strictlyother"@, 0);
}

proof fn lemma_owner_word_5(text: Seq<char>)
    ensures
        lowered(text) == "youctrl"@ ==> owner_word(lowered(text)) == Some(SelectorPredicate::CardController(ControllerSelector::You)),
{
    let w = "youctrl"@;
    reveal_strlit("youctrl");
    reveal_strlit("self");
    lemma_parts_from(w, "self"@, 0);
    reveal_strlit("strictlyself");
    lemma_parts_from(w, "strictlyself"@, 0);
    reveal_strlit("other");
    lemma_parts_from(w, "other"@, 0);
    reveal_strlit("strictlyother");
    lemma_parts_from(w, "strictlyother"@, 0);
}

proof fn lemma_owner_word_6(text: Seq<char>)
    ensures
        lowered(text) == "youcontrol"@ ==> owner_word(lowered(text)) == Some(SelectorPredicate::CardController(ControllerSelector::You)),
{
    let w = "youcontrol"@;
    reveal_strlit("youcontrol");
    reveal_strlit("self");
    lemma_parts_from(w, "self"@, 0);
    reveal_strlit("strictlyself");
    lemma_parts_from(w, "strictlyself"@, 0);
    reveal_strlit("other");
    lemma_parts_from(w, "other"@, 0);
    reveal_strlit("strictlyother");
    lemma_parts_from(w, "strictlyother"@, 0);
}

proof fn lemma_owner_word_7(text: Seq<char>)
    ensures
        lowered(text) == "opponent"@ ==> owner_word(lowered(text)) == Some(SelectorPredicate::CardController(ControllerSelector::Opponent)),
{
    let w = "opponent"@;
    reveal_strlit("opponent");
    reveal_strlit("self");
    lemma_parts_from(w, "self"@, 0);
    reveal_strlit("strictlyself");
    lemma_parts_from(w, "strictlyself"@, 0);
    reveal_strlit("other");
    lemma_parts_from(w, "other"@, 1);
    reveal_strlit("strictlyother");
    lemma_parts_from(w, "strictlyother"@, 0);
    reveal_strlit("you");
    lemma_parts_from(w, "you"@, 0);
    reveal_strlit("youctrl");
    lemma_parts_from(w, "youctrl"@, 0);
    reveal_strlit("youcontrol");
    lemma_parts_from(w, "youcontrol"@, 0);
}

proof fn lemma_owner_word_8(text: Seq<char>)
    ensures
        lowered(text) == "oppctrl"@ ==> owner_word(lowered(text)) == Some(SelectorPredicate::CardController(ControllerSelector::Opponent)),
{
    let w = "oppctrl"@;
    reveal_strlit("oppctrl");
    reveal_strlit("self");
    lemma_parts_from(w, "self"@, 0);
    reveal_strlit("strictlyself");
    lemma_parts_from(w, "strictlyself"@, 0);
    reveal_strlit("other");
    lemma_parts_from(w, "other"@, 1);
    reveal_strlit("strictlyother");
    lemma_parts_from(w, "strictlyother"@, 0);
    reveal_strlit("you");
    lemma_parts_from(w, "you"@, 0);
    reveal_strlit("youctrl");
    lemma_parts_from(w, "youctrl"@, 0);
    reveal_strlit("youcontrol");
    lemma_parts_from(w, "youcontrol"@, 0);
}

proof fn lemma_owner_word_9(text: Seq<char>)
    ensures
        lowered(text) == "opponentctrl"@ ==> owner_word(lowered(text)) == Some(SelectorPredicate::CardController(ControllerSelector::Opponent)),
{
    let w = "opponentctrl"@;
    reveal_strlit("opponentctrl");
    reveal_strlit("self");
    lemma_parts_from(w, "self"@, 0);
    reveal_strlit("strictlyself");
    lemma_parts_from(w, "strictlyself"@, 0);
    reveal_strlit("other");
    lemma_parts_from(w, "other"@, 1);
    reveal_strlit("strictlyother");
    lemma_parts_from(w, "strictlyother"@, 0);
    reveal_strlit("you");
    lemma_parts_from(w, "you"@, 0);
    reveal_strlit("youctrl");
    lemma_parts_from(w, "youctrl"@, 0);
    reveal_strlit("youcontrol");
    lemma_parts_from(w, "youcontrol"@, 0);
}

proof fn lemma_owner_word_10(text: Seq<char>)
    ensures
        lowered(text) == "youown"@ ==> owner_word(lowered(text)) == Some(SelectorPredicate::CardOwner(ControllerSelector::You)),
{
    let w = "youown"@;
    reveal_strlit("youown");
    reveal_strlit("self");
    lemma_parts_from(w, "self"@, 0);
    reveal_strlit("strictlyself");
    lemma_parts_from(w, "strictlyself"@, 0);
    reveal_strlit("other");
    lemma_parts_from(w, "other"@, 0);
    reveal_strlit("strictlyother");
    lemma_parts_from(w, "strictlyother"@, 0);
    reveal_strlit("you");
    assert("you"@.len() < w.len());
    reveal_strlit("youctrl");
    lemma_parts_from(w, "youctrl"@, 3);
    reveal_strlit("youcontrol");
    lemma_parts_from(w, "youcontrol"@, 3);
    reveal_strlit("opponent");
    lemma_parts_from(w, "opponent"@, 0);
    reveal_strlit("oppctrl");
    lemma_parts_from(w, "oppctrl"@, 0);
    reveal_strlit("opponentctrl");
    lemma_parts_from(w, "opponentctrl"@, 0);
}

proof fn lemma_owner_word_11(text: Seq<char>)
    ensures
        lowered(text) == "oppown"@ ==> owner_word(lowered(text)) == Some(SelectorPredicate::CardOwner(ControllerSelector::Opponent)),
{
    let w = "oppown"@;
    reveal_strlit("oppown");
    reveal_strlit("self");
    lemma_parts_from(w, "self"@, 0);
    reveal_strlit("strictlyself");
    lemma_parts_from(w, "strictlyself"@, 0);
    reveal_strlit("other");
    lemma_parts_from(w, "other"@, 1);
    reveal_strlit("strictlyother");
    lemma_parts_from(w, "strictlyother"@, 0);
    reveal_strlit("you");
    lemma_parts_from(w, "you"@, 0);
    reveal_strlit("youctrl");
    lemma_parts_from(w, "youctrl"@, 0);
    reveal_strlit("youcontrol");
    lemma_parts_from(w, "youcontrol"@, 0);
    reveal_strlit("opponent");
    lemma_parts_from(w, "opponent"@, 4);
    reveal_strlit("oppctrl");
    lemma_parts_from(w, "oppctrl"@, 3);
    reveal_strlit("opponentctrl");
    lemma_parts_from(w, "opponentctrl"@, 4);
    reveal_strlit("youown");
    lemma_parts_from(w, "youown"@, 0);
}

proof fn lemma_owner_word_12(text: Seq<char>)
    ensures
        lowered(text) == "opponentown"@ ==> owner_word(lowered(text)) == Some(SelectorPredicate::CardOwner(ControllerSelector::Opponent)),
{
    let w = "opponentown"@;
    reveal_strlit("opponentown");
    reveal_strlit("self");
    lemma_parts_from(w, "self"@, 0);
    reveal_strlit("strictlyself");
    lemma_parts_from(w, "strictlyself"@, 0);
    reveal_strlit("other");
    lemma_parts_from(w, "other"@, 1);
    reveal_strlit("strictlyother");
    lemma_parts_from(w, "strictlyother"@, 0);
    reveal_strlit("you");
    lemma_parts_from(w, "you"@, 0);
    reveal_strlit("youctrl");
    lemma_parts_from(w, "youctrl"@, 0);
    reveal_strlit("youcontrol");
    lemma_parts_from(w, "youcontrol"@, 0);
    reveal_strlit("opponent");
    assert("opponent"@.len() < w.len());
    reveal_strlit("oppctrl");
    lemma_parts_from(w, "oppctrl"@, 3);
    reveal_strlit("opponentctrl");
    lemma_parts_from(w, "opponentctrl"@, 8);
    reveal_strlit("youown");
    lemma_parts_from(w, "youown"@, 0);
}

proof fn lemma_owner_word_13(text: Seq<char>)
    ensures
        lowered(text) == "youdontctrl"@ ==> owner_word(lowered(text)) == Some(SelectorPredicate::Not(Box::new(SelectorPredicate::CardController(ControllerSelector::You)))),
{
    let w = "youdontctrl"@;
    reveal_strlit("youdontctrl");
    reveal_strlit("self");
    lemma_parts_from(w, "self"@, 0);
    reveal_strlit("strictlyself");
    lemma_parts_from(w, "strictlyself"@, 0);
    reveal_strlit("other");
    lemma_parts_from(w, "other"@, 0);
    reveal_strlit("strictlyother");
    lemma_parts_from(w, "strictlyother"@, 0);
    reveal_strlit("you");
    assert("you"@.len() < w.len());
    reveal_strlit("youctrl");
    lemma_parts_from(w, "youctrl"@, 3);
    reveal_strlit("youcontrol");
    lemma_parts_from(w, "youcontrol"@, 3);
    reveal_strlit("opponent");
    lemma_parts_from(w, "opponent"@, 0);
    reveal_strlit("oppctrl");
    lemma_parts_from(w, "oppctrl"@, 0);
    reveal_strlit("opponentctrl");
    lemma_parts_from(w, "opponentctrl"@, 0);
    reveal_strlit("youown");
    lemma_parts_from(w, "youown"@, 3);
    reveal_strlit("oppown");
    lemma_parts_from(w, "oppown"@, 0);
    reveal_strlit("opponentown");
    lemma_parts_from(w, "opponentown"@, 0);
}

proof fn lemma_owner_word_14(text: Seq<char>)
    ensures
        lowered(text) == "youdontown"@ ==> owner_word(lowered(text)) == Some(SelectorPredicate::Not(Box::new(SelectorPredicate::CardOwner(ControllerSelector::You)))),
{
    let w = "youdontown"@;
    reveal_strlit("youdontown");
    reveal_strlit("self");
    lemma_parts_from(w, "self"@, 0);
    reveal_strlit("strictlyself");
    lemma_parts_from(w, "strictlyself"@, 0);
    reveal_strlit("other");
    lemma_parts_from(w, "other"@, 0);
    reveal_strlit("strictlyother");
    lemma_parts_from(w, "strictlyother"@, 0);
    reveal_strlit("you");
    assert("you"@.len() < w.len());
    reveal_strlit("youctrl");
    lemma_parts_from(w, "youctrl"@, 3);
    reveal_strlit("youcontrol");
    lemma_parts_from(w, "youcontrol"@, 3);
    reveal_strlit("opponent");
    lemma_parts_from(w, "opponent"@, 0);
    reveal_strlit("oppctrl");
    lemma_parts_from(w, "oppctrl"@, 0);
    reveal_strlit("opponentctrl");
    lemma_parts_from(w, "opponentctrl"@, 0);
    reveal_strlit("youown");
    lemma_parts_from(w, "youown"@, 3);
    reveal_strlit("oppown");
    lemma_parts_from(w, "oppown"@, 0);
    reveal_strlit("opponentown");
    lemma_parts_from(w, "opponentown"@, 0);
    reveal_strlit("youdontctrl");
    lemma_parts_from(w, "youdontctrl"@, 7);
}

proof fn lemma_owner_word_15(text: Seq<char>)
    ensures
        lowered(text) == "tapped"@ ==> owner_word(lowered(text)) == Some(SelectorPredicate::Tapped(true)),
{
    let w = "tapped"@;
    reveal_strlit("tapped");
    reveal_strlit("self");
    lemma_parts_from(w, "self"@, 0);
    reveal_strlit("strictlyself");
    lemma_parts_from(w, "strictlyself"@, 0);
    reveal_strlit("other");
    lemma_parts_from(w, "other"@, 0);
    reveal_strlit("strictlyother");
    lemma_parts_from(w, "strictlyother"@, 0);
    reveal_strlit("you");
    lemma_parts_from(w, "you"@, 0);
    reveal_strlit("youctrl");
    lemma_parts_from(w, "youctrl"@, 0);
    reveal_strlit("youcontrol");
    lemma_parts_from(w, "youcontrol"@, 0);
    reveal_strlit("opponent");
    lemma_parts_from(w, "opponent"@, 0);
    reveal_strlit("oppctrl");
    lemma_parts_from(w, "oppctrl"@, 0);
    reveal_strlit("opponentctrl");
    lemma_parts_from(w, "opponentctrl"@, 0);
    reveal_strlit("youown");
    lemma_parts_from(w, "youown"@, 0);
    reveal_strlit("oppown");
    lemma_parts_from(w, "oppown"@, 0);
    reveal_strlit("opponentown");
    lemma_parts_from(w, "opponentown"@, 0);
    reveal_strlit("youdontctrl");
    lemma_parts_from(w, "youdontctrl"@, 0);
    reveal_strlit("youdontown");
    lemma_parts_from(w, "youdontown"@, 0);
}

proof fn lemma_owner_word_16(text: Seq<char>)
    ensures
        lowered(text) == "untapped"@ ==> owner_word(lowered(text)) == Some(SelectorPredicate::Tapped(false)),
{
    let w = "untapped"@;
    reveal_strlit("untapped");
    reveal_strlit("self");
    lemma_parts_from(w, "self"@, 0);
    reveal_strlit("strictlyself");
    lemma_parts_from(w, "strictlyself"@, 0);
    reveal_strlit("other");
    lemma_parts_from(w, "other"@, 0);
    reveal_strlit("strictlyother");
    lemma_parts_from(w, "strictlyother"@, 0);
    reveal_strlit("you");
    lemma_parts_from(w, "you"@, 0);
    reveal_strlit("youctrl");
    lemma_parts_from(w, "youctrl"@, 0);
    reveal_strlit("youcontrol");
    lemma_parts_from(w, "youcontrol"@, 0);
    reveal_strlit("opponent");
    lemma_parts_from(w, "opponent"@, 0);
    reveal_strlit("oppctrl");
    lemma_parts_from(w, "oppctrl"@, 0);
    reveal_strlit("opponentctrl");
    lemma_parts_from(w, "opponentctrl"@, 0);
    reveal_strlit("youown");
    lemma_parts_from(w, "youown"@, 0);
    reveal_strlit("oppown");
    lemma_parts_from(w, "oppown"@, 0);
    reveal_strlit("opponentown");
    lemma_parts_from(w, "opponentown"@, 0);
    reveal_strlit("youdontctrl");
    lemma_parts_from(w, "youdontctrl"@, 0);
    reveal_strlit("youdontown");
    lemma_parts_from(w, "youdontown"@, 0);
    reveal_strlit("tapped");
    lemma_parts_from(w, "tapped"@, 0);
}

proof fn lemma_owner_word_17(text: Seq<char>)
    ensures
        lowered(text) == "startedtheturntapped"@ ==> owner_word(lowered(text)) == Some(SelectorPredicate::StartedTurnTapped(true)),
{
    let w = "startedtheturntapped"@;
    reveal_strlit("startedtheturntapped");
    reveal_strlit("self");
    lemma_parts_from(w, "self"@, 1);
    reveal_strlit("strictlyself");
    lemma_parts_from(w, "strictlyself"@, 2);
    reveal_strlit("other");
    lemma_parts_from(w, "other"@, 0);
    reveal_strlit("strictlyother");
    lemma_parts_from(w, "strictlyother"@, 2);
    reveal_strlit("you");
    lemma_parts_from(w, "you"@, 0);
    reveal_strlit("youctrl");
    lemma_parts_from(w, "youctrl"@, 0);
    reveal_strlit("youcontrol");
    lemma_parts_from(w, "youcontrol"@, 0);
    reveal_strlit("opponent");
    lemma_parts_from(w, "opponent"@, 0);
    reveal_strlit("oppctrl");
    lemma_parts_from(w, "oppctrl"@, 0);
    reveal_strlit("opponentctrl");
    lemma_parts_from(w, "opponentctrl"@, 0);
    reveal_strlit("youown");
    lemma_parts_from(w, "youown"@, 0);
    reveal_strlit("oppown");
    lemma_parts_from(w, "oppown"@, 0);
    reveal_strlit("opponentown");
    lemma_parts_from(w, "opponentown"@, 0);
    reveal_strlit("youdontctrl");
    lemma_parts_from(w, "youdontctrl"@, 0);
    reveal_strlit("youdontown");
    lemma_parts_from(w, "youdontown"@, 0);
    reveal_strlit("tapped");
    lemma_parts_from(w, "tapped"@, 0);
    reveal_strlit("untapped");
    lemma_parts_from(w, "untapped"@, 0);
}

proof fn lemma_owner_word_18(text: Seq<char>)
    ensures
        lowered(text) == "startedtheturnuntapped"@ ==> owner_word(lowered(text)) == Some(SelectorPredicate::StartedTurnTapped(false)),
{
    let w = "startedtheturnuntapped"@;
    reveal_strlit("startedtheturnuntapped");
    reveal_strlit("self");
    lemma_parts_from(w, "self"@, 1);
    reveal_strlit("strictlyself");
    lemma_parts_from(w, "strictlyself"@, 2);
    reveal_strlit("other");
    lemma_parts_from(w, "other"@, 0);
    reveal_strlit("strictlyother");
    lemma_parts_from(w, "strictlyother"@, 2);
    reveal_strlit("you");
    lemma_parts_from(w, "you"@, 0);
    reveal_strlit("youctrl");
    lemma_parts_from(w, "youctrl"@, 0);
    reveal_strlit("youcontrol");
    lemma_parts_from(w, "youcontrol"@, 0);
    reveal_strlit("opponent");
    lemma_parts_from(w, "opponent"@, 0);
    reveal_strlit("oppctrl");
    lemma_parts_from(w, "oppctrl"@, 0);
    reveal_strlit("opponentctrl");
    lemma_parts_from(w, "opponentctrl"@, 0);
    reveal_strlit("youown");
    lemma_parts_from(w, "youown"@, 0);
    reveal_strlit("oppown");
    lemma_parts_from(w, "oppown"@, 0);
    reveal_strlit("opponentown");
    lemma_parts_from(w, "opponentown"@, 0);
    reveal_strlit("youdontctrl");
    lemma_parts_from(w, "youdontctrl"@, 0);
    reveal_strlit("youdontown");
    lemma_parts_from(w, "youdontown"@, 0);
    reveal_strlit("tapped");
    lemma_parts_from(w, "tapped"@, 0);
    reveal_strlit("untapped");
    lemma_parts_from(w, "untapped"@, 0);
    reveal_strlit("startedtheturntapped");
    lemma_parts_from(w, "startedtheturntapped"@, 14);
}

proof fn lemma_owner_word_19(text: Seq<char>)
    ensures
        lowered(text) == "cameundercontrolsincelastupkeep"@ ==> owner_word(lowered(text)) == Some(SelectorPredicate::CameUnderControlSinceLastUpkeep),
{
    let w = "cameundercontrolsincelastupkeep"@;
    reveal_strlit("cameundercontrolsincelastupkeep");
    reveal_strlit("self");
    lemma_parts_from(w, "self"@, 0);
    reveal_strlit("strictlyself");
    lemma_parts_from(w, "strictlyself"@, 0);
    reveal_strlit("other");
    lemma_parts_from(w, "other"@, 0);
    reveal_strlit("strictlyother");
    lemma_parts_from(w, "strictlyother"@, 0);
    reveal_strlit("you");
    lemma_parts_from(w, "you"@, 0);
    reveal_strlit("youctrl");
    lemma_parts_from(w, "youctrl"@, 0);
    reveal_strlit("youcontrol");
    lemma_parts_from(w, "youcontrol"@, 0);
    reveal_strlit("opponent");
    lemma_parts_from(w, "opponent"@, 0);
    reveal_strlit("oppctrl");
    lemma_parts_from(w, "oppctrl"@, 0);
    reveal_strlit("opponentctrl");
    lemma_parts_from(w, "opponentctrl"@, 0);
    reveal_strlit("youown");
    lemma_parts_from(w, "youown"@, 0);
    reveal_strlit("oppown");
    lemma_parts_from(w, "oppown"@, 0);
    reveal_strlit("opponentown");
    lemma_parts_from(w, "opponentown"@, 0);
    reveal_strlit("youdontctrl");
    lemma_parts_from(w, "youdontctrl"@, 0);
    reveal_strlit("youdontown");
    lemma_parts_from(w, "youdontown"@, 0);
    reveal_strlit("tapped");
    lemma_parts_from(w, "tapped"@, 0);
    reveal_strlit("untapped");
    lemma_parts_from(w, "untapped"@, 0);
    reveal_strlit("startedtheturntapped");
    lemma_parts_from(w, "startedtheturntapped"@, 0);
    reveal_strlit("startedtheturnuntapped");
    lemma_parts_from(w, "startedtheturnuntapped"@, 0);
}

proof fn lemma_owner_word_20(text: Seq<char>)
    ensures
        lowered(text) == "inzonebattlefield"@ ==> owner_word(lowered(text)) == Some(SelectorPredicate::Zone(ZoneType::Battlefield)),
{
    let w = "inzonebattlefield"@;
    reveal_strlit("inzonebattlefield");
    reveal_strlit("self");
    lemma_parts_from(w, "self"@, 0);
    reveal_strlit("strictlyself");
    lemma_parts_from(w, "strictlyself"@, 0);
    reveal_strlit("other");
    lemma_parts_from(w, "other"@, 0);
    reveal_strlit("strictlyother");
    lemma_parts_from(w, "strictlyother"@, 0);
    reveal_strlit("you");
    lemma_parts_from(w, "you"@, 0);
    reveal_strlit("youctrl");
    lemma_parts_from(w, "youctrl"@, 0);
    reveal_strlit("youcontrol");
    lemma_parts_from(w, "youcontrol"@, 0);
    reveal_strlit("opponent");
    lemma_parts_from(w, "opponent"@, 0);
    reveal_strlit("oppctrl");
    lemma_parts_from(w, "oppctrl"@, 0);
    reveal_strlit("opponentctrl");
    lemma_parts_from(w, "opponentctrl"@, 0);
    reveal_strlit("youown");
    lemma_parts_from(w, "youown"@, 0);
    reveal_strlit("oppown");
    lemma_parts_from(w, "oppown"@, 0);
    reveal_strlit("opponentown");
    lemma_parts_from(w, "opponentown"@, 0);
    reveal_strlit("youdontctrl");
    lemma_parts_from(w, "youdontctrl"@, 0);
    reveal_strlit("youdontown");
    lemma_parts_from(w, "youdontown"@, 0);
    reveal_strlit("tapped");
    lemma_parts_from(w, "tapped"@, 0);
    reveal_strlit("untapped");
    lemma_parts_from(w, "untapped"@, 0);
    reveal_strlit("startedtheturntapped");
    lemma_parts_from(w, "startedtheturntapped"@, 0);
    reveal_strlit("startedtheturnuntapped");
    lemma_parts_from(w, "startedtheturnuntapped"@, 0);
    reveal_strlit("cameundercontrolsincelastupkeep");
    lemma_parts_from(w, "cameundercontrolsincelastupkeep"@, 0);
}

proof fn lemma_owner_word_21(text: Seq<char>)
    ensures
        lowered(text) == "inrealzonebattlefield"@ ==> owner_word(lowered(text)) == Some(SelectorPredicate::Zone(ZoneType::Battlefield)),
{
    let w = "inrealzonebattlefield"@;
    reveal_strlit("inrealzonebattlefield");
    reveal_strlit("self");
    lemma_parts_from(w, "self"@, 0);
    reveal_strlit("strictlyself");
    lemma_parts_from(w, "strictlyself"@, 0);
    reveal_strlit("other");
    lemma_parts_from(w, "other"@, 0);
    reveal_strlit("strictlyother");
    lemma_parts_from(w, "strictlyother"@, 0);
    reveal_strlit("you");
    lemma_parts_from(w, "you"@, 0);
    reveal_strlit("youctrl");
    lemma_parts_from(w, "youctrl"@, 0);
    reveal_strlit("youcontrol");
    lemma_parts_from(w, "youcontrol"@, 0);
    reveal_strlit("opponent");
    lemma_parts_from(w, "opponent"@, 0);
    reveal_strlit("oppctrl");
    lemma_parts_from(w, "oppctrl"@, 0);
    reveal_strlit("opponentctrl");
    lemma_parts_from(w, "opponentctrl"@, 0);
    reveal_strlit("youown");
    lemma_parts_from(w, "youown"@, 0);
    reveal_strlit("oppown");
    lemma_parts_from(w, "oppown"@, 0);
    reveal_strlit("opponentown");
    lemma_parts_from(w, "opponentown"@, 0);
    reveal_strlit("youdontctrl");
    lemma_parts_from(w, "youdontctrl"@, 0);
    reveal_strlit("youdontown");
    lemma_parts_from(w, "youdontown"@, 0);
    reveal_strlit("tapped");
    lemma_parts_from(w, "tapped"@, 0);
    reveal_strlit("untapped");
    lemma_parts_from(w, "untapped"@, 0);
    reveal_strlit("startedtheturntapped");
    lemma_parts_from(w, "startedtheturntapped"@, 0);
    reveal_strlit("startedtheturnuntapped");
    lemma_parts_from(w, "startedtheturnuntapped"@, 0);
    reveal_strlit("cameundercontrolsincelastupkeep");
    lemma_parts_from(w, "cameundercontrolsincelastupkeep"@, 0);
}

proof fn lemma_owner_word_22(text: Seq<char>)
    ensures
        lowered(text) == "inzonegraveyard"@ ==> owner_word(lowered(text)) == Some(SelectorPredicate::Zone(ZoneType::Graveyard)),
{
    let w = "inzonegraveyard"@;
    reveal_strlit("inzonegraveyard");
    reveal_strlit("self");
    lemma_parts_from(w, "self"@, 0);
    reveal_strlit("strictlyself");
    lemma_parts_from(w, "strictlyself"@, 0);
    reveal_strlit("other");
    lemma_parts_from(w, "other"@, 0);
    reveal_strlit("strictlyother");
    lemma_parts_from(w, "strictlyother"@, 0);
    reveal_strlit("you");
    lemma_parts_from(w, "you"@, 0);
    reveal_strlit("youctrl");
    lemma_parts_from(w, "youctrl"@, 0);
    reveal_strlit("youcontrol");
    lemma_parts_from(w, "youcontrol"@, 0);
    reveal_strlit("opponent");
    lemma_parts_from(w, "opponent"@, 0);
    reveal_strlit("oppctrl");
    lemma_parts_from(w, "oppctrl"@, 0);
    reveal_strlit("opponentctrl");
    lemma_parts_from(w, "opponentctrl"@, 0);
    reveal_strlit("youown");
    lemma_parts_from(w, "youown"@, 0);
    reveal_strlit("oppown");
    lemma_parts_from(w, "oppown"@, 0);
    reveal_strlit("opponentown");
    lemma_parts_from(w, "opponentown"@, 0);
    reveal_strlit("youdontctrl");
    lemma_parts_from(w, "youdontctrl"@, 0);
    reveal_strlit("youdontown");
    lemma_parts_from(w, "youdontown"@, 0);
    reveal_strlit("tapped");
    lemma_parts_from(w, "tapped"@, 0);
    reveal_strlit("untapped");
    lemma_parts_from(w, "untapped"@, 0);
    reveal_strlit("startedtheturntapped");
    lemma_parts_from(w, "startedtheturntapped"@, 0);
    reveal_strlit("startedtheturnuntapped");
    lemma_parts_from(w, "startedtheturnuntapped"@, 0);
    reveal_strlit("cameundercontrolsincelastupkeep");
    lemma_parts_from(w, "cameundercontrolsincelastupkeep"@, 0);
    reveal_strlit("inzonebattlefield");
    lemma_parts_from(w, "inzonebattlefield"@, 6);
    reveal_strlit("inrealzonebattlefield");
    lemma_parts_from(w, "inrealzonebattlefield"@, 2);
}

proof fn lemma_owner_word_23(text: Seq<char>)
    ensures
        lowered(text) == "inrealzonegraveyard"@ ==> owner_word(lowered(text)) == Some(SelectorPredicate::Zone(ZoneType::Graveyard)),
{
    let w = "inrealzonegraveyard"@;
    reveal_strlit("inrealzonegraveyard");
    reveal_strlit("self");
    lemma_parts_from(w, "self"@, 0);
    reveal_strlit("strictlyself");
    lemma_parts_from(w, "strictlyself"@, 0);
    reveal_strlit("other");
    lemma_parts_from(w, "other"@, 0);
    reveal_strlit("strictlyother");
    lemma_parts_from(w, "strictlyother"@, 0);
    reveal_strlit("you");
    lemma_parts_from(w, "you"@, 0);
    reveal_strlit("youctrl");
    lemma_parts_from(w, "youctrl"@, 0);
    reveal_strlit("youcontrol");
    lemma_parts_from(w, "youcontrol"@, 0);
    reveal_strlit("opponent");
    lemma_parts_from(w, "opponent"@, 0);
    reveal_strlit("oppctrl");
    lemma_parts_from(w, "oppctrl"@, 0);
    reveal_strlit("opponentctrl");
    lemma_parts_from(w, "opponentctrl"@, 0);
    reveal_strlit("youown");
    lemma_parts_from(w, "youown"@, 0);
    reveal_strlit("oppown");
    lemma_parts_from(w, "oppown"@, 0);
    reveal_strlit("opponentown");
    lemma_parts_from(w, "opponentown"@, 0);
    reveal_strlit("youdontctrl");
    lemma_parts_from(w, "youdontctrl"@, 0);
    reveal_strlit("youdontown");
    lemma_parts_from(w, "youdontown"@, 0);
    reveal_strlit("tapped");
    lemma_parts_from(w, "tapped"@, 0);
    reveal_strlit("untapped");
    lemma_parts_from(w, "untapped"@, 0);
    reveal_strlit("startedtheturntapped");
    lemma_parts_from(w, "startedtheturntapped"@, 0);
    reveal_strlit("startedtheturnuntapped");
    lemma_parts_from(w, "startedtheturnuntapped"@, 0);
    reveal_strlit("cameundercontrolsincelastupkeep");
    lemma_parts_from(w, "cameundercontrolsincelastupkeep"@, 0);
    reveal_strlit("inzonebattlefield");
    lemma_parts_from(w, "inzonebattlefield"@, 2);
    reveal_strlit("inrealzonebattlefield");
    lemma_parts_from(w, "inrealzonebattlefield"@, 10);
}

proof fn lemma_owner_word_24(text: Seq<char>)
    ensures
        lowered(text) == "inzonehand"@ ==> owner_word(lowered(text)) == Some(SelectorPredicate::Zone(ZoneType::Hand)),
{
    let w = "inzonehand"@;
    reveal_strlit("inzonehand");
    reveal_strlit("self");
    lemma_parts_from(w, "self"@, 0);
    reveal_strlit("strictlyself");
    lemma_parts_from(w, "strictlyself"@, 0);
    reveal_strlit("other");
    lemma_parts_from(w, "other"@, 0);
    reveal_strlit("strictlyother");
    lemma_parts_from(w, "strictlyother"@, 0);
    reveal_strlit("you");
    lemma_parts_from(w, "you"@, 0);
    reveal_strlit("youctrl");
    lemma_parts_from(w, "youctrl"@, 0);
    reveal_strlit("youcontrol");
    lemma_parts_from(w, "youcontrol"@, 0);
    reveal_strlit("opponent");
    lemma_parts_from(w, "opponent"@, 0);
    reveal_strlit("oppctrl");
    lemma_parts_from(w, "oppctrl"@, 0);
    reveal_strlit("opponentctrl");
    lemma_parts_from(w, "opponentctrl"@, 0);
    reveal_strlit("youown");
    lemma_parts_from(w, "youown"@, 0);
    reveal_strlit("oppown");
    lemma_parts_from(w, "oppown"@, 0);
    reveal_strlit("opponentown");
    lemma_parts_from(w, "opponentown"@, 0);
    reveal_strlit("youdontctrl");
    lemma_parts_from(w, "youdontctrl"@, 0);
    reveal_strlit("youdontown");
    lemma_parts_from(w, "youdontown"@, 0);
    reveal_strlit("tapped");
    lemma_parts_from(w, "tapped"@, 0);
    reveal_strlit("untapped");
    lemma_parts_from(w, "untapped"@, 0);
    reveal_strlit("startedtheturntapped");
    lemma_parts_from(w, "startedtheturntapped"@, 0);
    reveal_strlit("startedtheturnuntapped");
    lemma_parts_from(w, "startedtheturnuntapped"@, 0);
    reveal_strlit("cameundercontrolsincelastupkeep");
    lemma_parts_from(w, "cameundercontrolsincelastupkeep"@, 0);
    reveal_strlit("inzonebattlefield");
    lemma_parts_from(w, "inzonebattlefield"@, 6);
    reveal_strlit("inrealzonebattlefield");
    lemma_parts_from(w, "inrealzonebattlefield"@, 2);
    reveal_strlit("inzonegraveyard");
    lemma_parts_from(w, "inzonegraveyard"@, 6);
    reveal_strlit("inrealzonegraveyard");
    lemma_parts_from(w, "inrealzonegraveyard"@, 2);
}

proof fn lemma_owner_word_25(text: Seq<char>)
    ensures
        lowered(text) == "inrealzonehand"@ ==> owner_word(lowered(text)) == Some(SelectorPredicate::Zone(ZoneType::Hand)),
{
    let w = "inrealzonehand"@;
    reveal_strlit("inrealzonehand");
    reveal_strlit("self");
    lemma_parts_from(w, "self"@, 0);
    reveal_strlit("strictlyself");
    lemma_parts_from(w, "strictlyself"@, 0);
    reveal_strlit("other");
    lemma_parts_from(w, "other"@, 0);
    reveal_strlit("strictlyother");
    lemma_parts_from(w, "strictlyother"@, 0);
    reveal_strlit("you");
    lemma_parts_from(w, "you"@, 0);
    reveal_strlit("youctrl");
    lemma_parts_from(w, "youctrl"@, 0);
    reveal_strlit("youcontrol");
    lemma_parts_from(w, "youcontrol"@, 0);
    reveal_strlit("opponent");
    lemma_parts_from(w, "opponent"@, 0);
    reveal_strlit("oppctrl");
    lemma_parts_from(w, "oppctrl"@, 0);
    reveal_strlit("opponentctrl");
    lemma_parts_from(w, "opponentctrl"@, 0);
    reveal_strlit("youown");
    lemma_parts_from(w, "youown"@, 0);
    reveal_strlit("oppown");
    lemma_parts_from(w, "oppown"@, 0);
    reveal_strlit("opponentown");
    lemma_parts_from(w, "opponentown"@, 0);
    reveal_strlit("youdontctrl");
    lemma_parts_from(w, "youdontctrl"@, 0);
    reveal_strlit("youdontown");
    lemma_parts_from(w, "youdontown"@, 0);
    reveal_strlit("tapped");
    lemma_parts_from(w, "tapped"@, 0);
    reveal_strlit("untapped");
    lemma_parts_from(w, "untapped"@, 0);
    reveal_strlit("startedtheturntapped");
    lemma_parts_from(w, "startedtheturntapped"@, 0);
    reveal_strlit("startedtheturnuntapped");
    lemma_parts_from(w, "startedtheturnuntapped"@, 0);
    reveal_strlit("cameundercontrolsincelastupkeep");
    lemma_parts_from(w, "cameundercontrolsincelastupkeep"@, 0);
    reveal_strlit("inzonebattlefield");
    lemma_parts_from(w, "inzonebattlefield"@, 2);
    reveal_strlit("inrealzonebattlefield");
    lemma_parts_from(w, "inrealzonebattlefield"@, 10);
    reveal_strlit("inzonegraveyard");
    lemma_parts_from(w, "inzonegraveyard"@, 2);
    reveal_strlit("inrealzonegraveyard");
    lemma_parts_from(w, "inrealzonegraveyard"@, 10);
}

proof fn lemma_owner_word_26(text: Seq<char>)
    ensures
        lowered(text) == "inzoneexile"@ ==> owner_word(lowered(text)) == Some(SelectorPredicate::Zone(ZoneType::Exile)),
{
    let w = "inzoneexile"@;
    reveal_strlit("inzoneexile");
    reveal_strlit("self");
    lemma_parts_from(w, "self"@, 0);
    reveal_strlit("strictlyself");
    lemma_parts_from(w, "strictlyself"@, 0);
    reveal_strlit("other");
    lemma_parts_from(w, "other"@, 0);
    reveal_strlit("strictlyother");
    lemma_parts_from(w, "strictlyother"@, 0);
    reveal_strlit("you");
    lemma_parts_from(w, "you"@, 0);
    reveal_strlit("youctrl");
    lemma_parts_from(w, "youctrl"@, 0);
    reveal_strlit("youcontrol");
    lemma_parts_from(w, "youcontrol"@, 0);
    reveal_strlit("opponent");
    lemma_parts_from(w, "opponent"@, 0);
    reveal_strlit("oppctrl");
    lemma_parts_from(w, "oppctrl"@, 0);
    reveal_strlit("opponentctrl");
    lemma_parts_from(w, "opponentctrl"@, 0);
    reveal_strlit("youown");
    lemma_parts_from(w, "youown"@, 0);
    reveal_strlit("oppown");
    lemma_parts_from(w, "oppown"@, 0);
    reveal_strlit("opponentown");
    lemma_parts_from(w, "opponentown"@, 0);
    reveal_strlit("youdontctrl");
    lemma_parts_from(w, "youdontctrl"@, 0);
    reveal_strlit("youdontown");
    lemma_parts_from(w, "youdontown"@, 0);
    reveal_strlit("tapped");
    lemma_parts_from(w, "tapped"@, 0);
    reveal_strlit("untapped");
    lemma_parts_from(w, "untapped"@, 0);
    reveal_strlit("startedtheturntapped");
    lemma_parts_from(w, "startedtheturntapped"@, 0);
    reveal_strlit("startedtheturnuntapped");
    lemma_parts_from(w, "startedtheturnuntapped"@, 0);
    reveal_strlit("cameundercontrolsincelastupkeep");
    lemma_parts_from(w, "cameundercontrolsincelastupkeep"@, 0);
    reveal_strlit("inzonebattlefield");
    lemma_parts_from(w, "inzonebattlefield"@, 6);
    reveal_strlit("inrealzonebattlefield");
    lemma_parts_from(w, "inrealzonebattlefield"@, 2);
    reveal_strlit("inzonegraveyard");
    lemma_parts_from(w, "inzonegraveyard"@, 6);
    reveal_strlit("inrealzonegraveyard");
    lemma_parts_from(w, "inrealzonegraveyard"@, 2);
    reveal_strlit("inzonehand");
    lemma_parts_from(w, "inzonehand"@, 6);
    reveal_strlit("inrealzonehand");
    lemma_parts_from(w, "inrealzonehand"@, 2);
}

proof fn lemma_owner_word_27(text: Seq<char>)
    ensures
        lowered(text) == "inrealzoneexile"@ ==> owner_word(lowered(text)) == Some(SelectorPredicate::Zone(ZoneType::Exile)),
{
    let w = "inrealzoneexile"@;
    reveal_strlit("inrealzoneexile");
    reveal_strlit("self");
    lemma_parts_from(w, "self"@, 0);
    reveal_strlit("strictlyself");
    lemma_parts_from(w, "strictlyself"@, 0);
    reveal_strlit("other");
    lemma_parts_from(w, "other"@, 0);
    reveal_strlit("strictlyother");
    lemma_parts_from(w, "strictlyother"@, 0);
    reveal_strlit("you");
    lemma_parts_from(w, "you"@, 0);
    reveal_strlit("youctrl");
    lemma_parts_from(w, "youctrl"@, 0);
    reveal_strlit("youcontrol");
    lemma_parts_from(w, "youcontrol"@, 0);
    reveal_strlit("opponent");
    lemma_parts_from(w, "opponent"@, 0);
    reveal_strlit("oppctrl");
    lemma_parts_from(w, "oppctrl"@, 0);
    reveal_strlit("opponentctrl");
    lemma_parts_from(w, "opponentctrl"@, 0);
    reveal_strlit("youown");
    lemma_parts_from(w, "youown"@, 0);
    reveal_strlit("oppown");
    lemma_parts_from(w, "oppown"@, 0);
    reveal_strlit("opponentown");
    lemma_parts_from(w, "opponentown"@, 0);
    reveal_strlit("youdontctrl");
    lemma_parts_from(w, "youdontctrl"@, 0);
    reveal_strlit("youdontown");
    lemma_parts_from(w, "youdontown"@, 0);
    reveal_strlit("tapped");
    lemma_parts_from(w, "tapped"@, 0);
    reveal_strlit("untapped");
    lemma_parts_from(w, "untapped"@, 0);
    reveal_strlit("startedtheturntapped");
    lemma_parts_from(w, "startedtheturntapped"@, 0);
    reveal_strlit("startedtheturnuntapped");
    lemma_parts_from(w, "startedtheturnuntapped"@, 0);
    reveal_strlit("cameundercontrolsincelastupkeep");
    lemma_parts_from(w, "cameundercontrolsincelastupkeep"@, 0);
    reveal_strlit("inzonebattlefield");
    lemma_parts_from(w, "inzonebattlefield"@, 2);
    reveal_strlit("inrealzonebattlefield");
    lemma_parts_from(w, "inrealzonebattlefield"@, 10);
    reveal_strlit("inzonegraveyard");
    lemma_parts_from(w, "inzonegraveyard"@, 2);
    reveal_strlit("inrealzonegraveyard");
    lemma_parts_from(w, "inrealzonegraveyard"@, 10);
    reveal_strlit("inzonehand");
    lemma_parts_from(w, "inzonehand"@, 2);
    reveal_strlit("inrealzonehand");
    lemma_parts_from(w, "inrealzonehand"@, 10);
}

proof fn lemma_owner_word_28(text: Seq<char>)
    ensures
        lowered(text) == "inzonestack"@ ==> owner_word(lowered(text)) == Some(SelectorPredicate::Zone(ZoneType::Stack)),
{
    let w = "inzonestack"@;
    reveal_strlit("inzonestack");
    reveal_strlit("self");
    lemma_parts_from(w, "self"@, 0);
    reveal_strlit("strictlyself");
    lemma_parts_from(w, "strictlyself"@, 0);
    reveal_strlit("other");
    lemma_parts_from(w, "other"@, 0);
    reveal_strlit("strictlyother");
    lemma_parts_from(w, "strictlyother"@, 0);
    reveal_strlit("you");
    lemma_parts_from(w, "you"@, 0);
    reveal_strlit("youctrl");
    lemma_parts_from(w, "youctrl"@, 0);
    reveal_strlit("youcontrol");
    lemma_parts_from(w, "youcontrol"@, 0);
    reveal_strlit("opponent");
    lemma_parts_from(w, "opponent"@, 0);
    reveal_strlit("oppctrl");
    lemma_parts_from(w, "oppctrl"@, 0);
    reveal_strlit("opponentctrl");
    lemma_parts_from(w, "opponentctrl"@, 0);
    reveal_strlit("youown");
    lemma_parts_from(w, "youown"@, 0);
    reveal_strlit("oppown");
    lemma_parts_from(w, "oppown"@, 0);
    reveal_strlit("opponentown");
    lemma_parts_from(w, "opponentown"@, 0);
    reveal_strlit("youdontctrl");
    lemma_parts_from(w, "youdontctrl"@, 0);
    reveal_strlit("youdontown");
    lemma_parts_from(w, "youdontown"@, 0);
    reveal_strlit("tapped");
    lemma_parts_from(w, "tapped"@, 0);
    reveal_strlit("untapped");
    lemma_parts_from(w, "untapped"@, 0);
    reveal_strlit("startedtheturntapped");
    lemma_parts_from(w, "startedtheturntapped"@, 0);
    reveal_strlit("startedtheturnuntapped");
    lemma_parts_from(w, "startedtheturnuntapped"@, 0);
    reveal_strlit("cameundercontrolsincelastupkeep");
    lemma_parts_from(w, "cameundercontrolsincelastupkeep"@, 0);
    reveal_strlit("inzonebattlefield");
    lemma_parts_from(w, "inzonebattlefield"@, 6);
    reveal_strlit("inrealzonebattlefield");
    lemma_parts_from(w, "inrealzonebattlefield"@, 2);
    reveal_strlit("inzonegraveyard");
    lemma_parts_from(w, "inzonegraveyard"@, 6);
    reveal_strlit("inrealzonegraveyard");
    lemma_parts_from(w, "inrealzonegraveyard"@, 2);
    reveal_strlit("inzonehand");
    lemma_parts_from(w, "inzonehand"@, 6);
    reveal_strlit("inrealzonehand");
    lemma_parts_from(w, "inrealzonehand"@, 2);
    reveal_strlit("inzoneexile");
    lemma_parts_from(w, "inzoneexile"@, 6);
    reveal_strlit("inrealzoneexile");
    lemma_parts_from(w, "inrealzoneexile"@, 2);
}

proof fn lemma_owner_word_29(text: Seq<char>)
    ensures
        lowered(text) == "inrealzonestack"@ ==> owner_word(lowered(text)) == Some(SelectorPredicate::Zone(ZoneType::Stack)),
{
    let w = "inrealzonestack"@;
    reveal_strlit("inrealzonestack");
    reveal_strlit("self");
    lemma_parts_from(w, "self"@, 0);
    reveal_strlit("strictlyself");
    lemma_parts_from(w, "strictlyself"@, 0);
    reveal_strlit("other");
    lemma_parts_from(w, "other"@, 0);
    reveal_strlit("strictlyother");
    lemma_parts_from(w, "strictlyother"@, 0);
    reveal_strlit("you");
    lemma_parts_from(w, "you"@, 0);
    reveal_strlit("youctrl");
    lemma_parts_from(w, "youctrl"@, 0);
    reveal_strlit("youcontrol");
    lemma_parts_from(w, "youcontrol"@, 0);
    reveal_strlit("opponent");
    lemma_parts_from(w, "opponent"@, 0);
    reveal_strlit("oppctrl");
    lemma_parts_from(w, "oppctrl"@, 0);
    reveal_strlit("opponentctrl");
    lemma_parts_from(w, "opponentctrl"@, 0);
    reveal_strlit("youown");
    lemma_parts_from(w, "youown"@, 0);
    reveal_strlit("oppown");
    lemma_parts_from(w, "oppown"@, 0);
    reveal_strlit("opponentown");
    lemma_parts_from(w, "opponentown"@, 0);
    reveal_strlit("youdontctrl");
    lemma_parts_from(w, "youdontctrl"@, 0);
    reveal_strlit("youdontown");
    lemma_parts_from(w, "youdontown"@, 0);
    reveal_strlit("tapped");
    lemma_parts_from(w, "tapped"@, 0);
    reveal_strlit("untapped");
    lemma_parts_from(w, "untapped"@, 0);
    reveal_strlit("startedtheturntapped");
    lemma_parts_from(w, "startedtheturntapped"@, 0);
    reveal_strlit("startedtheturnuntapped");
    lemma_parts_from(w, "startedtheturnuntapped"@, 0);
    reveal_strlit("cameundercontrolsincelastupkeep");
    lemma_parts_from(w, "cameundercontrolsincelastupkeep"@, 0);
    reveal_strlit("inzonebattlefield");
    lemma_parts_from(w, "inzonebattlefield"@, 2);
    reveal_strlit("inrealzonebattlefield");
    lemma_parts_from(w, "inrealzonebattlefield"@, 10);
    reveal_strlit("inzonegraveyard");
    lemma_parts_from(w, "inzonegraveyard"@, 2);
    reveal_strlit("inrealzonegraveyard");
    lemma_parts_from(w, "inrealzonegraveyard"@, 10);
    reveal_strlit("inzonehand");
    lemma_parts_from(w, "inzonehand"@, 2);
    reveal_strlit("inrealzonehand");
    lemma_parts_from(w, "inrealzonehand"@, 10);
    reveal_strlit("inzoneexile");
    lemma_parts_from(w, "inzoneexile"@, 2);
    reveal_strlit("inrealzoneexile");
    lemma_parts_from(w, "inrealzoneexile"@, 10);
}

/// Words that can stand behind a `non`.
pub proof fn law_words_behind_non(text: Seq<char>)
    ensures
        lowered(text) == "white"@ ==> negated_word(lowered(text)) == Some(SelectorPredicate::Color(CardColorSelector::White)),
        lowered(text) == "blue"@ ==> negated_word(lowered(text)) == Some(SelectorPredicate::Color(CardColorSelector::Blue)),
        lowered(text) == "black"@ ==> negated_word(lowered(text)) == Some(SelectorPredicate::Color(CardColorSelector::Black)),
        lowered(text) == "red"@ ==> negated_word(lowered(text)) == Some(SelectorPredicate::Color(CardColorSelector::Red)),
        lowered(text) == "green"@ ==> negated_word(lowered(text)) == Some(SelectorPredicate::Color(CardColorSelector::Green)),
        lowered(text) == "colorless"@ ==> negated_word(lowered(text)) == Some(SelectorPredicate::Colorless),
        lowered(text) == "creature"@ ==> negated_word(lowered(text)) == Some(SelectorPredicate::CardType(CardSelectorType::Creature)),
        lowered(text) == "land"@ ==> negated_word(lowered(text)) == Some(SelectorPredicate::CardType(CardSelectorType::Land)),
        lowered(text) == "artifact"@ ==> negated_word(lowered(text)) == Some(SelectorPredicate::CardType(CardSelectorType::Artifact)),
        lowered(text) == "enchantment"@ ==> negated_word(lowered(text)) == Some(SelectorPredicate::CardType(CardSelectorType::Enchantment)),
        lowered(text) == "legendary"@ ==> negated_word(lowered(text)) == Some(SelectorPredicate::Legendary),
        lowered(text) == "basic"@ ==> negated_word(lowered(text)) == Some(SelectorPredicate::CardSupertype(CardSupertypeSelector::Basic)),
        lowered(text) == "snow"@ ==> negated_word(lowered(text)) == Some(SelectorPredicate::CardSupertype(CardSupertypeSelector::Snow)),
        lowered(text) == "token"@ ==> negated_word(lowered(text)) == Some(SelectorPredicate::Token(true)),
        lowered(text) == "chosencard"@ ==> negated_word(lowered(text)) == Some(SelectorPredicate::CardState(CardStateSelector::ChosenCard)),
{
    lemma_negated_word_0(text);
    lemma_negated_word_1(text);
    lemma_negated_word_2(text);
    lemma_negated_word_3(text);
    lemma_negated_word_4(text);
    lemma_negated_word_5(text);
    lemma_negated_word_6(text);
    lemma_negated_word_7(text);
    lemma_negated_word_8(text);
    lemma_negated_word_9(text);
    lemma_negated_word_10(text);
    lemma_negated_word_11(text);
    lemma_negated_word_12(text);
    lemma_negated_word_13(text);
    lemma_negated_word_14(text);
}

proof fn lemma_negated_word_0(text: Seq<char>)
    ensures
        lowered(text) == "white"@ ==> negated_word(lowered(text)) == Some(SelectorPredicate::Color(CardColorSelector::White)),
{
    let w = "white"@;
    reveal_strlit("white");
}

proof fn lemma_negated_word_1(text: Seq<char>)
    ensures
        lowered(text) == "blue"@ ==> negated_word(lowered(text)) == Some(SelectorPredicate::Color(CardColorSelector::Blue)),
{
    let w = "blue"@;
    reveal_strlit("blue");
    reveal_strlit("white");
    lemma_parts_from(w, "white"@, 0);
}

proof fn lemma_negated_word_2(text: Seq<char>)
    ensures
        lowered(text) == "black"@ ==> negated_word(lowered(text)) == Some(SelectorPredicate::Color(CardColorSelector::Black)),
{
    let w = "black"@;
    reveal_strlit("black");
    reveal_strlit("white");
    lemma_parts_from(w, "white"@, 0);
    reveal_strlit("blue");
    lemma_parts_from(w, "blue"@, 2);
}

proof fn lemma_negated_word_3(text: Seq<char>)
    ensures
        lowered(text) == "red"@ ==> negated_word(lowered(text)) == Some(SelectorPredicate::Color(CardColorSelector::Red)),
{
    let w = "red"@;
    reveal_strlit("red");
    reveal_strlit("white");
    lemma_parts_from(w, "white"@, 0);
    reveal_strlit("blue");
    lemma_parts_from(w, "blue"@, 0);
    reveal_strlit("black");
    lemma_parts_from(w, "black"@, 0);
}

proof fn lemma_negated_word_4(text: Seq<char>)
    ensures
        lowered(text) == "green"@ ==> negated_word(lowered(text)) == Some(SelectorPredicate::Color(CardColorSelector::Green)),
{
    let w = "green"@;
    reveal_strlit("green");
    reveal_strlit("white");
    lemma_parts_from(w, "white"@, 0);
    reveal_strlit("blue");
    lemma_parts_from(w, "blue"@, 0);
    reveal_strlit("black");
    lemma_parts_from(w, "black"@, 0);
    reveal_strlit("red");
    lemma_parts_from(w, "red"@, 0);
}

proof fn lemma_negated_word_5(text: Seq<char>)
    ensures
        lowered(text) == "colorless"@ ==> negated_word(lowered(text)) == Some(SelectorPredicate::Colorless),
{
    let w = "colorless"@;
    reveal_strlit("colorless");
    reveal_strlit("white");
    lemma_parts_from(w, "white"@, 0);
    reveal_strlit("blue");
    lemma_parts_from(w, "blue"@, 0);
    reveal_strlit("black");
    lemma_parts_from(w, "black"@, 0);
    reveal_strlit("red");
    lemma_parts_from(w, "red"@, 0);
    reveal_strlit("green");
    lemma_parts_from(w, "green"@, 0);
}

proof fn lemma_negated_word_6(text: Seq<char>)
    ensures
        lowered(text) == "creature"@ ==> negated_word(lowered(text)) == Some(SelectorPredicate::CardType(CardSelectorType::Creature)),
{
    let w = "creature"@;
    reveal_strlit("creature");
    reveal_strlit("white");
    lemma_parts_from(w, "white"@, 0);
    reveal_strlit("blue");
    lemma_parts_from(w, "blue"@, 0);
    reveal_strlit("black");
    lemma_parts_from(w, "black"@, 0);
    reveal_strlit("red");
    lemma_parts_from(w, "red"@, 0);
    reveal_strlit("green");
    lemma_parts_from(w, "green"@, 0);
    reveal_strlit("colorless");
    lemma_parts_from(w, "colorless"@, 1);
}

proof fn lemma_negated_word_7(text: Seq<char>)
    ensures
        lowered(text) == "land"@ ==> negated_word(lowered(text)) == Some(SelectorPredicate::CardType(CardSelectorType::Land)),
{
    let w = "land"@;
    reveal_strlit("land");
    reveal_strlit("white");
    lemma_parts_from(w, "white"@, 0);
    reveal_strlit("blue");
    lemma_parts_from(w, "blue"@, 0);
    reveal_strlit("black");
    lemma_parts_from(w, "black"@, 0);
    reveal_strlit("red");
    lemma_parts_from(w, "red"@, 0);
    reveal_strlit("green");
    lemma_parts_from(w, "green"@, 0);
    reveal_strlit("colorless");
    lemma_parts_from(w, "colorless"@, 0);
    reveal_strlit("creature");
    lemma_parts_from(w, "creature"@, 0);
}

proof fn lemma_negated_word_8(text: Seq<char>)
    ensures
        lowered(text) == "artifact"@ ==> negated_word(lowered(text)) == Some(SelectorPredicate::CardType(CardSelectorType::Artifact)),
{
    let w = "artifact"@;
    reveal_strlit("artifact");
    reveal_strlit("white");
    lemma_parts_from(w, "white"@, 0);
    reveal_strlit("blue");
    lemma_parts_from(w, "blue"@, 0);
    reveal_strlit("black");
    lemma_parts_from(w, "black"@, 0);
    reveal_strlit("red");
    lemma_parts_from(w, "red"@, 0);
    reveal_strlit("green");
    lemma_parts_from(w, "green"@, 0);
    reveal_strlit("colorless");
    lemma_parts_from(w, "colorless"@, 0);
    reveal_strlit("creature");
    lemma_parts_from(w, "creature"@, 0);
    reveal_strlit("land");
    lemma_parts_from(w, "land"@, 0);
}

proof fn lemma_negated_word_9(text: Seq<char>)
    ensures
        lowered(text) == "enchantment"@ ==> negated_word(lowered(text)) == Some(SelectorPredicate::CardType(CardSelectorType::Enchantment)),
{
    let w = "enchantment"@;
    reveal_strlit("enchantment");
    reveal_strlit("white");
    lemma_parts_from(w, "white"@, 0);
    reveal_strlit("blue");
    lemma_parts_from(w, "blue"@, 0);
    reveal_strlit("black");
    lemma_parts_from(w, "black"@, 0);
    reveal_strlit("red");
    lemma_parts_from(w, "red"@, 0);
    reveal_strlit("green");
    lemma_parts_from(w, "green"@, 0);
    reveal_strlit("colorless");
    lemma_parts_from(w, "colorless"@, 0);
    reveal_strlit("creature");
    lemma_parts_from(w, "creature"@, 0);
    reveal_strlit("land");
    lemma_parts_from(w, "land"@, 0);
    reveal_strlit("artifact");
    lemma_parts_from(w, "artifact"@, 0);
}

proof fn lemma_negated_word_10(text: Seq<char>)
    ensures
        lowered(text) == "legendary"@ ==> negated_word(lowered(text)) == Some(SelectorPredicate::Legendary),
{
    let w = "legendary"@;
    reveal_strlit("legendary");
    reveal_strlit("white");
    lemma_parts_from(w, "white"@, 0);
    reveal_strlit("blue");
    lemma_parts_from(w, "blue"@, 0);
    reveal_strlit("black");
    lemma_parts_from(w, "black"@, 0);
    reveal_strlit("red");
    lemma_parts_from(w, "red"@, 0);
    reveal_strlit("green");
    lemma_parts_from(w, "green"@, 0);
    reveal_strlit("colorless");
    lemma_parts_from(w, "colorless"@, 0);
    reveal_strlit("creature");
    lemma_parts_from(w, "creature"@, 0);
    reveal_strlit("land");
    lemma_parts_from(w, "land"@, 1);
    reveal_strlit("artifact");
    lemma_parts_from(w, "artifact"@, 0);
    reveal_strlit("enchantment");
    lemma_parts_from(w, "enchantment"@, 0);
}

proof fn lemma_negated_word_11(text: Seq<char>)
    ensures
        lowered(text) == "basic"@ ==> negated_word(lowered(text)) == Some(SelectorPredicate::CardSupertype(CardSupertypeSelector::Basic)),
{
    let w = "basic"@;
    reveal_strlit("basic");
    reveal_strlit("white");
    lemma_parts_from(w, "white"@, 0);
    reveal_strlit("blue");
    lemma_parts_from(w, "blue"@, 1);
    reveal_strlit("black");
    lemma_parts_from(w, "black"@, 1);
    reveal_strlit("red");
    lemma_parts_from(w, "red"@, 0);
    reveal_strlit("green");
    lemma_parts_from(w, "green"@, 0);
    reveal_strlit("colorless");
    lemma_parts_from(w, "colorless"@, 0);
    reveal_strlit("creature");
    lemma_parts_from(w, "creature"@, 0);
    reveal_strlit("land");
    lemma_parts_from(w, "land"@, 0);
    reveal_strlit("artifact");
    lemma_parts_from(w, "artifact"@, 0);
    reveal_strlit("enchantment");
    lemma_parts_from(w, "enchantment"@, 0);
    reveal_strlit("legendary");
    lemma_parts_from(w, "legendary"@, 0);
}

proof fn lemma_negated_word_12(text: Seq<char>)
    ensures
        lowered(text) == "snow"@ ==> negated_word(lowered(text)) == Some(SelectorPredicate::CardSupertype(CardSupertypeSelector::Snow)),
{
    let w = "snow"@;
    reveal_strlit("snow");
    reveal_strlit("white");
    lemma_parts_from(w, "white"@, 0);
    reveal_strlit("blue");
    lemma_parts_from(w, "blue"@, 0);
    reveal_strlit("black");
    lemma_parts_from(w, "black"@, 0);
    reveal_strlit("red");
    lemma_parts_from(w, "red"@, 0);
    reveal_strlit("green");
    lemma_parts_from(w, "green"@, 0);
    reveal_strlit("colorless");
    lemma_parts_from(w, "colorless"@, 0);
    reveal_strlit("creature");
    lemma_parts_from(w, "creature"@, 0);
    reveal_strlit("land");
    lemma_parts_from(w, "land"@, 0);
    reveal_strlit("artifact");
    lemma_parts_from(w, "artifact"@, 0);
    reveal_strlit("enchantment");
    lemma_parts_from(w, "enchantment"@, 0);
    reveal_strlit("legendary");
    lemma_parts_from(w, "legendary"@, 0);
    reveal_strlit("basic");
    lemma_parts_from(w, "basic"@, 0);
}

proof fn lemma_negated_word_13(text: Seq<char>)
    ensures
        lowered(text) == "token"@ ==> negated_word(lowered(text)) == Some(SelectorPredicate::Token(true)),
{
    let w = "token"@;
    reveal_strlit("token");
    reveal_strlit("white");
    lemma_parts_from(w, "white"@, 0);
    reveal_strlit("blue");
    lemma_parts_from(w, "blue"@, 0);
    reveal_strlit("black");
    lemma_parts_from(w, "black"@, 0);
    reveal_strlit("red");
    lemma_parts_from(w, "red"@, 0);
    reveal_strlit("green");
    lemma_parts_from(w, "green"@, 0);
    reveal_strlit("colorless");
    lemma_parts_from(w, "colorless"@, 0);
    reveal_strlit("creature");
    lemma_parts_from(w, "creature"@, 0);
    reveal_strlit("land");
    lemma_parts_from(w, "land"@, 0);
    reveal_strlit("artifact");
    lemma_parts_from(w, "artifact"@, 0);
    reveal_strlit("enchantment");
    lemma_parts_from(w, "enchantment"@, 0);
    reveal_strlit("legendary");
    lemma_parts_from(w, "legendary"@, 0);
    reveal_strlit("basic");
    lemma_parts_from(w, "basic"@, 0);
    reveal_strlit("snow");
    lemma_parts_from(w, "snow"@, 0);
}

proof fn lemma_negated_word_14(text: Seq<char>)
    ensures
        lowered(text) == "chosencard"@ ==> negated_word(lowered(text)) == Some(SelectorPredicate::CardState(CardStateSelector::ChosenCard)),
{
    let w = "chosencard"@;
    reveal_strlit("chosencard");
    reveal_strlit("white");
    lemma_parts_from(w, "white"@, 0);
    reveal_strlit("blue");
    lemma_parts_from(w, "blue"@, 0);
    reveal_strlit("black");
    lemma_parts_from(w, "black"@, 0);
    reveal_strlit("red");
    lemma_parts_from(w, "red"@, 0);
    reveal_strlit("green");
    lemma_parts_from(w, "green"@, 0);
    reveal_strlit("colorless");
    lemma_parts_from(w, "colorless"@, 1);
    reveal_strlit("creature");
    lemma_parts_from(w, "creature"@, 1);
    reveal_strlit("land");
    lemma_parts_from(w, "land"@, 0);
    reveal_strlit("artifact");
    lemma_parts_from(w, "artifact"@, 0);
    reveal_strlit("enchantment");
    lemma_parts_from(w, "enchantment"@, 0);
    reveal_strlit("legendary");
    lemma_parts_from(w, "legendary"@, 0);
    reveal_strlit("basic");
    lemma_parts_from(w, "basic"@, 0);
    reveal_strlit("snow");
    lemma_parts_from(w, "snow"@, 0);
    reveal_strlit("token");
    lemma_parts_from(w, "token"@, 0);
}

// ---- qualifiers ----

proof fn lemma_lowered_joined(a: Seq<char>, b: Seq<char>)
    ensures
        lowered(a + b) == lowered(a) + lowered(b),
{
    assert(lowered(a + b) =~= lowered(a) + lowered(b));
}

proof fn lemma_no_prefix(t: Seq<char>, p: Seq<char>, k: int)
    requires
        0 <= k < p.len(),
        k >= t.len() || t[k] != p[k],
    ensures
        !has_prefix(t, p),
{
    lemma_parts_from(t, p, k);
}

/// A property of a card that is compared with a number is read as that comparison.
pub proof fn law_numeric_qualifiers(
    word: Seq<char>,
    op: Seq<char>,
    k: Seq<char>,
    p: SelectorPredicate,
)
    requires
        word == "cmc"@ || word == "power"@ || word == "toughness"@,
        op == "EQ"@ || op == "NE"@ || op == "LT"@ || op == "LE"@ || op == "GT"@ || op == "GE"@,
        int_value(k) is Some,
        open_lowers(word + (op + k), p),
    ensures
        p matches SelectorPredicate::NumericComparison { property, operator, value } && property
            == (if word == "cmc"@ {
            NumericSelectorProperty::ManaValue
        } else if word == "power"@ {
            NumericSelectorProperty::Power
        } else {
            NumericSelectorProperty::Toughness
        }) && operator == (if op == "EQ"@ {
            SelectorCompareOperator::Eq
        } else if op == "NE"@ {
            SelectorCompareOperator::Ne
        } else if op == "LT"@ {
            SelectorCompareOperator::Lt
        } else if op == "LE"@ {
            SelectorCompareOperator::Le
        } else if op == "GT"@ {
            SelectorCompareOperator::Gt
        } else {
            SelectorCompareOperator::Ge
        }) && (value matches SelectorNumericOperand::Literal(n) && n == int_value(k)->0),
{
    let rest = op + k;
    let text = word + rest;
    let low = lowered(text);
    reveal_strlit("cmc");
    reveal_strlit("power");
    reveal_strlit("toughness");
    reveal_strlit("non");
    reveal_strlit("with");
    reveal_strlit("without");
    reveal_strlit("even");
    reveal_strlit("odd");
    lemma_number_chars(k, 'x');
    lemma_lowered_joined(word, rest);
    assert(lowered(word) =~= word);
    lemma_starts(word, lowered(rest));
    lemma_starts(word, rest);
    assert(low[0] == word[0] && low[1] == word[1]);
    lemma_no_prefix(low, "non"@, 0);
    lemma_no_prefix(low, "with"@, 0);
    lemma_no_prefix(low, "without"@, 0);
    if word == "power"@ || word == "toughness"@ {
        lemma_no_prefix(low, "cmc"@, 0);
    }
    if word == "toughness"@ {
        lemma_no_prefix(low, "power"@, 0);
    }
    let (_, read) = numeric_property(text)->0;
    assert(read == rest);
    lemma_operators(op);
    assert(op.len() == 2);
    assert(rest.take(2) =~= op);
    assert(rest.skip(2) =~= k);
    assert(rest[0] == op[0] && rest[1] == op[1]);
    assert(lowered(rest)[0] == lower_char(op[0]));
    assert(lowered(rest)[1] == lower_char(op[1]));
    assert(!same_ignoring_case(rest, "even"@)) by {
        assert(lowered("even"@)[0] == 'e' && lowered("even"@)[1] == 'v');
    }
    assert(!same_ignoring_case(rest, "odd"@)) by {
        assert(lowered("odd"@)[0] == 'o');
    }
}

proof fn lemma_operators(op: Seq<char>)
    requires
        op == "EQ"@ || op == "NE"@ || op == "LT"@ || op == "LE"@ || op == "GT"@ || op == "GE"@,
    ensures
        op.len() == 2,
        lower_char(op[0]) == 'e' || lower_char(op[0]) == 'n' || lower_char(op[0]) == 'l'
            || lower_char(op[0]) == 'g',
        lower_char(op[0]) == 'e' ==> lower_char(op[1]) == 'q',
        crate::parsing::words::operator_word(lowered(op)) == Some(
            if op == "EQ"@ {
                SelectorCompareOperator::Eq
            } else if op == "NE"@ {
                SelectorCompareOperator::Ne
            } else if op == "LT"@ {
                SelectorCompareOperator::Lt
            } else if op == "LE"@ {
                SelectorCompareOperator::Le
            } else if op == "GT"@ {
                SelectorCompareOperator::Gt
            } else {
                SelectorCompareOperator::Ge
            },
        ),
{
    reveal_strlit("EQ");
    reveal_strlit("NE");
    reveal_strlit("LT");
    reveal_strlit("LE");
    reveal_strlit("GT");
    reveal_strlit("GE");
    reveal_strlit("eq");
    reveal_strlit("ne");
    reveal_strlit("lt");
    reveal_strlit("le");
    reveal_strlit("gt");
    reveal_strlit("ge");
    assert(lowered("EQ"@) =~= "eq"@);
    assert(lowered("NE"@) =~= "ne"@);
    assert(lowered("LT"@) =~= "lt"@);
    assert(lowered("LE"@) =~= "le"@);
    assert(lowered("GT"@) =~= "gt"@);
    assert(lowered("GE"@) =~= "ge"@);
    assert("eq"@[0] == 'e' && "ne"@[0] == 'n' && "lt"@[0] == 'l' && "le"@[0] == 'l' && "gt"@[0]
        == 'g' && "ge"@[0] == 'g');
    assert("lt"@[1] == 't' && "le"@[1] == 'e' && "gt"@[1] == 't' && "ge"@[1] == 'e');
    assert("EQ"@[0] == 'E' && "NE"@[0] == 'N' && "LT"@[0] == 'L' && "LE"@[0] == 'L' && "GT"@[0]
        == 'G' && "GE"@[0] == 'G');
    assert("LT"@[1] == 'T' && "LE"@[1] == 'E' && "GT"@[1] == 'T' && "GE"@[1] == 'E');
}

/// A qualifier that starts with `with` asks for an ability, and one that starts with `without` for its
/// absence; one that starts with `non` is a negation.
pub proof fn law_with_and_without(word: Seq<char>, p: SelectorPredicate)
    requires
        word.len() > 0,
    ensures
        open_lowers("without"@ + word, p) ==> is_keyword(p, word, false),
        !has_prefix(lowered(word), "out"@) && open_lowers("with"@ + word, p) ==> is_keyword(
            p,
            word,
            true,
        ),
        open_lowers("non"@ + word, p) ==> p is Not,
{
    reveal_strlit("with");
    reveal_strlit("without");
    reveal_strlit("non");
    reveal_strlit("out");
    let a = "without"@ + word;
    lemma_lowered_joined("without"@, word);
    assert(lowered("without"@) =~= "without"@);
    lemma_starts("without"@, lowered(word));
    lemma_starts("without"@, word);
    assert(lowered(a)[0] == 'w');
    lemma_no_prefix(lowered(a), "non"@, 0);
    let b = "with"@ + word;
    lemma_lowered_joined("with"@, word);
    assert(lowered("with"@) =~= "with"@);
    lemma_starts("with"@, lowered(word));
    lemma_starts("with"@, word);
    assert(lowered(b)[0] == 'w');
    lemma_no_prefix(lowered(b), "non"@, 0);
    if has_prefix(lowered(b), "without"@) {
        assert(lowered(word).subrange(0, 3) =~= lowered(b).subrange(0, 7).subrange(4, 7));
        assert("without"@.subrange(4, 7) =~= "out"@);
    }
    let c = "non"@ + word;
    lemma_lowered_joined("non"@, word);
    assert(lowered("non"@) =~= "non"@);
    lemma_starts("non"@, lowered(word));
}

/// A first word that is none of the known ones names a subtype.
pub proof fn law_subtypes(text: Seq<char>, p: SelectorPredicate)
    requires
        first_word(lowered(text)) is None,
        !has_prefix(lowered(text), "named"@),
        head_lowers(text, p),
    ensures
        p matches SelectorPredicate::CardType(CardSelectorType::Subtype(t)) && t@ == text,
{
}

} // verus!
