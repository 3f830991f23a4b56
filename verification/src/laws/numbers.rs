//! What expressions of script variables come to.

use vstd::prelude::*;
use crate::game::{Card, Player};
use crate::svar::eval::count_value;
use crate::svar::scene::SceneView;
use crate::text::{
    after_mark, all_digits, before_mark, has_part, has_prefix, int_value, is_digit, is_white,
    lemma_mark_between, trimmed,
};
use crate::types::ZoneType;

verus! {

/// A text that differs from another in one place neither is it nor starts with it.
pub proof fn lemma_parts_from(t: Seq<char>, p: Seq<char>, k: int)
    requires
        0 <= k < p.len(),
        k >= t.len() || t[k] != p[k],
    ensures
        !has_prefix(t, p),
        t != p,
{
    if has_prefix(t, p) {
        assert(t.subrange(0, p.len() as int)[k] == t[k]);
    }
}

/// A text starts with the text that it was put together from.
pub proof fn lemma_starts(p: Seq<char>, rest: Seq<char>)
    ensures
        has_prefix(p + rest, p),
        (p + rest).skip(p.len() as int) == rest,
{
    assert((p + rest).subrange(0, p.len() as int) =~= p);
    assert((p + rest).skip(p.len() as int) =~= rest);
}

/// The text of a number holds digits and perhaps a sign, and no white space.
pub proof fn lemma_number_chars(a: Seq<char>, c: char)
    requires
        int_value(a) is Some,
    ensures
        !is_digit(c) && c != '+' && c != '-' ==> !a.contains(c),
        trimmed(a) == a,
        a.len() > 0,
{
    let signed = a[0] == '+' || a[0] == '-';
    let digits = if signed {
        a.skip(1)
    } else {
        a
    };
    assert(all_digits(digits));
    assert(digits.len() > 0);
    assert forall|i: int| 0 <= i < a.len() implies is_digit(#[trigger] a[i]) || a[i] == '+' || a[i]
        == '-' by {
        if signed {
            if i > 0 {
                assert(digits[i - 1] == a[i]);
            }
        } else {
            assert(digits[i] == a[i]);
        }
    }
    assert(is_digit(a[0]) || a[0] == '+' || a[0] == '-');
    assert(is_digit(a.last()) || a.last() == '+' || a.last() == '-') by {
        assert(a.last() == a[a.len() - 1]);
    }
    assert(!is_white(a[0]) && !is_white(a.last()));
}

pub proof fn lemma_not_a_number(t: Seq<char>)
    requires
        t.len() > 0,
        !is_digit(t[0]) && t[0] != '+' && t[0] != '-',
    ensures
        int_value(t) is None,
{
    if int_value(t) is Some {
        lemma_number_chars(t, t[0]);
        assert(t.contains(t[0]));
    }
}

/// The game of a scene has its card and its player.
pub open spec fn is_set(s: SceneView) -> bool {
    s.game.card_at(s.source) is Some && s.game.player_at(s.you) is Some
}

pub open spec fn card_of(s: SceneView) -> Card {
    s.game.card_at(s.source)->0
}

pub open spec fn player_of(s: SceneView) -> Player {
    s.game.player_at(s.you)->0
}

// ---- one number or another ----

/// The text of a choice: a word, and two numbers between dots.
pub open spec fn choice_text(word: Seq<char>, a: Seq<char>, b: Seq<char>) -> Seq<char> {
    word + (a + seq!['.'] + b)
}

pub proof fn lemma_choice(word: Seq<char>, a: Seq<char>, b: Seq<char>)
    requires
        int_value(a) is Some,
        int_value(b) is Some,
    ensures
        ({
            let t = choice_text(word, a, b);
            let rest = t.skip(word.len() as int);
            &&& has_prefix(t, word)
            &&& has_part(rest, "."@)
            &&& before_mark(rest, "."@) == a
            &&& after_mark(rest, "."@) == b
            &&& t.len() > word.len()
            &&& forall|k: int| 0 <= k < word.len() ==> #[trigger] t[k] == word[k]
        }),
{
    reveal_strlit(".");
    assert("."@ =~= seq!['.']);
    lemma_number_chars(a, '.');
    lemma_starts(word, a + seq!['.'] + b);
    lemma_mark_between(a, '.', b);
}

/// A choice by whether the ability was kicked comes to the first number where it was, and to the
/// second where it was not.
pub proof fn law_kicked_numbers(s: SceneView, depth: u32, hops: u32, a: Seq<char>, b: Seq<char>)
    requires
        is_set(s),
        depth > 0,
        int_value(a) is Some,
        int_value(b) is Some,
    ensures
        count_value(s, depth, hops, choice_text("Count$Kicked."@, a, b)) == if s.sa.kicked {
            int_value(a)->0
        } else {
            int_value(b)->0
        },
{
    let t = choice_text("Count$Kicked."@, a, b);
    reveal_strlit("Count$Kicked.");
    reveal_strlit("");
    lemma_choice("Count$Kicked."@, a, b);
    lemma_number_chars(a, '.');
    lemma_number_chars(b, '.');
    assert(t[0] == 'C');
    assert(t[6] == 'K');
    assert(t[12] == '.');
    reveal_strlit("PlayerCount");
    lemma_parts_from(t, "PlayerCount"@, 0);
    reveal_strlit("TargetedObjects");
    lemma_parts_from(t, "TargetedObjects"@, 0);
    reveal_strlit("Count$xPaid");
    lemma_parts_from(t, "Count$xPaid"@, 6);
    reveal_strlit("Count$XPaid");
    lemma_parts_from(t, "Count$XPaid"@, 6);
    reveal_strlit("Count$CastTotalManaSpent ");
    lemma_parts_from(t, "Count$CastTotalManaSpent "@, 6);
    reveal_strlit("Count$CastTotalManaSpent");
    lemma_parts_from(t, "Count$CastTotalManaSpent"@, 6);
    reveal_strlit("Count$TriggerRememberAmount");
    lemma_parts_from(t, "Count$TriggerRememberAmount"@, 6);
    reveal_strlit("Count$OptionalKeywordAmount");
    lemma_parts_from(t, "Count$OptionalKeywordAmount"@, 6);
    reveal_strlit("Count$ChosenNumber");
    lemma_parts_from(t, "Count$ChosenNumber"@, 6);
    reveal_strlit("TriggerCount$Result");
    lemma_parts_from(t, "TriggerCount$Result"@, 0);
    reveal_strlit("TriggerCountMax$Result");
    lemma_parts_from(t, "TriggerCountMax$Result"@, 0);
    reveal_strlit("Count$Converge");
    lemma_parts_from(t, "Count$Converge"@, 6);
    reveal_strlit("Count$Sunburst");
    lemma_parts_from(t, "Count$Sunburst"@, 6);
    reveal_strlit("Count$Adamant");
    lemma_parts_from(t, "Count$Adamant"@, 6);
    reveal_strlit("Count$FinalChapterNr");
    lemma_parts_from(t, "Count$FinalChapterNr"@, 6);
    reveal_strlit("Count$YourSpeed");
    lemma_parts_from(t, "Count$YourSpeed"@, 6);
    reveal_strlit("Count$DomainActivePlayer");
    lemma_parts_from(t, "Count$DomainActivePlayer"@, 6);
    reveal_strlit("Count$Domain");
    lemma_parts_from(t, "Count$Domain"@, 6);
    reveal_strlit("Count$Party");
    lemma_parts_from(t, "Count$Party"@, 6);
    reveal_strlit("Count$YourLifeTotal");
    lemma_parts_from(t, "Count$YourLifeTotal"@, 6);
    reveal_strlit("Count$YouDrewThisTurn");
    lemma_parts_from(t, "Count$YouDrewThisTurn"@, 6);
    reveal_strlit("Count$OppGreatestLifeTotal");
    lemma_parts_from(t, "Count$OppGreatestLifeTotal"@, 6);
    reveal_strlit("Count$Metalcraft.");
    lemma_parts_from(t, "Count$Metalcraft."@, 6);
    reveal_strlit("Count$MaxSpeed.");
    lemma_parts_from(t, "Count$MaxSpeed."@, 6);
    reveal_strlit("Count$AttackersDeclared");
    lemma_parts_from(t, "Count$AttackersDeclared"@, 6);
    reveal_strlit("Count$TopOfLibraryCMC");
    lemma_parts_from(t, "Count$TopOfLibraryCMC"@, 6);
    reveal_strlit("Count$OptionalGenericCostPaid.");
    lemma_parts_from(t, "Count$OptionalGenericCostPaid."@, 6);
    reveal_strlit("Count$KickedCount");
    lemma_parts_from(t, "Count$KickedCount"@, 12);
    crate::svar::eval::law_numbers_stand_for_themselves(s, depth, a);
    crate::svar::eval::law_numbers_stand_for_themselves(s, depth, b);
}

/// A choice by whether the player has the Urza lands.
pub proof fn law_urza_numbers(s: SceneView, depth: u32, hops: u32, a: Seq<char>, b: Seq<char>)
    requires
        is_set(s),
        depth > 0,
        int_value(a) is Some,
        int_value(b) is Some,
    ensures
        count_value(s, depth, hops, choice_text("Count$UrzaLands."@, a, b)) == if player_of(s).has_urza_lands {
            int_value(a)->0
        } else {
            int_value(b)->0
        },
{
    let t = choice_text("Count$UrzaLands."@, a, b);
    reveal_strlit("Count$UrzaLands.");
    reveal_strlit("");
    lemma_choice("Count$UrzaLands."@, a, b);
    lemma_number_chars(a, '.');
    lemma_number_chars(b, '.');
    assert(t[0] == 'C');
    assert(t[6] == 'U');
    reveal_strlit("PlayerCount");
    lemma_parts_from(t, "PlayerCount"@, 0);
    reveal_strlit("TargetedObjects");
    lemma_parts_from(t, "TargetedObjects"@, 0);
    reveal_strlit("Count$xPaid");
    lemma_parts_from(t, "Count$xPaid"@, 6);
    reveal_strlit("Count$XPaid");
    lemma_parts_from(t, "Count$XPaid"@, 6);
    reveal_strlit("Count$CastTotalManaSpent ");
    lemma_parts_from(t, "Count$CastTotalManaSpent "@, 6);
    reveal_strlit("Count$CastTotalManaSpent");
    lemma_parts_from(t, "Count$CastTotalManaSpent"@, 6);
    reveal_strlit("Count$TriggerRememberAmount");
    lemma_parts_from(t, "Count$TriggerRememberAmount"@, 6);
    reveal_strlit("Count$OptionalKeywordAmount");
    lemma_parts_from(t, "Count$OptionalKeywordAmount"@, 6);
    reveal_strlit("Count$ChosenNumber");
    lemma_parts_from(t, "Count$ChosenNumber"@, 6);
    reveal_strlit("TriggerCount$Result");
    lemma_parts_from(t, "TriggerCount$Result"@, 0);
    reveal_strlit("TriggerCountMax$Result");
    lemma_parts_from(t, "TriggerCountMax$Result"@, 0);
    reveal_strlit("Count$Converge");
    lemma_parts_from(t, "Count$Converge"@, 6);
    reveal_strlit("Count$Sunburst");
    lemma_parts_from(t, "Count$Sunburst"@, 6);
    reveal_strlit("Count$Adamant");
    lemma_parts_from(t, "Count$Adamant"@, 6);
    reveal_strlit("Count$FinalChapterNr");
    lemma_parts_from(t, "Count$FinalChapterNr"@, 6);
    reveal_strlit("Count$YourSpeed");
    lemma_parts_from(t, "Count$YourSpeed"@, 6);
    reveal_strlit("Count$DomainActivePlayer");
    lemma_parts_from(t, "Count$DomainActivePlayer"@, 6);
    reveal_strlit("Count$Domain");
    lemma_parts_from(t, "Count$Domain"@, 6);
    reveal_strlit("Count$Party");
    lemma_parts_from(t, "Count$Party"@, 6);
    reveal_strlit("Count$YourLifeTotal");
    lemma_parts_from(t, "Count$YourLifeTotal"@, 6);
    reveal_strlit("Count$YouDrewThisTurn");
    lemma_parts_from(t, "Count$YouDrewThisTurn"@, 6);
    reveal_strlit("Count$OppGreatestLifeTotal");
    lemma_parts_from(t, "Count$OppGreatestLifeTotal"@, 6);
    reveal_strlit("Count$Metalcraft.");
    lemma_parts_from(t, "Count$Metalcraft."@, 6);
    reveal_strlit("Count$MaxSpeed.");
    lemma_parts_from(t, "Count$MaxSpeed."@, 6);
    reveal_strlit("Count$AttackersDeclared");
    lemma_parts_from(t, "Count$AttackersDeclared"@, 6);
    reveal_strlit("Count$TopOfLibraryCMC");
    lemma_parts_from(t, "Count$TopOfLibraryCMC"@, 6);
    reveal_strlit("Count$OptionalGenericCostPaid.");
    lemma_parts_from(t, "Count$OptionalGenericCostPaid."@, 6);
    reveal_strlit("Count$KickedCount");
    lemma_parts_from(t, "Count$KickedCount"@, 6);
    reveal_strlit("Count$Kicked.");
    lemma_parts_from(t, "Count$Kicked."@, 6);
    crate::svar::eval::law_numbers_stand_for_themselves(s, depth, a);
    crate::svar::eval::law_numbers_stand_for_themselves(s, depth, b);
}

/// A choice by whether the player has metalcraft.
pub proof fn law_metalcraft_numbers(s: SceneView, depth: u32, hops: u32, a: Seq<char>, b: Seq<char>)
    requires
        is_set(s),
        depth > 0,
        int_value(a) is Some,
        int_value(b) is Some,
    ensures
        count_value(s, depth, hops, choice_text("Count$Metalcraft."@, a, b)) == if player_of(s).has_metalcraft {
            int_value(a)->0
        } else {
            int_value(b)->0
        },
{
    let t = choice_text("Count$Metalcraft."@, a, b);
    reveal_strlit("Count$Metalcraft.");
    reveal_strlit("");
    lemma_choice("Count$Metalcraft."@, a, b);
    lemma_number_chars(a, '.');
    lemma_number_chars(b, '.');
    assert(t[0] == 'C');
    assert(t[6] == 'M');
    reveal_strlit("PlayerCount");
    lemma_parts_from(t, "PlayerCount"@, 0);
    reveal_strlit("TargetedObjects");
    lemma_parts_from(t, "TargetedObjects"@, 0);
    reveal_strlit("Count$xPaid");
    lemma_parts_from(t, "Count$xPaid"@, 6);
    reveal_strlit("Count$XPaid");
    lemma_parts_from(t, "Count$XPaid"@, 6);
    reveal_strlit("Count$CastTotalManaSpent ");
    lemma_parts_from(t, "Count$CastTotalManaSpent "@, 6);
    reveal_strlit("Count$CastTotalManaSpent");
    lemma_parts_from(t, "Count$CastTotalManaSpent"@, 6);
    reveal_strlit("Count$TriggerRememberAmount");
    lemma_parts_from(t, "Count$TriggerRememberAmount"@, 6);
    reveal_strlit("Count$OptionalKeywordAmount");
    lemma_parts_from(t, "Count$OptionalKeywordAmount"@, 6);
    reveal_strlit("Count$ChosenNumber");
    lemma_parts_from(t, "Count$ChosenNumber"@, 6);
    reveal_strlit("TriggerCount$Result");
    lemma_parts_from(t, "TriggerCount$Result"@, 0);
    reveal_strlit("TriggerCountMax$Result");
    lemma_parts_from(t, "TriggerCountMax$Result"@, 0);
    reveal_strlit("Count$Converge");
    lemma_parts_from(t, "Count$Converge"@, 6);
    reveal_strlit("Count$Sunburst");
    lemma_parts_from(t, "Count$Sunburst"@, 6);
    reveal_strlit("Count$Adamant");
    lemma_parts_from(t, "Count$Adamant"@, 6);
    reveal_strlit("Count$FinalChapterNr");
    lemma_parts_from(t, "Count$FinalChapterNr"@, 6);
    reveal_strlit("Count$YourSpeed");
    lemma_parts_from(t, "Count$YourSpeed"@, 6);
    reveal_strlit("Count$DomainActivePlayer");
    lemma_parts_from(t, "Count$DomainActivePlayer"@, 6);
    reveal_strlit("Count$Domain");
    lemma_parts_from(t, "Count$Domain"@, 6);
    reveal_strlit("Count$Party");
    lemma_parts_from(t, "Count$Party"@, 6);
    reveal_strlit("Count$YourLifeTotal");
    lemma_parts_from(t, "Count$YourLifeTotal"@, 6);
    reveal_strlit("Count$YouDrewThisTurn");
    lemma_parts_from(t, "Count$YouDrewThisTurn"@, 6);
    reveal_strlit("Count$OppGreatestLifeTotal");
    lemma_parts_from(t, "Count$OppGreatestLifeTotal"@, 6);
    crate::svar::eval::law_numbers_stand_for_themselves(s, depth, a);
    crate::svar::eval::law_numbers_stand_for_themselves(s, depth, b);
}

/// A choice by whether the player has the greatest speed.
pub proof fn law_speed_numbers(s: SceneView, depth: u32, hops: u32, a: Seq<char>, b: Seq<char>)
    requires
        is_set(s),
        depth > 0,
        int_value(a) is Some,
        int_value(b) is Some,
    ensures
        count_value(s, depth, hops, choice_text("Count$MaxSpeed."@, a, b)) == if player_of(s).speed == 4 {
            int_value(a)->0
        } else {
            int_value(b)->0
        },
{
    let t = choice_text("Count$MaxSpeed."@, a, b);
    reveal_strlit("Count$MaxSpeed.");
    reveal_strlit("");
    lemma_choice("Count$MaxSpeed."@, a, b);
    lemma_number_chars(a, '.');
    lemma_number_chars(b, '.');
    assert(t[0] == 'C');
    assert(t[6] == 'M');
    assert(t[7] == 'a');
    reveal_strlit("PlayerCount");
    lemma_parts_from(t, "PlayerCount"@, 0);
    reveal_strlit("TargetedObjects");
    lemma_parts_from(t, "TargetedObjects"@, 0);
    reveal_strlit("Count$xPaid");
    lemma_parts_from(t, "Count$xPaid"@, 6);
    reveal_strlit("Count$XPaid");
    lemma_parts_from(t, "Count$XPaid"@, 6);
    reveal_strlit("Count$CastTotalManaSpent ");
    lemma_parts_from(t, "Count$CastTotalManaSpent "@, 6);
    reveal_strlit("Count$CastTotalManaSpent");
    lemma_parts_from(t, "Count$CastTotalManaSpent"@, 6);
    reveal_strlit("Count$TriggerRememberAmount");
    lemma_parts_from(t, "Count$TriggerRememberAmount"@, 6);
    reveal_strlit("Count$OptionalKeywordAmount");
    lemma_parts_from(t, "Count$OptionalKeywordAmount"@, 6);
    reveal_strlit("Count$ChosenNumber");
    lemma_parts_from(t, "Count$ChosenNumber"@, 6);
    reveal_strlit("TriggerCount$Result");
    lemma_parts_from(t, "TriggerCount$Result"@, 0);
    reveal_strlit("TriggerCountMax$Result");
    lemma_parts_from(t, "TriggerCountMax$Result"@, 0);
    reveal_strlit("Count$Converge");
    lemma_parts_from(t, "Count$Converge"@, 6);
    reveal_strlit("Count$Sunburst");
    lemma_parts_from(t, "Count$Sunburst"@, 6);
    reveal_strlit("Count$Adamant");
    lemma_parts_from(t, "Count$Adamant"@, 6);
    reveal_strlit("Count$FinalChapterNr");
    lemma_parts_from(t, "Count$FinalChapterNr"@, 6);
    reveal_strlit("Count$YourSpeed");
    lemma_parts_from(t, "Count$YourSpeed"@, 6);
    reveal_strlit("Count$DomainActivePlayer");
    lemma_parts_from(t, "Count$DomainActivePlayer"@, 6);
    reveal_strlit("Count$Domain");
    lemma_parts_from(t, "Count$Domain"@, 6);
    reveal_strlit("Count$Party");
    lemma_parts_from(t, "Count$Party"@, 6);
    reveal_strlit("Count$YourLifeTotal");
    lemma_parts_from(t, "Count$YourLifeTotal"@, 6);
    reveal_strlit("Count$YouDrewThisTurn");
    lemma_parts_from(t, "Count$YouDrewThisTurn"@, 6);
    reveal_strlit("Count$OppGreatestLifeTotal");
    lemma_parts_from(t, "Count$OppGreatestLifeTotal"@, 6);
    reveal_strlit("Count$Metalcraft.");
    lemma_parts_from(t, "Count$Metalcraft."@, 7);
    crate::svar::eval::law_numbers_stand_for_themselves(s, depth, a);
    crate::svar::eval::law_numbers_stand_for_themselves(s, depth, b);
}

/// A choice by whether the optional cost was paid.
pub proof fn law_optional_cost_numbers(s: SceneView, depth: u32, hops: u32, a: Seq<char>, b: Seq<char>)
    requires
        is_set(s),
        depth > 0,
        int_value(a) is Some,
        int_value(b) is Some,
    ensures
        count_value(s, depth, hops, choice_text("Count$OptionalGenericCostPaid."@, a, b)) == if s.sa.optional_generic_cost_paid {
            int_value(a)->0
        } else {
            int_value(b)->0
        },
{
    let t = choice_text("Count$OptionalGenericCostPaid."@, a, b);
    reveal_strlit("Count$OptionalGenericCostPaid.");
    reveal_strlit("");
    lemma_choice("Count$OptionalGenericCostPaid."@, a, b);
    lemma_number_chars(a, '.');
    lemma_number_chars(b, '.');
    assert(t[0] == 'C');
    assert(t[6] == 'O');
    assert(t[8] == 't');
    assert(t[14] == 'G');
    reveal_strlit("PlayerCount");
    lemma_parts_from(t, "PlayerCount"@, 0);
    reveal_strlit("TargetedObjects");
    lemma_parts_from(t, "TargetedObjects"@, 0);
    reveal_strlit("Count$xPaid");
    lemma_parts_from(t, "Count$xPaid"@, 6);
    reveal_strlit("Count$XPaid");
    lemma_parts_from(t, "Count$XPaid"@, 6);
    reveal_strlit("Count$CastTotalManaSpent ");
    lemma_parts_from(t, "Count$CastTotalManaSpent "@, 6);
    reveal_strlit("Count$CastTotalManaSpent");
    lemma_parts_from(t, "Count$CastTotalManaSpent"@, 6);
    reveal_strlit("Count$TriggerRememberAmount");
    lemma_parts_from(t, "Count$TriggerRememberAmount"@, 6);
    reveal_strlit("Count$OptionalKeywordAmount");
    lemma_parts_from(t, "Count$OptionalKeywordAmount"@, 14);
    reveal_strlit("Count$ChosenNumber");
    lemma_parts_from(t, "Count$ChosenNumber"@, 6);
    reveal_strlit("TriggerCount$Result");
    lemma_parts_from(t, "TriggerCount$Result"@, 0);
    reveal_strlit("TriggerCountMax$Result");
    lemma_parts_from(t, "TriggerCountMax$Result"@, 0);
    reveal_strlit("Count$Converge");
    lemma_parts_from(t, "Count$Converge"@, 6);
    reveal_strlit("Count$Sunburst");
    lemma_parts_from(t, "Count$Sunburst"@, 6);
    reveal_strlit("Count$Adamant");
    lemma_parts_from(t, "Count$Adamant"@, 6);
    reveal_strlit("Count$FinalChapterNr");
    lemma_parts_from(t, "Count$FinalChapterNr"@, 6);
    reveal_strlit("Count$YourSpeed");
    lemma_parts_from(t, "Count$YourSpeed"@, 6);
    reveal_strlit("Count$DomainActivePlayer");
    lemma_parts_from(t, "Count$DomainActivePlayer"@, 6);
    reveal_strlit("Count$Domain");
    lemma_parts_from(t, "Count$Domain"@, 6);
    reveal_strlit("Count$Party");
    lemma_parts_from(t, "Count$Party"@, 6);
    reveal_strlit("Count$YourLifeTotal");
    lemma_parts_from(t, "Count$YourLifeTotal"@, 6);
    reveal_strlit("Count$YouDrewThisTurn");
    lemma_parts_from(t, "Count$YouDrewThisTurn"@, 6);
    reveal_strlit("Count$OppGreatestLifeTotal");
    lemma_parts_from(t, "Count$OppGreatestLifeTotal"@, 8);
    reveal_strlit("Count$Metalcraft.");
    lemma_parts_from(t, "Count$Metalcraft."@, 6);
    reveal_strlit("Count$MaxSpeed.");
    lemma_parts_from(t, "Count$MaxSpeed."@, 6);
    reveal_strlit("Count$AttackersDeclared");
    lemma_parts_from(t, "Count$AttackersDeclared"@, 6);
    reveal_strlit("Count$TopOfLibraryCMC");
    lemma_parts_from(t, "Count$TopOfLibraryCMC"@, 6);
    crate::svar::eval::law_numbers_stand_for_themselves(s, depth, a);
    crate::svar::eval::law_numbers_stand_for_themselves(s, depth, b);
}

/// A choice by whether a gift was promised.
pub proof fn law_gift_numbers(s: SceneView, depth: u32, hops: u32, a: Seq<char>, b: Seq<char>)
    requires
        is_set(s),
        depth > 0,
        int_value(a) is Some,
        int_value(b) is Some,
    ensures
        count_value(s, depth, hops, choice_text("Count$PromisedGift."@, a, b)) == if card_of(s).promised_gift {
            int_value(a)->0
        } else {
            int_value(b)->0
        },
{
    let t = choice_text("Count$PromisedGift."@, a, b);
    reveal_strlit("Count$PromisedGift.");
    reveal_strlit("");
    lemma_choice("Count$PromisedGift."@, a, b);
    lemma_number_chars(a, '.');
    lemma_number_chars(b, '.');
    assert(t[0] == 'C');
    assert(t[6] == 'P');
    assert(t[7] == 'r');
    reveal_strlit("PlayerCount");
    lemma_parts_from(t, "PlayerCount"@, 0);
    reveal_strlit("TargetedObjects");
    lemma_parts_from(t, "TargetedObjects"@, 0);
    reveal_strlit("Count$xPaid");
    lemma_parts_from(t, "Count$xPaid"@, 6);
    reveal_strlit("Count$XPaid");
    lemma_parts_from(t, "Count$XPaid"@, 6);
    reveal_strlit("Count$CastTotalManaSpent ");
    lemma_parts_from(t, "Count$CastTotalManaSpent "@, 6);
    reveal_strlit("Count$CastTotalManaSpent");
    lemma_parts_from(t, "Count$CastTotalManaSpent"@, 6);
    reveal_strlit("Count$TriggerRememberAmount");
    lemma_parts_from(t, "Count$TriggerRememberAmount"@, 6);
    reveal_strlit("Count$OptionalKeywordAmount");
    lemma_parts_from(t, "Count$OptionalKeywordAmount"@, 6);
    reveal_strlit("Count$ChosenNumber");
    lemma_parts_from(t, "Count$ChosenNumber"@, 6);
    reveal_strlit("TriggerCount$Result");
    lemma_parts_from(t, "TriggerCount$Result"@, 0);
    reveal_strlit("TriggerCountMax$Result");
    lemma_parts_from(t, "TriggerCountMax$Result"@, 0);
    reveal_strlit("Count$Converge");
    lemma_parts_from(t, "Count$Converge"@, 6);
    reveal_strlit("Count$Sunburst");
    lemma_parts_from(t, "Count$Sunburst"@, 6);
    reveal_strlit("Count$Adamant");
    lemma_parts_from(t, "Count$Adamant"@, 6);
    reveal_strlit("Count$FinalChapterNr");
    lemma_parts_from(t, "Count$FinalChapterNr"@, 6);
    reveal_strlit("Count$YourSpeed");
    lemma_parts_from(t, "Count$YourSpeed"@, 6);
    reveal_strlit("Count$DomainActivePlayer");
    lemma_parts_from(t, "Count$DomainActivePlayer"@, 6);
    reveal_strlit("Count$Domain");
    lemma_parts_from(t, "Count$Domain"@, 6);
    reveal_strlit("Count$Party");
    lemma_parts_from(t, "Count$Party"@, 7);
    reveal_strlit("Count$YourLifeTotal");
    lemma_parts_from(t, "Count$YourLifeTotal"@, 6);
    reveal_strlit("Count$YouDrewThisTurn");
    lemma_parts_from(t, "Count$YouDrewThisTurn"@, 6);
    reveal_strlit("Count$OppGreatestLifeTotal");
    lemma_parts_from(t, "Count$OppGreatestLifeTotal"@, 6);
    reveal_strlit("Count$Metalcraft.");
    lemma_parts_from(t, "Count$Metalcraft."@, 6);
    reveal_strlit("Count$MaxSpeed.");
    lemma_parts_from(t, "Count$MaxSpeed."@, 6);
    reveal_strlit("Count$AttackersDeclared");
    lemma_parts_from(t, "Count$AttackersDeclared"@, 6);
    reveal_strlit("Count$TopOfLibraryCMC");
    lemma_parts_from(t, "Count$TopOfLibraryCMC"@, 6);
    reveal_strlit("Count$OptionalGenericCostPaid.");
    lemma_parts_from(t, "Count$OptionalGenericCostPaid."@, 6);
    reveal_strlit("Count$KickedCount");
    lemma_parts_from(t, "Count$KickedCount"@, 6);
    reveal_strlit("Count$Kicked.");
    lemma_parts_from(t, "Count$Kicked."@, 6);
    reveal_strlit("Count$UrzaLands.");
    lemma_parts_from(t, "Count$UrzaLands."@, 6);
    crate::svar::eval::law_numbers_stand_for_themselves(s, depth, a);
    crate::svar::eval::law_numbers_stand_for_themselves(s, depth, b);
}

// ---- numbers of the ability, the player and the card ----

/// What an ability remembers, and how often it was kicked.
pub proof fn law_numbers_of_the_ability(s: SceneView, depth: u32, hops: u32)
    requires
        is_set(s),
    ensures
        count_value(s, depth, hops, "Count$TriggerRememberAmount"@) == s.sa.trigger_remembered_amount,
        count_value(s, depth, hops, "Count$KickedCount"@) == s.sa.kick_count as i32,
{
    lemma_numbers_of_the_ability_0(s, depth, hops);
    lemma_numbers_of_the_ability_1(s, depth, hops);
}

proof fn lemma_numbers_of_the_ability_0(s: SceneView, depth: u32, hops: u32)
    requires
        is_set(s),
    ensures
        count_value(s, depth, hops, "Count$TriggerRememberAmount"@) == s.sa.trigger_remembered_amount,
{
    let t = "Count$TriggerRememberAmount"@;
    reveal_strlit("Count$TriggerRememberAmount");
    reveal_strlit("");
    reveal_strlit("/");
    assert(t[0] == 'C');
    assert(t[6] == 'T');
    reveal_strlit("PlayerCount");
    lemma_parts_from(t, "PlayerCount"@, 0);
    reveal_strlit("TargetedObjects");
    lemma_parts_from(t, "TargetedObjects"@, 0);
    reveal_strlit("Count$xPaid");
    lemma_parts_from(t, "Count$xPaid"@, 6);
    reveal_strlit("Count$XPaid");
    lemma_parts_from(t, "Count$XPaid"@, 6);
    reveal_strlit("Count$CastTotalManaSpent ");
    lemma_parts_from(t, "Count$CastTotalManaSpent "@, 6);
    reveal_strlit("Count$CastTotalManaSpent");
    lemma_parts_from(t, "Count$CastTotalManaSpent"@, 6);
    lemma_starts(t, Seq::empty());
    assert(t + Seq::<char>::empty() =~= t);
}

proof fn lemma_numbers_of_the_ability_1(s: SceneView, depth: u32, hops: u32)
    requires
        is_set(s),
    ensures
        count_value(s, depth, hops, "Count$KickedCount"@) == s.sa.kick_count as i32,
{
    let t = "Count$KickedCount"@;
    reveal_strlit("Count$KickedCount");
    reveal_strlit("");
    reveal_strlit("/");
    assert(t[0] == 'C');
    assert(t[6] == 'K');
    reveal_strlit("PlayerCount");
    lemma_parts_from(t, "PlayerCount"@, 0);
    reveal_strlit("TargetedObjects");
    lemma_parts_from(t, "TargetedObjects"@, 0);
    reveal_strlit("Count$xPaid");
    lemma_parts_from(t, "Count$xPaid"@, 6);
    reveal_strlit("Count$XPaid");
    lemma_parts_from(t, "Count$XPaid"@, 6);
    reveal_strlit("Count$CastTotalManaSpent ");
    lemma_parts_from(t, "Count$CastTotalManaSpent "@, 6);
    reveal_strlit("Count$CastTotalManaSpent");
    lemma_parts_from(t, "Count$CastTotalManaSpent"@, 6);
    reveal_strlit("Count$TriggerRememberAmount");
    lemma_parts_from(t, "Count$TriggerRememberAmount"@, 6);
    reveal_strlit("Count$OptionalKeywordAmount");
    lemma_parts_from(t, "Count$OptionalKeywordAmount"@, 6);
    reveal_strlit("Count$ChosenNumber");
    lemma_parts_from(t, "Count$ChosenNumber"@, 6);
    reveal_strlit("TriggerCount$Result");
    lemma_parts_from(t, "TriggerCount$Result"@, 0);
    reveal_strlit("TriggerCountMax$Result");
    lemma_parts_from(t, "TriggerCountMax$Result"@, 0);
    reveal_strlit("Count$Converge");
    lemma_parts_from(t, "Count$Converge"@, 6);
    reveal_strlit("Count$Sunburst");
    lemma_parts_from(t, "Count$Sunburst"@, 6);
    reveal_strlit("Count$Adamant");
    lemma_parts_from(t, "Count$Adamant"@, 6);
    reveal_strlit("Count$FinalChapterNr");
    lemma_parts_from(t, "Count$FinalChapterNr"@, 6);
    reveal_strlit("Count$YourSpeed");
    lemma_parts_from(t, "Count$YourSpeed"@, 6);
    reveal_strlit("Count$DomainActivePlayer");
    lemma_parts_from(t, "Count$DomainActivePlayer"@, 6);
    reveal_strlit("Count$Domain");
    lemma_parts_from(t, "Count$Domain"@, 6);
    reveal_strlit("Count$Party");
    lemma_parts_from(t, "Count$Party"@, 6);
    reveal_strlit("Count$YourLifeTotal");
    lemma_parts_from(t, "Count$YourLifeTotal"@, 6);
    reveal_strlit("Count$YouDrewThisTurn");
    lemma_parts_from(t, "Count$YouDrewThisTurn"@, 6);
    reveal_strlit("Count$OppGreatestLifeTotal");
    lemma_parts_from(t, "Count$OppGreatestLifeTotal"@, 6);
    reveal_strlit("Count$Metalcraft.");
    lemma_parts_from(t, "Count$Metalcraft."@, 6);
    reveal_strlit("Count$MaxSpeed.");
    lemma_parts_from(t, "Count$MaxSpeed."@, 6);
    reveal_strlit("Count$AttackersDeclared");
    lemma_parts_from(t, "Count$AttackersDeclared"@, 6);
    reveal_strlit("Count$TopOfLibraryCMC");
    lemma_parts_from(t, "Count$TopOfLibraryCMC"@, 6);
    reveal_strlit("Count$OptionalGenericCostPaid.");
    lemma_parts_from(t, "Count$OptionalGenericCostPaid."@, 6);
    lemma_starts(t, Seq::empty());
    assert(t + Seq::<char>::empty() =~= t);
}

/// The life of the player, the cards drawn in the turn, the speed, and the turns.
pub proof fn law_numbers_of_the_player(s: SceneView, depth: u32, hops: u32)
    requires
        is_set(s),
    ensures
        count_value(s, depth, hops, "Count$YourLifeTotal"@) == player_of(s).life,
        count_value(s, depth, hops, "Count$YouDrewThisTurn"@) == player_of(s).drawn_this_turn,
        count_value(s, depth, hops, "Count$YourSpeed"@) == player_of(s).speed,
        count_value(s, depth, hops, "Count$YourTurns"@) == player_of(s).turns_played,
{
    lemma_numbers_of_the_player_0(s, depth, hops);
    lemma_numbers_of_the_player_1(s, depth, hops);
    lemma_numbers_of_the_player_2(s, depth, hops);
    lemma_numbers_of_the_player_3(s, depth, hops);
}

proof fn lemma_numbers_of_the_player_0(s: SceneView, depth: u32, hops: u32)
    requires
        is_set(s),
    ensures
        count_value(s, depth, hops, "Count$YourLifeTotal"@) == player_of(s).life,
{
    let t = "Count$YourLifeTotal"@;
    reveal_strlit("Count$YourLifeTotal");
    reveal_strlit("");
    reveal_strlit("/");
    assert(t[0] == 'C');
    assert(t[6] == 'Y');
    assert(t[10] == 'L');
    reveal_strlit("PlayerCount");
    lemma_parts_from(t, "PlayerCount"@, 0);
    reveal_strlit("TargetedObjects");
    lemma_parts_from(t, "TargetedObjects"@, 0);
    reveal_strlit("Count$xPaid");
    lemma_parts_from(t, "Count$xPaid"@, 6);
    reveal_strlit("Count$XPaid");
    lemma_parts_from(t, "Count$XPaid"@, 6);
    reveal_strlit("Count$CastTotalManaSpent ");
    lemma_parts_from(t, "Count$CastTotalManaSpent "@, 6);
    reveal_strlit("Count$CastTotalManaSpent");
    lemma_parts_from(t, "Count$CastTotalManaSpent"@, 6);
    reveal_strlit("Count$TriggerRememberAmount");
    lemma_parts_from(t, "Count$TriggerRememberAmount"@, 6);
    reveal_strlit("Count$OptionalKeywordAmount");
    lemma_parts_from(t, "Count$OptionalKeywordAmount"@, 6);
    reveal_strlit("Count$ChosenNumber");
    lemma_parts_from(t, "Count$ChosenNumber"@, 6);
    reveal_strlit("TriggerCount$Result");
    lemma_parts_from(t, "TriggerCount$Result"@, 0);
    reveal_strlit("TriggerCountMax$Result");
    lemma_parts_from(t, "TriggerCountMax$Result"@, 0);
    reveal_strlit("Count$Converge");
    lemma_parts_from(t, "Count$Converge"@, 6);
    reveal_strlit("Count$Sunburst");
    lemma_parts_from(t, "Count$Sunburst"@, 6);
    reveal_strlit("Count$Adamant");
    lemma_parts_from(t, "Count$Adamant"@, 6);
    reveal_strlit("Count$FinalChapterNr");
    lemma_parts_from(t, "Count$FinalChapterNr"@, 6);
    reveal_strlit("Count$YourSpeed");
    lemma_parts_from(t, "Count$YourSpeed"@, 10);
    reveal_strlit("Count$DomainActivePlayer");
    lemma_parts_from(t, "Count$DomainActivePlayer"@, 6);
    reveal_strlit("Count$Domain");
    lemma_parts_from(t, "Count$Domain"@, 6);
    reveal_strlit("Count$Party");
    lemma_parts_from(t, "Count$Party"@, 6);
    lemma_starts(t, Seq::empty());
    assert(t + Seq::<char>::empty() =~= t);
}

proof fn lemma_numbers_of_the_player_1(s: SceneView, depth: u32, hops: u32)
    requires
        is_set(s),
    ensures
        count_value(s, depth, hops, "Count$YouDrewThisTurn"@) == player_of(s).drawn_this_turn,
{
    let t = "Count$YouDrewThisTurn"@;
    reveal_strlit("Count$YouDrewThisTurn");
    reveal_strlit("");
    reveal_strlit("/");
    assert(t[0] == 'C');
    assert(t[6] == 'Y');
    assert(t[9] == 'D');
    reveal_strlit("PlayerCount");
    lemma_parts_from(t, "PlayerCount"@, 0);
    reveal_strlit("TargetedObjects");
    lemma_parts_from(t, "TargetedObjects"@, 0);
    reveal_strlit("Count$xPaid");
    lemma_parts_from(t, "Count$xPaid"@, 6);
    reveal_strlit("Count$XPaid");
    lemma_parts_from(t, "Count$XPaid"@, 6);
    reveal_strlit("Count$CastTotalManaSpent ");
    lemma_parts_from(t, "Count$CastTotalManaSpent "@, 6);
    reveal_strlit("Count$CastTotalManaSpent");
    lemma_parts_from(t, "Count$CastTotalManaSpent"@, 6);
    reveal_strlit("Count$TriggerRememberAmount");
    lemma_parts_from(t, "Count$TriggerRememberAmount"@, 6);
    reveal_strlit("Count$OptionalKeywordAmount");
    lemma_parts_from(t, "Count$OptionalKeywordAmount"@, 6);
    reveal_strlit("Count$ChosenNumber");
    lemma_parts_from(t, "Count$ChosenNumber"@, 6);
    reveal_strlit("TriggerCount$Result");
    lemma_parts_from(t, "TriggerCount$Result"@, 0);
    reveal_strlit("TriggerCountMax$Result");
    lemma_parts_from(t, "TriggerCountMax$Result"@, 0);
    reveal_strlit("Count$Converge");
    lemma_parts_from(t, "Count$Converge"@, 6);
    reveal_strlit("Count$Sunburst");
    lemma_parts_from(t, "Count$Sunburst"@, 6);
    reveal_strlit("Count$Adamant");
    lemma_parts_from(t, "Count$Adamant"@, 6);
    reveal_strlit("Count$FinalChapterNr");
    lemma_parts_from(t, "Count$FinalChapterNr"@, 6);
    reveal_strlit("Count$YourSpeed");
    lemma_parts_from(t, "Count$YourSpeed"@, 9);
    reveal_strlit("Count$DomainActivePlayer");
    lemma_parts_from(t, "Count$DomainActivePlayer"@, 6);
    reveal_strlit("Count$Domain");
    lemma_parts_from(t, "Count$Domain"@, 6);
    reveal_strlit("Count$Party");
    lemma_parts_from(t, "Count$Party"@, 6);
    reveal_strlit("Count$YourLifeTotal");
    lemma_parts_from(t, "Count$YourLifeTotal"@, 9);
    lemma_starts(t, Seq::empty());
    assert(t + Seq::<char>::empty() =~= t);
}

proof fn lemma_numbers_of_the_player_2(s: SceneView, depth: u32, hops: u32)
    requires
        is_set(s),
    ensures
        count_value(s, depth, hops, "Count$YourSpeed"@) == player_of(s).speed,
{
    let t = "Count$YourSpeed"@;
    reveal_strlit("Count$YourSpeed");
    reveal_strlit("");
    reveal_strlit("/");
    assert(t[0] == 'C');
    assert(t[6] == 'Y');
    reveal_strlit("PlayerCount");
    lemma_parts_from(t, "PlayerCount"@, 0);
    reveal_strlit("TargetedObjects");
    lemma_parts_from(t, "TargetedObjects"@, 0);
    reveal_strlit("Count$xPaid");
    lemma_parts_from(t, "Count$xPaid"@, 6);
    reveal_strlit("Count$XPaid");
    lemma_parts_from(t, "Count$XPaid"@, 6);
    reveal_strlit("Count$CastTotalManaSpent ");
    lemma_parts_from(t, "Count$CastTotalManaSpent "@, 6);
    reveal_strlit("Count$CastTotalManaSpent");
    lemma_parts_from(t, "Count$CastTotalManaSpent"@, 6);
    reveal_strlit("Count$TriggerRememberAmount");
    lemma_parts_from(t, "Count$TriggerRememberAmount"@, 6);
    reveal_strlit("Count$OptionalKeywordAmount");
    lemma_parts_from(t, "Count$OptionalKeywordAmount"@, 6);
    reveal_strlit("Count$ChosenNumber");
    lemma_parts_from(t, "Count$ChosenNumber"@, 6);
    reveal_strlit("TriggerCount$Result");
    lemma_parts_from(t, "TriggerCount$Result"@, 0);
    reveal_strlit("TriggerCountMax$Result");
    lemma_parts_from(t, "TriggerCountMax$Result"@, 0);
    reveal_strlit("Count$Converge");
    lemma_parts_from(t, "Count$Converge"@, 6);
    reveal_strlit("Count$Sunburst");
    lemma_parts_from(t, "Count$Sunburst"@, 6);
    reveal_strlit("Count$Adamant");
    lemma_parts_from(t, "Count$Adamant"@, 6);
    reveal_strlit("Count$FinalChapterNr");
    lemma_parts_from(t, "Count$FinalChapterNr"@, 6);
    lemma_starts(t, Seq::empty());
    assert(t + Seq::<char>::empty() =~= t);
}

proof fn lemma_numbers_of_the_player_3(s: SceneView, depth: u32, hops: u32)
    requires
        is_set(s),
    ensures
        count_value(s, depth, hops, "Count$YourTurns"@) == player_of(s).turns_played,
{
    let t = "Count$YourTurns"@;
    reveal_strlit("Count$YourTurns");
    reveal_strlit("");
    reveal_strlit("/");
    assert(t[0] == 'C');
    assert(t[6] == 'Y');
    assert(t[9] == 'r');
    assert(t[10] == 'T');
    reveal_strlit("PlayerCount");
    lemma_parts_from(t, "PlayerCount"@, 0);
    reveal_strlit("TargetedObjects");
    lemma_parts_from(t, "TargetedObjects"@, 0);
    reveal_strlit("Count$xPaid");
    lemma_parts_from(t, "Count$xPaid"@, 6);
    reveal_strlit("Count$XPaid");
    lemma_parts_from(t, "Count$XPaid"@, 6);
    reveal_strlit("Count$CastTotalManaSpent ");
    lemma_parts_from(t, "Count$CastTotalManaSpent "@, 6);
    reveal_strlit("Count$CastTotalManaSpent");
    lemma_parts_from(t, "Count$CastTotalManaSpent"@, 6);
    reveal_strlit("Count$TriggerRememberAmount");
    lemma_parts_from(t, "Count$TriggerRememberAmount"@, 6);
    reveal_strlit("Count$OptionalKeywordAmount");
    lemma_parts_from(t, "Count$OptionalKeywordAmount"@, 6);
    reveal_strlit("Count$ChosenNumber");
    lemma_parts_from(t, "Count$ChosenNumber"@, 6);
    reveal_strlit("TriggerCount$Result");
    lemma_parts_from(t, "TriggerCount$Result"@, 0);
    reveal_strlit("TriggerCountMax$Result");
    lemma_parts_from(t, "TriggerCountMax$Result"@, 0);
    reveal_strlit("Count$Converge");
    lemma_parts_from(t, "Count$Converge"@, 6);
    reveal_strlit("Count$Sunburst");
    lemma_parts_from(t, "Count$Sunburst"@, 6);
    reveal_strlit("Count$Adamant");
    lemma_parts_from(t, "Count$Adamant"@, 6);
    reveal_strlit("Count$FinalChapterNr");
    lemma_parts_from(t, "Count$FinalChapterNr"@, 6);
    reveal_strlit("Count$YourSpeed");
    lemma_parts_from(t, "Count$YourSpeed"@, 10);
    reveal_strlit("Count$DomainActivePlayer");
    lemma_parts_from(t, "Count$DomainActivePlayer"@, 6);
    reveal_strlit("Count$Domain");
    lemma_parts_from(t, "Count$Domain"@, 6);
    reveal_strlit("Count$Party");
    lemma_parts_from(t, "Count$Party"@, 6);
    reveal_strlit("Count$YourLifeTotal");
    lemma_parts_from(t, "Count$YourLifeTotal"@, 10);
    reveal_strlit("Count$YouDrewThisTurn");
    lemma_parts_from(t, "Count$YouDrewThisTurn"@, 9);
    reveal_strlit("Count$OppGreatestLifeTotal");
    lemma_parts_from(t, "Count$OppGreatestLifeTotal"@, 6);
    reveal_strlit("Count$Metalcraft.");
    lemma_parts_from(t, "Count$Metalcraft."@, 6);
    reveal_strlit("Count$MaxSpeed.");
    lemma_parts_from(t, "Count$MaxSpeed."@, 6);
    reveal_strlit("Count$AttackersDeclared");
    lemma_parts_from(t, "Count$AttackersDeclared"@, 6);
    reveal_strlit("Count$TopOfLibraryCMC");
    lemma_parts_from(t, "Count$TopOfLibraryCMC"@, 6);
    reveal_strlit("Count$OptionalGenericCostPaid.");
    lemma_parts_from(t, "Count$OptionalGenericCostPaid."@, 6);
    reveal_strlit("Count$KickedCount");
    lemma_parts_from(t, "Count$KickedCount"@, 6);
    reveal_strlit("Count$Kicked.");
    lemma_parts_from(t, "Count$Kicked."@, 6);
    reveal_strlit("Count$UrzaLands.");
    lemma_parts_from(t, "Count$UrzaLands."@, 6);
    reveal_strlit("Count$PromisedGift.");
    lemma_parts_from(t, "Count$PromisedGift."@, 6);
    reveal_strlit("Count$PromisedGift");
    lemma_parts_from(t, "Count$PromisedGift"@, 6);
    reveal_strlit("Count$Valid");
    lemma_parts_from(t, "Count$Valid"@, 6);
    reveal_strlit("Count$Valid ");
    lemma_parts_from(t, "Count$Valid "@, 6);
    reveal_strlit("Count$Devotion.");
    lemma_parts_from(t, "Count$Devotion."@, 6);
    reveal_strlit("Count$Compare ");
    lemma_parts_from(t, "Count$Compare "@, 6);
    reveal_strlit("Count$ColorsColorIdentity");
    lemma_parts_from(t, "Count$ColorsColorIdentity"@, 6);
    reveal_strlit("Count$CardPower");
    lemma_parts_from(t, "Count$CardPower"@, 6);
    reveal_strlit("Count$CardToughness");
    lemma_parts_from(t, "Count$CardToughness"@, 6);
    lemma_starts(t, Seq::empty());
    assert(t + Seq::<char>::empty() =~= t);
}

/// The number that was chosen for the card, the colors it was paid with, its chapters, and its damage.
pub proof fn law_numbers_of_the_card(s: SceneView, depth: u32, hops: u32)
    requires
        is_set(s),
    ensures
        count_value(s, depth, hops, "Count$ChosenNumber"@) == if card_of(s).chosen_number is Some {
            card_of(s).chosen_number->0
        } else {
            0
        },
        count_value(s, depth, hops, "Count$Converge"@) == card_of(s).sunburst,
        count_value(s, depth, hops, "Count$Sunburst"@) == card_of(s).sunburst,
        count_value(s, depth, hops, "Count$FinalChapterNr"@) == card_of(s).final_chapter,
        count_value(s, depth, hops, "Count$TotalDamageDoneByThisTurn"@) == card_of(s).total_damage_done_this_turn,
{
    lemma_numbers_of_the_card_0(s, depth, hops);
    lemma_numbers_of_the_card_1(s, depth, hops);
    lemma_numbers_of_the_card_2(s, depth, hops);
    lemma_numbers_of_the_card_3(s, depth, hops);
    lemma_numbers_of_the_card_4(s, depth, hops);
}

proof fn lemma_numbers_of_the_card_0(s: SceneView, depth: u32, hops: u32)
    requires
        is_set(s),
    ensures
        count_value(s, depth, hops, "Count$ChosenNumber"@) == if card_of(s).chosen_number is Some {
            card_of(s).chosen_number->0
        } else {
            0
        },
{
    let t = "Count$ChosenNumber"@;
    reveal_strlit("Count$ChosenNumber");
    reveal_strlit("");
    reveal_strlit("/");
    assert(t[0] == 'C');
    assert(t[6] == 'C');
    assert(t[7] == 'h');
    reveal_strlit("PlayerCount");
    lemma_parts_from(t, "PlayerCount"@, 0);
    reveal_strlit("TargetedObjects");
    lemma_parts_from(t, "TargetedObjects"@, 0);
    reveal_strlit("Count$xPaid");
    lemma_parts_from(t, "Count$xPaid"@, 6);
    reveal_strlit("Count$XPaid");
    lemma_parts_from(t, "Count$XPaid"@, 6);
    reveal_strlit("Count$CastTotalManaSpent ");
    lemma_parts_from(t, "Count$CastTotalManaSpent "@, 7);
    reveal_strlit("Count$CastTotalManaSpent");
    lemma_parts_from(t, "Count$CastTotalManaSpent"@, 7);
    reveal_strlit("Count$TriggerRememberAmount");
    lemma_parts_from(t, "Count$TriggerRememberAmount"@, 6);
    reveal_strlit("Count$OptionalKeywordAmount");
    lemma_parts_from(t, "Count$OptionalKeywordAmount"@, 6);
    lemma_starts(t, Seq::empty());
    assert(t + Seq::<char>::empty() =~= t);
}

proof fn lemma_numbers_of_the_card_1(s: SceneView, depth: u32, hops: u32)
    requires
        is_set(s),
    ensures
        count_value(s, depth, hops, "Count$Converge"@) == card_of(s).sunburst,
{
    let t = "Count$Converge"@;
    reveal_strlit("Count$Converge");
    reveal_strlit("");
    reveal_strlit("/");
    assert(t[0] == 'C');
    assert(t[6] == 'C');
    assert(t[7] == 'o');
    reveal_strlit("PlayerCount");
    lemma_parts_from(t, "PlayerCount"@, 0);
    reveal_strlit("TargetedObjects");
    lemma_parts_from(t, "TargetedObjects"@, 0);
    reveal_strlit("Count$xPaid");
    lemma_parts_from(t, "Count$xPaid"@, 6);
    reveal_strlit("Count$XPaid");
    lemma_parts_from(t, "Count$XPaid"@, 6);
    reveal_strlit("Count$CastTotalManaSpent ");
    lemma_parts_from(t, "Count$CastTotalManaSpent "@, 7);
    reveal_strlit("Count$CastTotalManaSpent");
    lemma_parts_from(t, "Count$CastTotalManaSpent"@, 7);
    reveal_strlit("Count$TriggerRememberAmount");
    lemma_parts_from(t, "Count$TriggerRememberAmount"@, 6);
    reveal_strlit("Count$OptionalKeywordAmount");
    lemma_parts_from(t, "Count$OptionalKeywordAmount"@, 6);
    reveal_strlit("Count$ChosenNumber");
    lemma_parts_from(t, "Count$ChosenNumber"@, 7);
    reveal_strlit("TriggerCount$Result");
    lemma_parts_from(t, "TriggerCount$Result"@, 0);
    reveal_strlit("TriggerCountMax$Result");
    lemma_parts_from(t, "TriggerCountMax$Result"@, 0);
    lemma_starts(t, Seq::empty());
    assert(t + Seq::<char>::empty() =~= t);
}

proof fn lemma_numbers_of_the_card_2(s: SceneView, depth: u32, hops: u32)
    requires
        is_set(s),
    ensures
        count_value(s, depth, hops, "Count$Sunburst"@) == card_of(s).sunburst,
{
    let t = "Count$Sunburst"@;
    reveal_strlit("Count$Sunburst");
    reveal_strlit("");
    reveal_strlit("/");
    assert(t[0] == 'C');
    assert(t[6] == 'S');
    reveal_strlit("PlayerCount");
    lemma_parts_from(t, "PlayerCount"@, 0);
    reveal_strlit("TargetedObjects");
    lemma_parts_from(t, "TargetedObjects"@, 0);
    reveal_strlit("Count$xPaid");
    lemma_parts_from(t, "Count$xPaid"@, 6);
    reveal_strlit("Count$XPaid");
    lemma_parts_from(t, "Count$XPaid"@, 6);
    reveal_strlit("Count$CastTotalManaSpent ");
    lemma_parts_from(t, "Count$CastTotalManaSpent "@, 6);
    reveal_strlit("Count$CastTotalManaSpent");
    lemma_parts_from(t, "Count$CastTotalManaSpent"@, 6);
    reveal_strlit("Count$TriggerRememberAmount");
    lemma_parts_from(t, "Count$TriggerRememberAmount"@, 6);
    reveal_strlit("Count$OptionalKeywordAmount");
    lemma_parts_from(t, "Count$OptionalKeywordAmount"@, 6);
    reveal_strlit("Count$ChosenNumber");
    lemma_parts_from(t, "Count$ChosenNumber"@, 6);
    reveal_strlit("TriggerCount$Result");
    lemma_parts_from(t, "TriggerCount$Result"@, 0);
    reveal_strlit("TriggerCountMax$Result");
    lemma_parts_from(t, "TriggerCountMax$Result"@, 0);
    reveal_strlit("Count$Converge");
    lemma_parts_from(t, "Count$Converge"@, 6);
    lemma_starts(t, Seq::empty());
    assert(t + Seq::<char>::empty() =~= t);
}

proof fn lemma_numbers_of_the_card_3(s: SceneView, depth: u32, hops: u32)
    requires
        is_set(s),
    ensures
        count_value(s, depth, hops, "Count$FinalChapterNr"@) == card_of(s).final_chapter,
{
    let t = "Count$FinalChapterNr"@;
    reveal_strlit("Count$FinalChapterNr");
    reveal_strlit("");
    reveal_strlit("/");
    assert(t[0] == 'C');
    assert(t[6] == 'F');
    reveal_strlit("PlayerCount");
    lemma_parts_from(t, "PlayerCount"@, 0);
    reveal_strlit("TargetedObjects");
    lemma_parts_from(t, "TargetedObjects"@, 0);
    reveal_strlit("Count$xPaid");
    lemma_parts_from(t, "Count$xPaid"@, 6);
    reveal_strlit("Count$XPaid");
    lemma_parts_from(t, "Count$XPaid"@, 6);
    reveal_strlit("Count$CastTotalManaSpent ");
    lemma_parts_from(t, "Count$CastTotalManaSpent "@, 6);
    reveal_strlit("Count$CastTotalManaSpent");
    lemma_parts_from(t, "Count$CastTotalManaSpent"@, 6);
    reveal_strlit("Count$TriggerRememberAmount");
    lemma_parts_from(t, "Count$TriggerRememberAmount"@, 6);
    reveal_strlit("Count$OptionalKeywordAmount");
    lemma_parts_from(t, "Count$OptionalKeywordAmount"@, 6);
    reveal_strlit("Count$ChosenNumber");
    lemma_parts_from(t, "Count$ChosenNumber"@, 6);
    reveal_strlit("TriggerCount$Result");
    lemma_parts_from(t, "TriggerCount$Result"@, 0);
    reveal_strlit("TriggerCountMax$Result");
    lemma_parts_from(t, "TriggerCountMax$Result"@, 0);
    reveal_strlit("Count$Converge");
    lemma_parts_from(t, "Count$Converge"@, 6);
    reveal_strlit("Count$Sunburst");
    lemma_parts_from(t, "Count$Sunburst"@, 6);
    reveal_strlit("Count$Adamant");
    lemma_parts_from(t, "Count$Adamant"@, 6);
    lemma_starts(t, Seq::empty());
    assert(t + Seq::<char>::empty() =~= t);
}

proof fn lemma_numbers_of_the_card_4(s: SceneView, depth: u32, hops: u32)
    requires
        is_set(s),
    ensures
        count_value(s, depth, hops, "Count$TotalDamageDoneByThisTurn"@) == card_of(s).total_damage_done_this_turn,
{
    let t = "Count$TotalDamageDoneByThisTurn"@;
    reveal_strlit("Count$TotalDamageDoneByThisTurn");
    reveal_strlit("");
    reveal_strlit("/");
    assert(t[0] == 'C');
    assert(t[6] == 'T');
    assert(t[7] == 'o');
    assert(t[8] == 't');
    reveal_strlit("PlayerCount");
    lemma_parts_from(t, "PlayerCount"@, 0);
    reveal_strlit("TargetedObjects");
    lemma_parts_from(t, "TargetedObjects"@, 0);
    reveal_strlit("Count$xPaid");
    lemma_parts_from(t, "Count$xPaid"@, 6);
    reveal_strlit("Count$XPaid");
    lemma_parts_from(t, "Count$XPaid"@, 6);
    reveal_strlit("Count$CastTotalManaSpent ");
    lemma_parts_from(t, "Count$CastTotalManaSpent "@, 6);
    reveal_strlit("Count$CastTotalManaSpent");
    lemma_parts_from(t, "Count$CastTotalManaSpent"@, 6);
    reveal_strlit("Count$TriggerRememberAmount");
    lemma_parts_from(t, "Count$TriggerRememberAmount"@, 7);
    reveal_strlit("Count$OptionalKeywordAmount");
    lemma_parts_from(t, "Count$OptionalKeywordAmount"@, 6);
    reveal_strlit("Count$ChosenNumber");
    lemma_parts_from(t, "Count$ChosenNumber"@, 6);
    reveal_strlit("TriggerCount$Result");
    lemma_parts_from(t, "TriggerCount$Result"@, 0);
    reveal_strlit("TriggerCountMax$Result");
    lemma_parts_from(t, "TriggerCountMax$Result"@, 0);
    reveal_strlit("Count$Converge");
    lemma_parts_from(t, "Count$Converge"@, 6);
    reveal_strlit("Count$Sunburst");
    lemma_parts_from(t, "Count$Sunburst"@, 6);
    reveal_strlit("Count$Adamant");
    lemma_parts_from(t, "Count$Adamant"@, 6);
    reveal_strlit("Count$FinalChapterNr");
    lemma_parts_from(t, "Count$FinalChapterNr"@, 6);
    reveal_strlit("Count$YourSpeed");
    lemma_parts_from(t, "Count$YourSpeed"@, 6);
    reveal_strlit("Count$DomainActivePlayer");
    lemma_parts_from(t, "Count$DomainActivePlayer"@, 6);
    reveal_strlit("Count$Domain");
    lemma_parts_from(t, "Count$Domain"@, 6);
    reveal_strlit("Count$Party");
    lemma_parts_from(t, "Count$Party"@, 6);
    reveal_strlit("Count$YourLifeTotal");
    lemma_parts_from(t, "Count$YourLifeTotal"@, 6);
    reveal_strlit("Count$YouDrewThisTurn");
    lemma_parts_from(t, "Count$YouDrewThisTurn"@, 6);
    reveal_strlit("Count$OppGreatestLifeTotal");
    lemma_parts_from(t, "Count$OppGreatestLifeTotal"@, 6);
    reveal_strlit("Count$Metalcraft.");
    lemma_parts_from(t, "Count$Metalcraft."@, 6);
    reveal_strlit("Count$MaxSpeed.");
    lemma_parts_from(t, "Count$MaxSpeed."@, 6);
    reveal_strlit("Count$AttackersDeclared");
    lemma_parts_from(t, "Count$AttackersDeclared"@, 6);
    reveal_strlit("Count$TopOfLibraryCMC");
    lemma_parts_from(t, "Count$TopOfLibraryCMC"@, 8);
    reveal_strlit("Count$OptionalGenericCostPaid.");
    lemma_parts_from(t, "Count$OptionalGenericCostPaid."@, 6);
    reveal_strlit("Count$KickedCount");
    lemma_parts_from(t, "Count$KickedCount"@, 6);
    reveal_strlit("Count$Kicked.");
    lemma_parts_from(t, "Count$Kicked."@, 6);
    reveal_strlit("Count$UrzaLands.");
    lemma_parts_from(t, "Count$UrzaLands."@, 6);
    reveal_strlit("Count$PromisedGift.");
    lemma_parts_from(t, "Count$PromisedGift."@, 6);
    reveal_strlit("Count$PromisedGift");
    lemma_parts_from(t, "Count$PromisedGift"@, 6);
    reveal_strlit("Count$Valid");
    lemma_parts_from(t, "Count$Valid"@, 6);
    reveal_strlit("Count$Valid ");
    lemma_parts_from(t, "Count$Valid "@, 6);
    reveal_strlit("Count$Devotion.");
    lemma_parts_from(t, "Count$Devotion."@, 6);
    reveal_strlit("Count$Compare ");
    lemma_parts_from(t, "Count$Compare "@, 6);
    reveal_strlit("Count$ColorsColorIdentity");
    lemma_parts_from(t, "Count$ColorsColorIdentity"@, 6);
    reveal_strlit("Count$CardPower");
    lemma_parts_from(t, "Count$CardPower"@, 6);
    reveal_strlit("Count$CardToughness");
    lemma_parts_from(t, "Count$CardToughness"@, 6);
    reveal_strlit("Count$YourTurns");
    lemma_parts_from(t, "Count$YourTurns"@, 6);
    reveal_strlit("Count$CardCounters.");
    lemma_parts_from(t, "Count$CardCounters."@, 6);
    lemma_starts(t, Seq::empty());
    assert(t + Seq::<char>::empty() =~= t);
}

/// The cards in the zones of the player.
pub proof fn law_cards_counted_by_zone(s: SceneView, depth: u32, hops: u32)
    requires
        is_set(s),
    ensures
        count_value(s, depth, hops, "Count$InYourHand"@) == s.game.in_zone(ZoneType::Hand, s.you).len() as i32,
        count_value(s, depth, hops, "Count$InYourYard"@) == s.game.in_zone(ZoneType::Graveyard, s.you).len() as i32,
        count_value(s, depth, hops, "Count$InYourLibrary"@) == s.game.in_zone(ZoneType::Library, s.you).len() as i32,
        count_value(s, depth, hops, "Count$InYourExile"@) == s.game.in_zone(ZoneType::Exile, s.you).len() as i32,
        count_value(s, depth, hops, "Count$InYourBattlefield"@) == s.game.in_zone(ZoneType::Battlefield, s.you).len() as i32,
        count_value(s, depth, hops, "Count$CardsInYourHand"@) == s.game.in_zone(ZoneType::Hand, s.you).len() as i32,
        count_value(s, depth, hops, "Count$CardsInYourLibrary"@) == s.game.in_zone(ZoneType::Library, s.you).len() as i32,
{
    lemma_cards_counted_by_zone_0(s, depth, hops);
    lemma_cards_counted_by_zone_1(s, depth, hops);
    lemma_cards_counted_by_zone_2(s, depth, hops);
    lemma_cards_counted_by_zone_3(s, depth, hops);
    lemma_cards_counted_by_zone_4(s, depth, hops);
    lemma_cards_counted_by_zone_5(s, depth, hops);
    lemma_cards_counted_by_zone_6(s, depth, hops);
}

proof fn lemma_cards_counted_by_zone_0(s: SceneView, depth: u32, hops: u32)
    requires
        is_set(s),
    ensures
        count_value(s, depth, hops, "Count$InYourHand"@) == s.game.in_zone(ZoneType::Hand, s.you).len() as i32,
{
    let t = "Count$InYourHand"@;
    reveal_strlit("Count$InYourHand");
    reveal_strlit("");
    reveal_strlit("/");
    assert(t[0] == 'C');
    assert(t[6] == 'I');
    reveal_strlit("PlayerCount");
    lemma_parts_from(t, "PlayerCount"@, 0);
    reveal_strlit("TargetedObjects");
    lemma_parts_from(t, "TargetedObjects"@, 0);
    reveal_strlit("Count$xPaid");
    lemma_parts_from(t, "Count$xPaid"@, 6);
    reveal_strlit("Count$XPaid");
    lemma_parts_from(t, "Count$XPaid"@, 6);
    reveal_strlit("Count$CastTotalManaSpent ");
    lemma_parts_from(t, "Count$CastTotalManaSpent "@, 6);
    reveal_strlit("Count$CastTotalManaSpent");
    lemma_parts_from(t, "Count$CastTotalManaSpent"@, 6);
    reveal_strlit("Count$TriggerRememberAmount");
    lemma_parts_from(t, "Count$TriggerRememberAmount"@, 6);
    reveal_strlit("Count$OptionalKeywordAmount");
    lemma_parts_from(t, "Count$OptionalKeywordAmount"@, 6);
    reveal_strlit("Count$ChosenNumber");
    lemma_parts_from(t, "Count$ChosenNumber"@, 6);
    reveal_strlit("TriggerCount$Result");
    lemma_parts_from(t, "TriggerCount$Result"@, 0);
    reveal_strlit("TriggerCountMax$Result");
    lemma_parts_from(t, "TriggerCountMax$Result"@, 0);
    reveal_strlit("Count$Converge");
    lemma_parts_from(t, "Count$Converge"@, 6);
    reveal_strlit("Count$Sunburst");
    lemma_parts_from(t, "Count$Sunburst"@, 6);
    reveal_strlit("Count$Adamant");
    lemma_parts_from(t, "Count$Adamant"@, 6);
    reveal_strlit("Count$FinalChapterNr");
    lemma_parts_from(t, "Count$FinalChapterNr"@, 6);
    reveal_strlit("Count$YourSpeed");
    lemma_parts_from(t, "Count$YourSpeed"@, 6);
    reveal_strlit("Count$DomainActivePlayer");
    lemma_parts_from(t, "Count$DomainActivePlayer"@, 6);
    reveal_strlit("Count$Domain");
    lemma_parts_from(t, "Count$Domain"@, 6);
    reveal_strlit("Count$Party");
    lemma_parts_from(t, "Count$Party"@, 6);
    reveal_strlit("Count$YourLifeTotal");
    lemma_parts_from(t, "Count$YourLifeTotal"@, 6);
    reveal_strlit("Count$YouDrewThisTurn");
    lemma_parts_from(t, "Count$YouDrewThisTurn"@, 6);
    reveal_strlit("Count$OppGreatestLifeTotal");
    lemma_parts_from(t, "Count$OppGreatestLifeTotal"@, 6);
    reveal_strlit("Count$Metalcraft.");
    lemma_parts_from(t, "Count$Metalcraft."@, 6);
    reveal_strlit("Count$MaxSpeed.");
    lemma_parts_from(t, "Count$MaxSpeed."@, 6);
    reveal_strlit("Count$AttackersDeclared");
    lemma_parts_from(t, "Count$AttackersDeclared"@, 6);
    reveal_strlit("Count$TopOfLibraryCMC");
    lemma_parts_from(t, "Count$TopOfLibraryCMC"@, 6);
    reveal_strlit("Count$OptionalGenericCostPaid.");
    lemma_parts_from(t, "Count$OptionalGenericCostPaid."@, 6);
    reveal_strlit("Count$KickedCount");
    lemma_parts_from(t, "Count$KickedCount"@, 6);
    reveal_strlit("Count$Kicked.");
    lemma_parts_from(t, "Count$Kicked."@, 6);
    reveal_strlit("Count$UrzaLands.");
    lemma_parts_from(t, "Count$UrzaLands."@, 6);
    reveal_strlit("Count$PromisedGift.");
    lemma_parts_from(t, "Count$PromisedGift."@, 6);
    reveal_strlit("Count$PromisedGift");
    lemma_parts_from(t, "Count$PromisedGift"@, 6);
    reveal_strlit("Count$Valid");
    lemma_parts_from(t, "Count$Valid"@, 6);
    reveal_strlit("Count$Valid ");
    lemma_parts_from(t, "Count$Valid "@, 6);
    reveal_strlit("Count$Devotion.");
    lemma_parts_from(t, "Count$Devotion."@, 6);
    reveal_strlit("Count$Compare ");
    lemma_parts_from(t, "Count$Compare "@, 6);
    reveal_strlit("Count$ColorsColorIdentity");
    lemma_parts_from(t, "Count$ColorsColorIdentity"@, 6);
    reveal_strlit("Count$CardPower");
    lemma_parts_from(t, "Count$CardPower"@, 6);
    reveal_strlit("Count$CardToughness");
    lemma_parts_from(t, "Count$CardToughness"@, 6);
    reveal_strlit("Count$YourTurns");
    lemma_parts_from(t, "Count$YourTurns"@, 6);
    reveal_strlit("Count$CardCounters.");
    lemma_parts_from(t, "Count$CardCounters."@, 6);
    reveal_strlit("Count$TotalDamageDoneByThisTurn");
    lemma_parts_from(t, "Count$TotalDamageDoneByThisTurn"@, 6);
    reveal_strlit("Count$CardsInYour");
    lemma_parts_from(t, "Count$CardsInYour"@, 6);
    lemma_starts(t, Seq::empty());
    assert(t + Seq::<char>::empty() =~= t);
    lemma_starts("Count$InYour"@, "Hand"@);
    reveal_strlit("Count$InYour");
    reveal_strlit("Hand");
    assert(t =~= "Count$InYour"@ + "Hand"@);
}

proof fn lemma_cards_counted_by_zone_1(s: SceneView, depth: u32, hops: u32)
    requires
        is_set(s),
    ensures
        count_value(s, depth, hops, "Count$InYourYard"@) == s.game.in_zone(ZoneType::Graveyard, s.you).len() as i32,
{
    let t = "Count$InYourYard"@;
    reveal_strlit("Count$InYourYard");
    reveal_strlit("");
    reveal_strlit("/");
    assert(t[0] == 'C');
    assert(t[6] == 'I');
    reveal_strlit("PlayerCount");
    lemma_parts_from(t, "PlayerCount"@, 0);
    reveal_strlit("TargetedObjects");
    lemma_parts_from(t, "TargetedObjects"@, 0);
    reveal_strlit("Count$xPaid");
    lemma_parts_from(t, "Count$xPaid"@, 6);
    reveal_strlit("Count$XPaid");
    lemma_parts_from(t, "Count$XPaid"@, 6);
    reveal_strlit("Count$CastTotalManaSpent ");
    lemma_parts_from(t, "Count$CastTotalManaSpent "@, 6);
    reveal_strlit("Count$CastTotalManaSpent");
    lemma_parts_from(t, "Count$CastTotalManaSpent"@, 6);
    reveal_strlit("Count$TriggerRememberAmount");
    lemma_parts_from(t, "Count$TriggerRememberAmount"@, 6);
    reveal_strlit("Count$OptionalKeywordAmount");
    lemma_parts_from(t, "Count$OptionalKeywordAmount"@, 6);
    reveal_strlit("Count$ChosenNumber");
    lemma_parts_from(t, "Count$ChosenNumber"@, 6);
    reveal_strlit("TriggerCount$Result");
    lemma_parts_from(t, "TriggerCount$Result"@, 0);
    reveal_strlit("TriggerCountMax$Result");
    lemma_parts_from(t, "TriggerCountMax$Result"@, 0);
    reveal_strlit("Count$Converge");
    lemma_parts_from(t, "Count$Converge"@, 6);
    reveal_strlit("Count$Sunburst");
    lemma_parts_from(t, "Count$Sunburst"@, 6);
    reveal_strlit("Count$Adamant");
    lemma_parts_from(t, "Count$Adamant"@, 6);
    reveal_strlit("Count$FinalChapterNr");
    lemma_parts_from(t, "Count$FinalChapterNr"@, 6);
    reveal_strlit("Count$YourSpeed");
    lemma_parts_from(t, "Count$YourSpeed"@, 6);
    reveal_strlit("Count$DomainActivePlayer");
    lemma_parts_from(t, "Count$DomainActivePlayer"@, 6);
    reveal_strlit("Count$Domain");
    lemma_parts_from(t, "Count$Domain"@, 6);
    reveal_strlit("Count$Party");
    lemma_parts_from(t, "Count$Party"@, 6);
    reveal_strlit("Count$YourLifeTotal");
    lemma_parts_from(t, "Count$YourLifeTotal"@, 6);
    reveal_strlit("Count$YouDrewThisTurn");
    lemma_parts_from(t, "Count$YouDrewThisTurn"@, 6);
    reveal_strlit("Count$OppGreatestLifeTotal");
    lemma_parts_from(t, "Count$OppGreatestLifeTotal"@, 6);
    reveal_strlit("Count$Metalcraft.");
    lemma_parts_from(t, "Count$Metalcraft."@, 6);
    reveal_strlit("Count$MaxSpeed.");
    lemma_parts_from(t, "Count$MaxSpeed."@, 6);
    reveal_strlit("Count$AttackersDeclared");
    lemma_parts_from(t, "Count$AttackersDeclared"@, 6);
    reveal_strlit("Count$TopOfLibraryCMC");
    lemma_parts_from(t, "Count$TopOfLibraryCMC"@, 6);
    reveal_strlit("Count$OptionalGenericCostPaid.");
    lemma_parts_from(t, "Count$OptionalGenericCostPaid."@, 6);
    reveal_strlit("Count$KickedCount");
    lemma_parts_from(t, "Count$KickedCount"@, 6);
    reveal_strlit("Count$Kicked.");
    lemma_parts_from(t, "Count$Kicked."@, 6);
    reveal_strlit("Count$UrzaLands.");
    lemma_parts_from(t, "Count$UrzaLands."@, 6);
    reveal_strlit("Count$PromisedGift.");
    lemma_parts_from(t, "Count$PromisedGift."@, 6);
    reveal_strlit("Count$PromisedGift");
    lemma_parts_from(t, "Count$PromisedGift"@, 6);
    reveal_strlit("Count$Valid");
    lemma_parts_from(t, "Count$Valid"@, 6);
    reveal_strlit("Count$Valid ");
    lemma_parts_from(t, "Count$Valid "@, 6);
    reveal_strlit("Count$Devotion.");
    lemma_parts_from(t, "Count$Devotion."@, 6);
    reveal_strlit("Count$Compare ");
    lemma_parts_from(t, "Count$Compare "@, 6);
    reveal_strlit("Count$ColorsColorIdentity");
    lemma_parts_from(t, "Count$ColorsColorIdentity"@, 6);
    reveal_strlit("Count$CardPower");
    lemma_parts_from(t, "Count$CardPower"@, 6);
    reveal_strlit("Count$CardToughness");
    lemma_parts_from(t, "Count$CardToughness"@, 6);
    reveal_strlit("Count$YourTurns");
    lemma_parts_from(t, "Count$YourTurns"@, 6);
    reveal_strlit("Count$CardCounters.");
    lemma_parts_from(t, "Count$CardCounters."@, 6);
    reveal_strlit("Count$TotalDamageDoneByThisTurn");
    lemma_parts_from(t, "Count$TotalDamageDoneByThisTurn"@, 6);
    reveal_strlit("Count$CardsInYour");
    lemma_parts_from(t, "Count$CardsInYour"@, 6);
    lemma_starts(t, Seq::empty());
    assert(t + Seq::<char>::empty() =~= t);
    lemma_starts("Count$InYour"@, "Yard"@);
    reveal_strlit("Count$InYour");
    reveal_strlit("Yard");
    assert(t =~= "Count$InYour"@ + "Yard"@);
    reveal_strlit("Hand");
    lemma_parts_from("Yard"@, "Hand"@, 0);
}

proof fn lemma_cards_counted_by_zone_2(s: SceneView, depth: u32, hops: u32)
    requires
        is_set(s),
    ensures
        count_value(s, depth, hops, "Count$InYourLibrary"@) == s.game.in_zone(ZoneType::Library, s.you).len() as i32,
{
    let t = "Count$InYourLibrary"@;
    reveal_strlit("Count$InYourLibrary");
    reveal_strlit("");
    reveal_strlit("/");
    assert(t[0] == 'C');
    assert(t[6] == 'I');
    reveal_strlit("PlayerCount");
    lemma_parts_from(t, "PlayerCount"@, 0);
    reveal_strlit("TargetedObjects");
    lemma_parts_from(t, "TargetedObjects"@, 0);
    reveal_strlit("Count$xPaid");
    lemma_parts_from(t, "Count$xPaid"@, 6);
    reveal_strlit("Count$XPaid");
    lemma_parts_from(t, "Count$XPaid"@, 6);
    reveal_strlit("Count$CastTotalManaSpent ");
    lemma_parts_from(t, "Count$CastTotalManaSpent "@, 6);
    reveal_strlit("Count$CastTotalManaSpent");
    lemma_parts_from(t, "Count$CastTotalManaSpent"@, 6);
    reveal_strlit("Count$TriggerRememberAmount");
    lemma_parts_from(t, "Count$TriggerRememberAmount"@, 6);
    reveal_strlit("Count$OptionalKeywordAmount");
    lemma_parts_from(t, "Count$OptionalKeywordAmount"@, 6);
    reveal_strlit("Count$ChosenNumber");
    lemma_parts_from(t, "Count$ChosenNumber"@, 6);
    reveal_strlit("TriggerCount$Result");
    lemma_parts_from(t, "TriggerCount$Result"@, 0);
    reveal_strlit("TriggerCountMax$Result");
    lemma_parts_from(t, "TriggerCountMax$Result"@, 0);
    reveal_strlit("Count$Converge");
    lemma_parts_from(t, "Count$Converge"@, 6);
    reveal_strlit("Count$Sunburst");
    lemma_parts_from(t, "Count$Sunburst"@, 6);
    reveal_strlit("Count$Adamant");
    lemma_parts_from(t, "Count$Adamant"@, 6);
    reveal_strlit("Count$FinalChapterNr");
    lemma_parts_from(t, "Count$FinalChapterNr"@, 6);
    reveal_strlit("Count$YourSpeed");
    lemma_parts_from(t, "Count$YourSpeed"@, 6);
    reveal_strlit("Count$DomainActivePlayer");
    lemma_parts_from(t, "Count$DomainActivePlayer"@, 6);
    reveal_strlit("Count$Domain");
    lemma_parts_from(t, "Count$Domain"@, 6);
    reveal_strlit("Count$Party");
    lemma_parts_from(t, "Count$Party"@, 6);
    reveal_strlit("Count$YourLifeTotal");
    lemma_parts_from(t, "Count$YourLifeTotal"@, 6);
    reveal_strlit("Count$YouDrewThisTurn");
    lemma_parts_from(t, "Count$YouDrewThisTurn"@, 6);
    reveal_strlit("Count$OppGreatestLifeTotal");
    lemma_parts_from(t, "Count$OppGreatestLifeTotal"@, 6);
    reveal_strlit("Count$Metalcraft.");
    lemma_parts_from(t, "Count$Metalcraft."@, 6);
    reveal_strlit("Count$MaxSpeed.");
    lemma_parts_from(t, "Count$MaxSpeed."@, 6);
    reveal_strlit("Count$AttackersDeclared");
    lemma_parts_from(t, "Count$AttackersDeclared"@, 6);
    reveal_strlit("Count$TopOfLibraryCMC");
    lemma_parts_from(t, "Count$TopOfLibraryCMC"@, 6);
    reveal_strlit("Count$OptionalGenericCostPaid.");
    lemma_parts_from(t, "Count$OptionalGenericCostPaid."@, 6);
    reveal_strlit("Count$KickedCount");
    lemma_parts_from(t, "Count$KickedCount"@, 6);
    reveal_strlit("Count$Kicked.");
    lemma_parts_from(t, "Count$Kicked."@, 6);
    reveal_strlit("Count$UrzaLands.");
    lemma_parts_from(t, "Count$UrzaLands."@, 6);
    reveal_strlit("Count$PromisedGift.");
    lemma_parts_from(t, "Count$PromisedGift."@, 6);
    reveal_strlit("Count$PromisedGift");
    lemma_parts_from(t, "Count$PromisedGift"@, 6);
    reveal_strlit("Count$Valid");
    lemma_parts_from(t, "Count$Valid"@, 6);
    reveal_strlit("Count$Valid ");
    lemma_parts_from(t, "Count$Valid "@, 6);
    reveal_strlit("Count$Devotion.");
    lemma_parts_from(t, "Count$Devotion."@, 6);
    reveal_strlit("Count$Compare ");
    lemma_parts_from(t, "Count$Compare "@, 6);
    reveal_strlit("Count$ColorsColorIdentity");
    lemma_parts_from(t, "Count$ColorsColorIdentity"@, 6);
    reveal_strlit("Count$CardPower");
    lemma_parts_from(t, "Count$CardPower"@, 6);
    reveal_strlit("Count$CardToughness");
    lemma_parts_from(t, "Count$CardToughness"@, 6);
    reveal_strlit("Count$YourTurns");
    lemma_parts_from(t, "Count$YourTurns"@, 6);
    reveal_strlit("Count$CardCounters.");
    lemma_parts_from(t, "Count$CardCounters."@, 6);
    reveal_strlit("Count$TotalDamageDoneByThisTurn");
    lemma_parts_from(t, "Count$TotalDamageDoneByThisTurn"@, 6);
    reveal_strlit("Count$CardsInYour");
    lemma_parts_from(t, "Count$CardsInYour"@, 6);
    lemma_starts(t, Seq::empty());
    assert(t + Seq::<char>::empty() =~= t);
    lemma_starts("Count$InYour"@, "Library"@);
    reveal_strlit("Count$InYour");
    reveal_strlit("Library");
    assert(t =~= "Count$InYour"@ + "Library"@);
    reveal_strlit("Hand");
    lemma_parts_from("Library"@, "Hand"@, 0);
    reveal_strlit("Yard");
    lemma_parts_from("Library"@, "Yard"@, 0);
    reveal_strlit("Graveyard");
    lemma_parts_from("Library"@, "Graveyard"@, 0);
}

proof fn lemma_cards_counted_by_zone_3(s: SceneView, depth: u32, hops: u32)
    requires
        is_set(s),
    ensures
        count_value(s, depth, hops, "Count$InYourExile"@) == s.game.in_zone(ZoneType::Exile, s.you).len() as i32,
{
    let t = "Count$InYourExile"@;
    reveal_strlit("Count$InYourExile");
    reveal_strlit("");
    reveal_strlit("/");
    assert(t[0] == 'C');
    assert(t[6] == 'I');
    reveal_strlit("PlayerCount");
    lemma_parts_from(t, "PlayerCount"@, 0);
    reveal_strlit("TargetedObjects");
    lemma_parts_from(t, "TargetedObjects"@, 0);
    reveal_strlit("Count$xPaid");
    lemma_parts_from(t, "Count$xPaid"@, 6);
    reveal_strlit("Count$XPaid");
    lemma_parts_from(t, "Count$XPaid"@, 6);
    reveal_strlit("Count$CastTotalManaSpent ");
    lemma_parts_from(t, "Count$CastTotalManaSpent "@, 6);
    reveal_strlit("Count$CastTotalManaSpent");
    lemma_parts_from(t, "Count$CastTotalManaSpent"@, 6);
    reveal_strlit("Count$TriggerRememberAmount");
    lemma_parts_from(t, "Count$TriggerRememberAmount"@, 6);
    reveal_strlit("Count$OptionalKeywordAmount");
    lemma_parts_from(t, "Count$OptionalKeywordAmount"@, 6);
    reveal_strlit("Count$ChosenNumber");
    lemma_parts_from(t, "Count$ChosenNumber"@, 6);
    reveal_strlit("TriggerCount$Result");
    lemma_parts_from(t, "TriggerCount$Result"@, 0);
    reveal_strlit("TriggerCountMax$Result");
    lemma_parts_from(t, "TriggerCountMax$Result"@, 0);
    reveal_strlit("Count$Converge");
    lemma_parts_from(t, "Count$Converge"@, 6);
    reveal_strlit("Count$Sunburst");
    lemma_parts_from(t, "Count$Sunburst"@, 6);
    reveal_strlit("Count$Adamant");
    lemma_parts_from(t, "Count$Adamant"@, 6);
    reveal_strlit("Count$FinalChapterNr");
    lemma_parts_from(t, "Count$FinalChapterNr"@, 6);
    reveal_strlit("Count$YourSpeed");
    lemma_parts_from(t, "Count$YourSpeed"@, 6);
    reveal_strlit("Count$DomainActivePlayer");
    lemma_parts_from(t, "Count$DomainActivePlayer"@, 6);
    reveal_strlit("Count$Domain");
    lemma_parts_from(t, "Count$Domain"@, 6);
    reveal_strlit("Count$Party");
    lemma_parts_from(t, "Count$Party"@, 6);
    reveal_strlit("Count$YourLifeTotal");
    lemma_parts_from(t, "Count$YourLifeTotal"@, 6);
    reveal_strlit("Count$YouDrewThisTurn");
    lemma_parts_from(t, "Count$YouDrewThisTurn"@, 6);
    reveal_strlit("Count$OppGreatestLifeTotal");
    lemma_parts_from(t, "Count$OppGreatestLifeTotal"@, 6);
    reveal_strlit("Count$Metalcraft.");
    lemma_parts_from(t, "Count$Metalcraft."@, 6);
    reveal_strlit("Count$MaxSpeed.");
    lemma_parts_from(t, "Count$MaxSpeed."@, 6);
    reveal_strlit("Count$AttackersDeclared");
    lemma_parts_from(t, "Count$AttackersDeclared"@, 6);
    reveal_strlit("Count$TopOfLibraryCMC");
    lemma_parts_from(t, "Count$TopOfLibraryCMC"@, 6);
    reveal_strlit("Count$OptionalGenericCostPaid.");
    lemma_parts_from(t, "Count$OptionalGenericCostPaid."@, 6);
    reveal_strlit("Count$KickedCount");
    lemma_parts_from(t, "Count$KickedCount"@, 6);
    reveal_strlit("Count$Kicked.");
    lemma_parts_from(t, "Count$Kicked."@, 6);
    reveal_strlit("Count$UrzaLands.");
    lemma_parts_from(t, "Count$UrzaLands."@, 6);
    reveal_strlit("Count$PromisedGift.");
    lemma_parts_from(t, "Count$PromisedGift."@, 6);
    reveal_strlit("Count$PromisedGift");
    lemma_parts_from(t, "Count$PromisedGift"@, 6);
    reveal_strlit("Count$Valid");
    lemma_parts_from(t, "Count$Valid"@, 6);
    reveal_strlit("Count$Valid ");
    lemma_parts_from(t, "Count$Valid "@, 6);
    reveal_strlit("Count$Devotion.");
    lemma_parts_from(t, "Count$Devotion."@, 6);
    reveal_strlit("Count$Compare ");
    lemma_parts_from(t, "Count$Compare "@, 6);
    reveal_strlit("Count$ColorsColorIdentity");
    lemma_parts_from(t, "Count$ColorsColorIdentity"@, 6);
    reveal_strlit("Count$CardPower");
    lemma_parts_from(t, "Count$CardPower"@, 6);
    reveal_strlit("Count$CardToughness");
    lemma_parts_from(t, "Count$CardToughness"@, 6);
    reveal_strlit("Count$YourTurns");
    lemma_parts_from(t, "Count$YourTurns"@, 6);
    reveal_strlit("Count$CardCounters.");
    lemma_parts_from(t, "Count$CardCounters."@, 6);
    reveal_strlit("Count$TotalDamageDoneByThisTurn");
    lemma_parts_from(t, "Count$TotalDamageDoneByThisTurn"@, 6);
    reveal_strlit("Count$CardsInYour");
    lemma_parts_from(t, "Count$CardsInYour"@, 6);
    lemma_starts(t, Seq::empty());
    assert(t + Seq::<char>::empty() =~= t);
    lemma_starts("Count$InYour"@, "Exile"@);
    reveal_strlit("Count$InYour");
    reveal_strlit("Exile");
    assert(t =~= "Count$InYour"@ + "Exile"@);
    reveal_strlit("Hand");
    lemma_parts_from("Exile"@, "Hand"@, 0);
    reveal_strlit("Yard");
    lemma_parts_from("Exile"@, "Yard"@, 0);
    reveal_strlit("Graveyard");
    lemma_parts_from("Exile"@, "Graveyard"@, 0);
    reveal_strlit("Library");
    lemma_parts_from("Exile"@, "Library"@, 0);
}

proof fn lemma_cards_counted_by_zone_4(s: SceneView, depth: u32, hops: u32)
    requires
        is_set(s),
    ensures
        count_value(s, depth, hops, "Count$InYourBattlefield"@) == s.game.in_zone(ZoneType::Battlefield, s.you).len() as i32,
{
    let t = "Count$InYourBattlefield"@;
    reveal_strlit("Count$InYourBattlefield");
    reveal_strlit("");
    reveal_strlit("/");
    assert(t[0] == 'C');
    assert(t[6] == 'I');
    reveal_strlit("PlayerCount");
    lemma_parts_from(t, "PlayerCount"@, 0);
    reveal_strlit("TargetedObjects");
    lemma_parts_from(t, "TargetedObjects"@, 0);
    reveal_strlit("Count$xPaid");
    lemma_parts_from(t, "Count$xPaid"@, 6);
    reveal_strlit("Count$XPaid");
    lemma_parts_from(t, "Count$XPaid"@, 6);
    reveal_strlit("Count$CastTotalManaSpent ");
    lemma_parts_from(t, "Count$CastTotalManaSpent "@, 6);
    reveal_strlit("Count$CastTotalManaSpent");
    lemma_parts_from(t, "Count$CastTotalManaSpent"@, 6);
    reveal_strlit("Count$TriggerRememberAmount");
    lemma_parts_from(t, "Count$TriggerRememberAmount"@, 6);
    reveal_strlit("Count$OptionalKeywordAmount");
    lemma_parts_from(t, "Count$OptionalKeywordAmount"@, 6);
    reveal_strlit("Count$ChosenNumber");
    lemma_parts_from(t, "Count$ChosenNumber"@, 6);
    reveal_strlit("TriggerCount$Result");
    lemma_parts_from(t, "TriggerCount$Result"@, 0);
    reveal_strlit("TriggerCountMax$Result");
    lemma_parts_from(t, "TriggerCountMax$Result"@, 0);
    reveal_strlit("Count$Converge");
    lemma_parts_from(t, "Count$Converge"@, 6);
    reveal_strlit("Count$Sunburst");
    lemma_parts_from(t, "Count$Sunburst"@, 6);
    reveal_strlit("Count$Adamant");
    lemma_parts_from(t, "Count$Adamant"@, 6);
    reveal_strlit("Count$FinalChapterNr");
    lemma_parts_from(t, "Count$FinalChapterNr"@, 6);
    reveal_strlit("Count$YourSpeed");
    lemma_parts_from(t, "Count$YourSpeed"@, 6);
    reveal_strlit("Count$DomainActivePlayer");
    lemma_parts_from(t, "Count$DomainActivePlayer"@, 6);
    reveal_strlit("Count$Domain");
    lemma_parts_from(t, "Count$Domain"@, 6);
    reveal_strlit("Count$Party");
    lemma_parts_from(t, "Count$Party"@, 6);
    reveal_strlit("Count$YourLifeTotal");
    lemma_parts_from(t, "Count$YourLifeTotal"@, 6);
    reveal_strlit("Count$YouDrewThisTurn");
    lemma_parts_from(t, "Count$YouDrewThisTurn"@, 6);
    reveal_strlit("Count$OppGreatestLifeTotal");
    lemma_parts_from(t, "Count$OppGreatestLifeTotal"@, 6);
    reveal_strlit("Count$Metalcraft.");
    lemma_parts_from(t, "Count$Metalcraft."@, 6);
    reveal_strlit("Count$MaxSpeed.");
    lemma_parts_from(t, "Count$MaxSpeed."@, 6);
    reveal_strlit("Count$AttackersDeclared");
    lemma_parts_from(t, "Count$AttackersDeclared"@, 6);
    reveal_strlit("Count$TopOfLibraryCMC");
    lemma_parts_from(t, "Count$TopOfLibraryCMC"@, 6);
    reveal_strlit("Count$OptionalGenericCostPaid.");
    lemma_parts_from(t, "Count$OptionalGenericCostPaid."@, 6);
    reveal_strlit("Count$KickedCount");
    lemma_parts_from(t, "Count$KickedCount"@, 6);
    reveal_strlit("Count$Kicked.");
    lemma_parts_from(t, "Count$Kicked."@, 6);
    reveal_strlit("Count$UrzaLands.");
    lemma_parts_from(t, "Count$UrzaLands."@, 6);
    reveal_strlit("Count$PromisedGift.");
    lemma_parts_from(t, "Count$PromisedGift."@, 6);
    reveal_strlit("Count$PromisedGift");
    lemma_parts_from(t, "Count$PromisedGift"@, 6);
    reveal_strlit("Count$Valid");
    lemma_parts_from(t, "Count$Valid"@, 6);
    reveal_strlit("Count$Valid ");
    lemma_parts_from(t, "Count$Valid "@, 6);
    reveal_strlit("Count$Devotion.");
    lemma_parts_from(t, "Count$Devotion."@, 6);
    reveal_strlit("Count$Compare ");
    lemma_parts_from(t, "Count$Compare "@, 6);
    reveal_strlit("Count$ColorsColorIdentity");
    lemma_parts_from(t, "Count$ColorsColorIdentity"@, 6);
    reveal_strlit("Count$CardPower");
    lemma_parts_from(t, "Count$CardPower"@, 6);
    reveal_strlit("Count$CardToughness");
    lemma_parts_from(t, "Count$CardToughness"@, 6);
    reveal_strlit("Count$YourTurns");
    lemma_parts_from(t, "Count$YourTurns"@, 6);
    reveal_strlit("Count$CardCounters.");
    lemma_parts_from(t, "Count$CardCounters."@, 6);
    reveal_strlit("Count$TotalDamageDoneByThisTurn");
    lemma_parts_from(t, "Count$TotalDamageDoneByThisTurn"@, 6);
    reveal_strlit("Count$CardsInYour");
    lemma_parts_from(t, "Count$CardsInYour"@, 6);
    lemma_starts(t, Seq::empty());
    assert(t + Seq::<char>::empty() =~= t);
    lemma_starts("Count$InYour"@, "Battlefield"@);
    reveal_strlit("Count$InYour");
    reveal_strlit("Battlefield");
    assert(t =~= "Count$InYour"@ + "Battlefield"@);
    reveal_strlit("Hand");
    lemma_parts_from("Battlefield"@, "Hand"@, 0);
    reveal_strlit("Yard");
    lemma_parts_from("Battlefield"@, "Yard"@, 0);
    reveal_strlit("Graveyard");
    lemma_parts_from("Battlefield"@, "Graveyard"@, 0);
    reveal_strlit("Library");
    lemma_parts_from("Battlefield"@, "Library"@, 0);
    reveal_strlit("Exile");
    lemma_parts_from("Battlefield"@, "Exile"@, 0);
}

proof fn lemma_cards_counted_by_zone_5(s: SceneView, depth: u32, hops: u32)
    requires
        is_set(s),
    ensures
        count_value(s, depth, hops, "Count$CardsInYourHand"@) == s.game.in_zone(ZoneType::Hand, s.you).len() as i32,
{
    let t = "Count$CardsInYourHand"@;
    reveal_strlit("Count$CardsInYourHand");
    reveal_strlit("");
    reveal_strlit("/");
    assert(t[0] == 'C');
    assert(t[6] == 'C');
    assert(t[7] == 'a');
    assert(t[8] == 'r');
    assert(t[10] == 's');
    reveal_strlit("PlayerCount");
    lemma_parts_from(t, "PlayerCount"@, 0);
    reveal_strlit("TargetedObjects");
    lemma_parts_from(t, "TargetedObjects"@, 0);
    reveal_strlit("Count$xPaid");
    lemma_parts_from(t, "Count$xPaid"@, 6);
    reveal_strlit("Count$XPaid");
    lemma_parts_from(t, "Count$XPaid"@, 6);
    reveal_strlit("Count$CastTotalManaSpent ");
    lemma_parts_from(t, "Count$CastTotalManaSpent "@, 8);
    reveal_strlit("Count$CastTotalManaSpent");
    lemma_parts_from(t, "Count$CastTotalManaSpent"@, 8);
    reveal_strlit("Count$TriggerRememberAmount");
    lemma_parts_from(t, "Count$TriggerRememberAmount"@, 6);
    reveal_strlit("Count$OptionalKeywordAmount");
    lemma_parts_from(t, "Count$OptionalKeywordAmount"@, 6);
    reveal_strlit("Count$ChosenNumber");
    lemma_parts_from(t, "Count$ChosenNumber"@, 7);
    reveal_strlit("TriggerCount$Result");
    lemma_parts_from(t, "TriggerCount$Result"@, 0);
    reveal_strlit("TriggerCountMax$Result");
    lemma_parts_from(t, "TriggerCountMax$Result"@, 0);
    reveal_strlit("Count$Converge");
    lemma_parts_from(t, "Count$Converge"@, 7);
    reveal_strlit("Count$Sunburst");
    lemma_parts_from(t, "Count$Sunburst"@, 6);
    reveal_strlit("Count$Adamant");
    lemma_parts_from(t, "Count$Adamant"@, 6);
    reveal_strlit("Count$FinalChapterNr");
    lemma_parts_from(t, "Count$FinalChapterNr"@, 6);
    reveal_strlit("Count$YourSpeed");
    lemma_parts_from(t, "Count$YourSpeed"@, 6);
    reveal_strlit("Count$DomainActivePlayer");
    lemma_parts_from(t, "Count$DomainActivePlayer"@, 6);
    reveal_strlit("Count$Domain");
    lemma_parts_from(t, "Count$Domain"@, 6);
    reveal_strlit("Count$Party");
    lemma_parts_from(t, "Count$Party"@, 6);
    reveal_strlit("Count$YourLifeTotal");
    lemma_parts_from(t, "Count$YourLifeTotal"@, 6);
    reveal_strlit("Count$YouDrewThisTurn");
    lemma_parts_from(t, "Count$YouDrewThisTurn"@, 6);
    reveal_strlit("Count$OppGreatestLifeTotal");
    lemma_parts_from(t, "Count$OppGreatestLifeTotal"@, 6);
    reveal_strlit("Count$Metalcraft.");
    lemma_parts_from(t, "Count$Metalcraft."@, 6);
    reveal_strlit("Count$MaxSpeed.");
    lemma_parts_from(t, "Count$MaxSpeed."@, 6);
    reveal_strlit("Count$AttackersDeclared");
    lemma_parts_from(t, "Count$AttackersDeclared"@, 6);
    reveal_strlit("Count$TopOfLibraryCMC");
    lemma_parts_from(t, "Count$TopOfLibraryCMC"@, 6);
    reveal_strlit("Count$OptionalGenericCostPaid.");
    lemma_parts_from(t, "Count$OptionalGenericCostPaid."@, 6);
    reveal_strlit("Count$KickedCount");
    lemma_parts_from(t, "Count$KickedCount"@, 6);
    reveal_strlit("Count$Kicked.");
    lemma_parts_from(t, "Count$Kicked."@, 6);
    reveal_strlit("Count$UrzaLands.");
    lemma_parts_from(t, "Count$UrzaLands."@, 6);
    reveal_strlit("Count$PromisedGift.");
    lemma_parts_from(t, "Count$PromisedGift."@, 6);
    reveal_strlit("Count$PromisedGift");
    lemma_parts_from(t, "Count$PromisedGift"@, 6);
    reveal_strlit("Count$Valid");
    lemma_parts_from(t, "Count$Valid"@, 6);
    reveal_strlit("Count$Valid ");
    lemma_parts_from(t, "Count$Valid "@, 6);
    reveal_strlit("Count$Devotion.");
    lemma_parts_from(t, "Count$Devotion."@, 6);
    reveal_strlit("Count$Compare ");
    lemma_parts_from(t, "Count$Compare "@, 7);
    reveal_strlit("Count$ColorsColorIdentity");
    lemma_parts_from(t, "Count$ColorsColorIdentity"@, 7);
    reveal_strlit("Count$CardPower");
    lemma_parts_from(t, "Count$CardPower"@, 10);
    reveal_strlit("Count$CardToughness");
    lemma_parts_from(t, "Count$CardToughness"@, 10);
    reveal_strlit("Count$YourTurns");
    lemma_parts_from(t, "Count$YourTurns"@, 6);
    reveal_strlit("Count$CardCounters.");
    lemma_parts_from(t, "Count$CardCounters."@, 10);
    reveal_strlit("Count$TotalDamageDoneByThisTurn");
    lemma_parts_from(t, "Count$TotalDamageDoneByThisTurn"@, 6);
    lemma_starts(t, Seq::empty());
    assert(t + Seq::<char>::empty() =~= t);
    lemma_starts("Count$CardsInYour"@, "Hand"@);
    reveal_strlit("Count$CardsInYour");
    reveal_strlit("Hand");
    assert(t =~= "Count$CardsInYour"@ + "Hand"@);
}

proof fn lemma_cards_counted_by_zone_6(s: SceneView, depth: u32, hops: u32)
    requires
        is_set(s),
    ensures
        count_value(s, depth, hops, "Count$CardsInYourLibrary"@) == s.game.in_zone(ZoneType::Library, s.you).len() as i32,
{
    let t = "Count$CardsInYourLibrary"@;
    reveal_strlit("Count$CardsInYourLibrary");
    reveal_strlit("");
    reveal_strlit("/");
    assert(t[0] == 'C');
    assert(t[6] == 'C');
    assert(t[7] == 'a');
    assert(t[8] == 'r');
    assert(t[10] == 's');
    reveal_strlit("PlayerCount");
    lemma_parts_from(t, "PlayerCount"@, 0);
    reveal_strlit("TargetedObjects");
    lemma_parts_from(t, "TargetedObjects"@, 0);
    reveal_strlit("Count$xPaid");
    lemma_parts_from(t, "Count$xPaid"@, 6);
    reveal_strlit("Count$XPaid");
    lemma_parts_from(t, "Count$XPaid"@, 6);
    reveal_strlit("Count$CastTotalManaSpent ");
    lemma_parts_from(t, "Count$CastTotalManaSpent "@, 8);
    reveal_strlit("Count$CastTotalManaSpent");
    lemma_parts_from(t, "Count$CastTotalManaSpent"@, 8);
    reveal_strlit("Count$TriggerRememberAmount");
    lemma_parts_from(t, "Count$TriggerRememberAmount"@, 6);
    reveal_strlit("Count$OptionalKeywordAmount");
    lemma_parts_from(t, "Count$OptionalKeywordAmount"@, 6);
    reveal_strlit("Count$ChosenNumber");
    lemma_parts_from(t, "Count$ChosenNumber"@, 7);
    reveal_strlit("TriggerCount$Result");
    lemma_parts_from(t, "TriggerCount$Result"@, 0);
    reveal_strlit("TriggerCountMax$Result");
    lemma_parts_from(t, "TriggerCountMax$Result"@, 0);
    reveal_strlit("Count$Converge");
    lemma_parts_from(t, "Count$Converge"@, 7);
    reveal_strlit("Count$Sunburst");
    lemma_parts_from(t, "Count$Sunburst"@, 6);
    reveal_strlit("Count$Adamant");
    lemma_parts_from(t, "Count$Adamant"@, 6);
    reveal_strlit("Count$FinalChapterNr");
    lemma_parts_from(t, "Count$FinalChapterNr"@, 6);
    reveal_strlit("Count$YourSpeed");
    lemma_parts_from(t, "Count$YourSpeed"@, 6);
    reveal_strlit("Count$DomainActivePlayer");
    lemma_parts_from(t, "Count$DomainActivePlayer"@, 6);
    reveal_strlit("Count$Domain");
    lemma_parts_from(t, "Count$Domain"@, 6);
    reveal_strlit("Count$Party");
    lemma_parts_from(t, "Count$Party"@, 6);
    reveal_strlit("Count$YourLifeTotal");
    lemma_parts_from(t, "Count$YourLifeTotal"@, 6);
    reveal_strlit("Count$YouDrewThisTurn");
    lemma_parts_from(t, "Count$YouDrewThisTurn"@, 6);
    reveal_strlit("Count$OppGreatestLifeTotal");
    lemma_parts_from(t, "Count$OppGreatestLifeTotal"@, 6);
    reveal_strlit("Count$Metalcraft.");
    lemma_parts_from(t, "Count$Metalcraft."@, 6);
    reveal_strlit("Count$MaxSpeed.");
    lemma_parts_from(t, "Count$MaxSpeed."@, 6);
    reveal_strlit("Count$AttackersDeclared");
    lemma_parts_from(t, "Count$AttackersDeclared"@, 6);
    reveal_strlit("Count$TopOfLibraryCMC");
    lemma_parts_from(t, "Count$TopOfLibraryCMC"@, 6);
    reveal_strlit("Count$OptionalGenericCostPaid.");
    lemma_parts_from(t, "Count$OptionalGenericCostPaid."@, 6);
    reveal_strlit("Count$KickedCount");
    lemma_parts_from(t, "Count$KickedCount"@, 6);
    reveal_strlit("Count$Kicked.");
    lemma_parts_from(t, "Count$Kicked."@, 6);
    reveal_strlit("Count$UrzaLands.");
    lemma_parts_from(t, "Count$UrzaLands."@, 6);
    reveal_strlit("Count$PromisedGift.");
    lemma_parts_from(t, "Count$PromisedGift."@, 6);
    reveal_strlit("Count$PromisedGift");
    lemma_parts_from(t, "Count$PromisedGift"@, 6);
    reveal_strlit("Count$Valid");
    lemma_parts_from(t, "Count$Valid"@, 6);
    reveal_strlit("Count$Valid ");
    lemma_parts_from(t, "Count$Valid "@, 6);
    reveal_strlit("Count$Devotion.");
    lemma_parts_from(t, "Count$Devotion."@, 6);
    reveal_strlit("Count$Compare ");
    lemma_parts_from(t, "Count$Compare "@, 7);
    reveal_strlit("Count$ColorsColorIdentity");
    lemma_parts_from(t, "Count$ColorsColorIdentity"@, 7);
    reveal_strlit("Count$CardPower");
    lemma_parts_from(t, "Count$CardPower"@, 10);
    reveal_strlit("Count$CardToughness");
    lemma_parts_from(t, "Count$CardToughness"@, 10);
    reveal_strlit("Count$YourTurns");
    lemma_parts_from(t, "Count$YourTurns"@, 6);
    reveal_strlit("Count$CardCounters.");
    lemma_parts_from(t, "Count$CardCounters."@, 10);
    reveal_strlit("Count$TotalDamageDoneByThisTurn");
    lemma_parts_from(t, "Count$TotalDamageDoneByThisTurn"@, 6);
    lemma_starts(t, Seq::empty());
    assert(t + Seq::<char>::empty() =~= t);
    lemma_starts("Count$CardsInYour"@, "Library"@);
    reveal_strlit("Count$CardsInYour");
    reveal_strlit("Library");
    assert(t =~= "Count$CardsInYour"@ + "Library"@);
    reveal_strlit("Hand");
    lemma_parts_from("Library"@, "Hand"@, 0);
    reveal_strlit("Yard");
    lemma_parts_from("Library"@, "Yard"@, 0);
    reveal_strlit("Graveyard");
    lemma_parts_from("Library"@, "Graveyard"@, 0);
}

} // verus!
