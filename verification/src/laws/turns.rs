//! What expressions about cards in play and about a turn come to.

use vstd::prelude::*;
use crate::laws::numbers::{
    card_of, choice_text, is_set, lemma_choice, lemma_number_chars, lemma_parts_from, lemma_starts,
    player_of,
};
use crate::svar::eval::count_value;
use crate::svar::scene::SceneView;
use crate::text::{has_part, int_value, lemma_no_mark, lemma_pieces_joined, occurs_at, pieces};
use crate::types::{OptionalCost, ZoneType};

verus! {

/// The power and toughness of a card on the battlefield.
pub proof fn law_power_and_toughness(s: SceneView, depth: u32, hops: u32)
    requires
        is_set(s),
        card_of(s).zone == ZoneType::Battlefield,
    ensures
        count_value(s, depth, hops, "Count$CardPower"@) == card_of(s).power,
        count_value(s, depth, hops, "Count$CardToughness"@) == card_of(s).toughness,
{
    lemma_power(s, depth, hops);
    lemma_toughness(s, depth, hops);
}

proof fn lemma_power(s: SceneView, depth: u32, hops: u32)
    requires
        is_set(s),
        card_of(s).zone == ZoneType::Battlefield,
    ensures
        count_value(s, depth, hops, "Count$CardPower"@) == card_of(s).power,
{
    let t = "Count$CardPower"@;
    reveal_strlit("Count$CardPower");
    reveal_strlit("");
    assert(t[0] == 'C');
    assert(t[6] == 'C');
    assert(t[7] == 'a');
    assert(t[8] == 'r');
    reveal_strlit("PlayerCount");
    lemma_parts_from(t, "PlayerCount"@, 0);
    reveal_strlit("TargetedObjects");
    lemma_parts_from(t, "TargetedObjects"@, 0);
    reveal_strlit("Count$xPaid");
    lemma_parts_from(t, "Count$xPaid"@, 6);
    reveal_strlit("Count$XPaid");
    lemma_parts_from(t, "Count$XPaid"@, 6);
    reveal_strlit("Count$CastTotalManaSpent ");
    lemma_parts_from(t, "Count$CastTotalManaSpent "@, 8);
    reveal_strlit("Count$CastTotalManaSpent");
    lemma_parts_from(t, "Count$CastTotalManaSpent"@, 8);
    reveal_strlit("Count$TriggerRememberAmount");
    lemma_parts_from(t, "Count$TriggerRememberAmount"@, 6);
    reveal_strlit("Count$OptionalKeywordAmount");
    lemma_parts_from(t, "Count$OptionalKeywordAmount"@, 6);
    reveal_strlit("Count$ChosenNumber");
    lemma_parts_from(t, "Count$ChosenNumber"@, 7);
    reveal_strlit("TriggerCount$Result");
    lemma_parts_from(t, "TriggerCount$Result"@, 0);
    reveal_strlit("TriggerCountMax$Result");
    lemma_parts_from(t, "TriggerCountMax$Result"@, 0);
    reveal_strlit("Count$Converge");
    lemma_parts_from(t, "Count$Converge"@, 7);
    reveal_strlit("Count$Sunburst");
    lemma_parts_from(t, "Count$Sunburst"@, 6);
    reveal_strlit("Count$Adamant");
    lemma_parts_from(t, "Count$Adamant"@, 6);
    reveal_strlit("Count$FinalChapterNr");
    lemma_parts_from(t, "Count$FinalChapterNr"@, 6);
    reveal_strlit("Count$YourSpeed");
    lemma_parts_from(t, "Count$YourSpeed"@, 6);
    reveal_strlit("Count$DomainActivePlayer");
    lemma_parts_from(t, "Count$DomainActivePlayer"@, 6);
    reveal_strlit("Count$Domain");
    lemma_parts_from(t, "Count$Domain"@, 6);
    reveal_strlit("Count$Party");
    lemma_parts_from(t, "Count$Party"@, 6);
    reveal_strlit("Count$YourLifeTotal");
    lemma_parts_from(t, "Count$YourLifeTotal"@, 6);
    reveal_strlit("Count$YouDrewThisTurn");
    lemma_parts_from(t, "Count$YouDrewThisTurn"@, 6);
    reveal_strlit("Count$OppGreatestLifeTotal");
    lemma_parts_from(t, "Count$OppGreatestLifeTotal"@, 6);
    reveal_strlit("Count$Metalcraft.");
    lemma_parts_from(t, "Count$Metalcraft."@, 6);
    reveal_strlit("Count$MaxSpeed.");
    lemma_parts_from(t, "Count$MaxSpeed."@, 6);
    reveal_strlit("Count$AttackersDeclared");
    lemma_parts_from(t, "Count$AttackersDeclared"@, 6);
    reveal_strlit("Count$TopOfLibraryCMC");
    lemma_parts_from(t, "Count$TopOfLibraryCMC"@, 6);
    reveal_strlit("Count$OptionalGenericCostPaid.");
    lemma_parts_from(t, "Count$OptionalGenericCostPaid."@, 6);
    reveal_strlit("Count$KickedCount");
    lemma_parts_from(t, "Count$KickedCount"@, 6);
    reveal_strlit("Count$Kicked.");
    lemma_parts_from(t, "Count$Kicked."@, 6);
    reveal_strlit("Count$UrzaLands.");
    lemma_parts_from(t, "Count$UrzaLands."@, 6);
    reveal_strlit("Count$PromisedGift.");
    lemma_parts_from(t, "Count$PromisedGift."@, 6);
    reveal_strlit("Count$PromisedGift");
    lemma_parts_from(t, "Count$PromisedGift"@, 6);
    reveal_strlit("Count$Valid");
    lemma_parts_from(t, "Count$Valid"@, 6);
    reveal_strlit("Count$Valid ");
    lemma_parts_from(t, "Count$Valid "@, 6);
    reveal_strlit("Count$Devotion.");
    lemma_parts_from(t, "Count$Devotion."@, 6);
    reveal_strlit("Count$Compare ");
    lemma_parts_from(t, "Count$Compare "@, 7);
    reveal_strlit("Count$ColorsColorIdentity");
    lemma_parts_from(t, "Count$ColorsColorIdentity"@, 7);
}

proof fn lemma_toughness(s: SceneView, depth: u32, hops: u32)
    requires
        is_set(s),
        card_of(s).zone == ZoneType::Battlefield,
    ensures
        count_value(s, depth, hops, "Count$CardToughness"@) == card_of(s).toughness,
{
    let t = "Count$CardToughness"@;
    reveal_strlit("Count$CardToughness");
    reveal_strlit("");
    assert(t[0] == 'C');
    assert(t[6] == 'C');
    assert(t[7] == 'a');
    assert(t[8] == 'r');
    assert(t[10] == 'T');
    reveal_strlit("PlayerCount");
    lemma_parts_from(t, "PlayerCount"@, 0);
    reveal_strlit("TargetedObjects");
    lemma_parts_from(t, "TargetedObjects"@, 0);
    reveal_strlit("Count$xPaid");
    lemma_parts_from(t, "Count$xPaid"@, 6);
    reveal_strlit("Count$XPaid");
    lemma_parts_from(t, "Count$XPaid"@, 6);
    reveal_strlit("Count$CastTotalManaSpent ");
    lemma_parts_from(t, "Count$CastTotalManaSpent "@, 8);
    reveal_strlit("Count$CastTotalManaSpent");
    lemma_parts_from(t, "Count$CastTotalManaSpent"@, 8);
    reveal_strlit("Count$TriggerRememberAmount");
    lemma_parts_from(t, "Count$TriggerRememberAmount"@, 6);
    reveal_strlit("Count$OptionalKeywordAmount");
    lemma_parts_from(t, "Count$OptionalKeywordAmount"@, 6);
    reveal_strlit("Count$ChosenNumber");
    lemma_parts_from(t, "Count$ChosenNumber"@, 7);
    reveal_strlit("TriggerCount$Result");
    lemma_parts_from(t, "TriggerCount$Result"@, 0);
    reveal_strlit("TriggerCountMax$Result");
    lemma_parts_from(t, "TriggerCountMax$Result"@, 0);
    reveal_strlit("Count$Converge");
    lemma_parts_from(t, "Count$Converge"@, 7);
    reveal_strlit("Count$Sunburst");
    lemma_parts_from(t, "Count$Sunburst"@, 6);
    reveal_strlit("Count$Adamant");
    lemma_parts_from(t, "Count$Adamant"@, 6);
    reveal_strlit("Count$FinalChapterNr");
    lemma_parts_from(t, "Count$FinalChapterNr"@, 6);
    reveal_strlit("Count$YourSpeed");
    lemma_parts_from(t, "Count$YourSpeed"@, 6);
    reveal_strlit("Count$DomainActivePlayer");
    lemma_parts_from(t, "Count$DomainActivePlayer"@, 6);
    reveal_strlit("Count$Domain");
    lemma_parts_from(t, "Count$Domain"@, 6);
    reveal_strlit("Count$Party");
    lemma_parts_from(t, "Count$Party"@, 6);
    reveal_strlit("Count$YourLifeTotal");
    lemma_parts_from(t, "Count$YourLifeTotal"@, 6);
    reveal_strlit("Count$YouDrewThisTurn");
    lemma_parts_from(t, "Count$YouDrewThisTurn"@, 6);
    reveal_strlit("Count$OppGreatestLifeTotal");
    lemma_parts_from(t, "Count$OppGreatestLifeTotal"@, 6);
    reveal_strlit("Count$Metalcraft.");
    lemma_parts_from(t, "Count$Metalcraft."@, 6);
    reveal_strlit("Count$MaxSpeed.");
    lemma_parts_from(t, "Count$MaxSpeed."@, 6);
    reveal_strlit("Count$AttackersDeclared");
    lemma_parts_from(t, "Count$AttackersDeclared"@, 6);
    reveal_strlit("Count$TopOfLibraryCMC");
    lemma_parts_from(t, "Count$TopOfLibraryCMC"@, 6);
    reveal_strlit("Count$OptionalGenericCostPaid.");
    lemma_parts_from(t, "Count$OptionalGenericCostPaid."@, 6);
    reveal_strlit("Count$KickedCount");
    lemma_parts_from(t, "Count$KickedCount"@, 6);
    reveal_strlit("Count$Kicked.");
    lemma_parts_from(t, "Count$Kicked."@, 6);
    reveal_strlit("Count$UrzaLands.");
    lemma_parts_from(t, "Count$UrzaLands."@, 6);
    reveal_strlit("Count$PromisedGift.");
    lemma_parts_from(t, "Count$PromisedGift."@, 6);
    reveal_strlit("Count$PromisedGift");
    lemma_parts_from(t, "Count$PromisedGift"@, 6);
    reveal_strlit("Count$Valid");
    lemma_parts_from(t, "Count$Valid"@, 6);
    reveal_strlit("Count$Valid ");
    lemma_parts_from(t, "Count$Valid "@, 6);
    reveal_strlit("Count$Devotion.");
    lemma_parts_from(t, "Count$Devotion."@, 6);
    reveal_strlit("Count$Compare ");
    lemma_parts_from(t, "Count$Compare "@, 7);
    reveal_strlit("Count$ColorsColorIdentity");
    lemma_parts_from(t, "Count$ColorsColorIdentity"@, 7);
    reveal_strlit("Count$CardPower");
    lemma_parts_from(t, "Count$CardPower"@, 10);
}

/// A cost with X that was paid: the number that was paid for X.
pub proof fn law_x_that_was_paid(s: SceneView, depth: u32, hops: u32)
    requires
        is_set(s),
        s.sa.x_mana_cost_paid != 0,
    ensures
        count_value(s, depth, hops, "Count$xPaid"@) == s.sa.x_mana_cost_paid as i32,
        count_value(s, depth, hops, "Count$XPaid"@) == s.sa.x_mana_cost_paid as i32,
{
    let t = "Count$xPaid"@;
    let u = "Count$XPaid"@;
    reveal_strlit("Count$xPaid");
    reveal_strlit("Count$XPaid");
    reveal_strlit("");
    reveal_strlit("/");
    reveal_strlit("PlayerCount");
    reveal_strlit("TargetedObjects");
    lemma_parts_from(t, "PlayerCount"@, 0);
    lemma_parts_from(t, "TargetedObjects"@, 0);
    lemma_parts_from(u, "PlayerCount"@, 0);
    lemma_parts_from(u, "TargetedObjects"@, 0);
    lemma_parts_from(u, t, 6);
    lemma_starts(t, Seq::empty());
    lemma_starts(u, Seq::empty());
    assert(t + Seq::<char>::empty() =~= t);
    assert(u + Seq::<char>::empty() =~= u);
}

// ---- what happened in the turn ----

/// A text that lacks a character of another does not hold it.
pub proof fn lemma_lacks(s: Seq<char>, p: Seq<char>, k: int)
    requires
        0 <= k < p.len(),
        !s.contains(p[k]),
    ensures
        !has_part(s, p),
{
    assert forall|i: int| !occurs_at(s, p, i) by {
        if occurs_at(s, p, i) {
            assert(s.subrange(i, i + p.len())[k] == s[i + k]);
        }
    }
}

pub proof fn lemma_no_dot(a: Seq<char>)
    requires
        !a.contains('.'),
    ensures
        pieces(a, "."@) == seq![a],
{
    reveal_strlit(".");
    assert("."@ =~= seq!['.']);
    lemma_first_none(a, '.');
}

pub proof fn lemma_first_none(a: Seq<char>, mark: char)
    requires
        !a.contains(mark),
    ensures
        crate::text::first_place(a, seq![mark]) is None,
        !has_part(a, seq![mark]),
{
    let m = seq![mark];
    crate::text::lemma_first_place(a, m);
    assert forall|i: int| !occurs_at(a, m, i) by {
        if occurs_at(a, m, i) {
            assert(a.subrange(i, i + 1)[0] == a[i]);
        }
    }
    if let Some(i) = crate::text::first_place(a, m) {
        assert(occurs_at(a, m, i));
    }
}

/// The pieces of a word and two numbers between dots, without operators.
proof fn lemma_body(word: Seq<char>, a: Seq<char>, b: Seq<char>)
    requires
        int_value(a) is Some,
        int_value(b) is Some,
        !word.contains('.'),
        !word.contains('/'),
    ensures
        ({
            let t = word + seq!['.'] + (a + seq!['.'] + b);
            &&& crate::svar::count_body::whole_of(t) == t
            &&& crate::svar::count_body::operators_of(t).len() == 0
            &&& pieces(t, "."@) == seq![word, a, b]
        }),
{
    reveal_strlit(".");
    reveal_strlit("/");
    assert("."@ =~= seq!['.']);
    assert("/"@ =~= seq!['/']);
    lemma_number_chars(a, '.');
    lemma_number_chars(b, '.');
    lemma_number_chars(a, '/');
    lemma_number_chars(b, '/');
    let t = word + seq!['.'] + (a + seq!['.'] + b);
    lemma_pieces_joined(word, '.', a + seq!['.'] + b);
    lemma_pieces_joined(a, '.', b);
    lemma_no_dot(word);
    lemma_no_dot(a);
    lemma_no_dot(b);
    assert(pieces(t, "."@) =~= seq![word, a, b]);
    assert(!t.contains('/')) by {
        if t.contains('/') {
            let i = choose|i: int| 0 <= i < t.len() && t[i] == '/';
            let n = word.len() as int;
            let m = a.len() as int;
            if i < n {
                assert(word[i] == '/');
            } else if n < i <= n + m {
                assert(a[i - n - 1] == '/');
            } else if i > n + m + 1 {
                assert(b[i - n - m - 2] == '/');
            }
        }
    }
    lemma_no_mark(t, '/');
}

proof fn lemma_plain_body(word: Seq<char>)
    requires
        !word.contains('.'),
        !word.contains('/'),
    ensures
        crate::svar::count_body::whole_of(word) == word,
        crate::svar::count_body::operators_of(word).len() == 0,
        crate::svar::count_body::head_of(word) == word,
{
    reveal_strlit("/");
    assert("/"@ =~= seq!['/']);
    lemma_no_mark(word, '/');
    lemma_no_dot(word);
}

/// The life that a player started with, lost and gained in the turn, and other things that happened in
/// it.
pub proof fn law_numbers_of_the_turn(s: SceneView, depth: u32, hops: u32)
    requires
        is_set(s),
    ensures
        count_value(s, depth, hops, "Count$YourStartingLife"@) == player_of(s).starting_life,
        count_value(s, depth, hops, "Count$LifeYouLostThisTurn"@) == player_of(s).life_lost_this_turn,
        count_value(s, depth, hops, "Count$LifeYouGainedThisTurn"@) == player_of(s).life_gained_this_turn,
        count_value(s, depth, hops, "Count$CrewSize"@) == card_of(s).crewed_by_this_turn@.len() as i32,
        count_value(s, depth, hops, "Count$TotalDamageReceivedThisTurn"@) == card_of(s).assigned_damage,
        count_value(s, depth, hops, "Count$YouFlipThisTurn"@) == player_of(s).num_flips_this_turn,
        count_value(s, depth, hops, "Count$YouDescendedThisTurn"@) == player_of(s).permanents_put_into_graveyard_this_turn,
{
    lemma_yourstartinglife(s, depth, hops);
    lemma_lifeyoulostthisturn(s, depth, hops);
    lemma_lifeyougainedthisturn(s, depth, hops);
    lemma_crewsize(s, depth, hops);
    lemma_totaldamagereceivedthisturn(s, depth, hops);
    lemma_youflipthisturn(s, depth, hops);
    lemma_youdescendedthisturn(s, depth, hops);
}

proof fn lemma_yourstartinglife(s: SceneView, depth: u32, hops: u32)
    requires
        is_set(s),
    ensures
        count_value(s, depth, hops, "Count$YourStartingLife"@) == player_of(s).starting_life,
{
    let t = "Count$YourStartingLife"@;
    let head = "YourStartingLife"@;
    reveal_strlit("Count$YourStartingLife");
    reveal_strlit("YourStartingLife");
    reveal_strlit("Count$");
    assert(t =~= "Count$"@ + head);
    lemma_starts("Count$"@, head);
    assert(t[0] == 'C');
    assert(t[6] == 'Y');
    assert(t[9] == 'r');
    assert(t[10] == 'S');
    assert(t[11] == 't');
    reveal_strlit("PlayerCount");
    lemma_parts_from(t, "PlayerCount"@, 0);
    reveal_strlit("TargetedObjects");
    lemma_parts_from(t, "TargetedObjects"@, 0);
    reveal_strlit("Count$xPaid");
    lemma_parts_from(t, "Count$xPaid"@, 6);
    reveal_strlit("Count$XPaid");
    lemma_parts_from(t, "Count$XPaid"@, 6);
    reveal_strlit("Count$CastTotalManaSpent ");
    lemma_parts_from(t, "Count$CastTotalManaSpent "@, 6);
    reveal_strlit("Count$CastTotalManaSpent");
    lemma_parts_from(t, "Count$CastTotalManaSpent"@, 6);
    reveal_strlit("Count$TriggerRememberAmount");
    lemma_parts_from(t, "Count$TriggerRememberAmount"@, 6);
    reveal_strlit("Count$OptionalKeywordAmount");
    lemma_parts_from(t, "Count$OptionalKeywordAmount"@, 6);
    reveal_strlit("Count$ChosenNumber");
    lemma_parts_from(t, "Count$ChosenNumber"@, 6);
    reveal_strlit("TriggerCount$Result");
    lemma_parts_from(t, "TriggerCount$Result"@, 0);
    reveal_strlit("TriggerCountMax$Result");
    lemma_parts_from(t, "TriggerCountMax$Result"@, 0);
    reveal_strlit("Count$Converge");
    lemma_parts_from(t, "Count$Converge"@, 6);
    reveal_strlit("Count$Sunburst");
    lemma_parts_from(t, "Count$Sunburst"@, 6);
    reveal_strlit("Count$Adamant");
    lemma_parts_from(t, "Count$Adamant"@, 6);
    reveal_strlit("Count$FinalChapterNr");
    lemma_parts_from(t, "Count$FinalChapterNr"@, 6);
    reveal_strlit("Count$YourSpeed");
    lemma_parts_from(t, "Count$YourSpeed"@, 11);
    reveal_strlit("Count$DomainActivePlayer");
    lemma_parts_from(t, "Count$DomainActivePlayer"@, 6);
    reveal_strlit("Count$Domain");
    lemma_parts_from(t, "Count$Domain"@, 6);
    reveal_strlit("Count$Party");
    lemma_parts_from(t, "Count$Party"@, 6);
    reveal_strlit("Count$YourLifeTotal");
    lemma_parts_from(t, "Count$YourLifeTotal"@, 10);
    reveal_strlit("Count$YouDrewThisTurn");
    lemma_parts_from(t, "Count$YouDrewThisTurn"@, 9);
    reveal_strlit("Count$OppGreatestLifeTotal");
    lemma_parts_from(t, "Count$OppGreatestLifeTotal"@, 6);
    reveal_strlit("Count$Metalcraft.");
    lemma_parts_from(t, "Count$Metalcraft."@, 6);
    reveal_strlit("Count$MaxSpeed.");
    lemma_parts_from(t, "Count$MaxSpeed."@, 6);
    reveal_strlit("Count$AttackersDeclared");
    lemma_parts_from(t, "Count$AttackersDeclared"@, 6);
    reveal_strlit("Count$TopOfLibraryCMC");
    lemma_parts_from(t, "Count$TopOfLibraryCMC"@, 6);
    reveal_strlit("Count$OptionalGenericCostPaid.");
    lemma_parts_from(t, "Count$OptionalGenericCostPaid."@, 6);
    reveal_strlit("Count$KickedCount");
    lemma_parts_from(t, "Count$KickedCount"@, 6);
    reveal_strlit("Count$Kicked.");
    lemma_parts_from(t, "Count$Kicked."@, 6);
    reveal_strlit("Count$UrzaLands.");
    lemma_parts_from(t, "Count$UrzaLands."@, 6);
    reveal_strlit("Count$PromisedGift.");
    lemma_parts_from(t, "Count$PromisedGift."@, 6);
    reveal_strlit("Count$PromisedGift");
    lemma_parts_from(t, "Count$PromisedGift"@, 6);
    reveal_strlit("Count$Valid");
    lemma_parts_from(t, "Count$Valid"@, 6);
    reveal_strlit("Count$Valid ");
    lemma_parts_from(t, "Count$Valid "@, 6);
    reveal_strlit("Count$Devotion.");
    lemma_parts_from(t, "Count$Devotion."@, 6);
    reveal_strlit("Count$Compare ");
    lemma_parts_from(t, "Count$Compare "@, 6);
    reveal_strlit("Count$ColorsColorIdentity");
    lemma_parts_from(t, "Count$ColorsColorIdentity"@, 6);
    reveal_strlit("Count$CardPower");
    lemma_parts_from(t, "Count$CardPower"@, 6);
    reveal_strlit("Count$CardToughness");
    lemma_parts_from(t, "Count$CardToughness"@, 6);
    reveal_strlit("Count$YourTurns");
    lemma_parts_from(t, "Count$YourTurns"@, 10);
    reveal_strlit("Count$CardCounters.");
    lemma_parts_from(t, "Count$CardCounters."@, 6);
    reveal_strlit("Count$TotalDamageDoneByThisTurn");
    lemma_parts_from(t, "Count$TotalDamageDoneByThisTurn"@, 6);
    reveal_strlit("Count$CardsInYour");
    lemma_parts_from(t, "Count$CardsInYour"@, 6);
    reveal_strlit("Count$InYour");
    lemma_parts_from(t, "Count$InYour"@, 6);
    reveal_strlit("Count$MaxSameStoredRolls");
    lemma_parts_from(t, "Count$MaxSameStoredRolls"@, 6);
    reveal_strlit("Count$RememberedNumber");
    lemma_parts_from(t, "Count$RememberedNumber"@, 6);
    reveal_strlit("Count$RememberedSize");
    lemma_parts_from(t, "Count$RememberedSize"@, 6);
    lemma_plain_body(head);
    reveal_strlit("IsPrime");
    lemma_parts_from(head, "IsPrime"@, 0);
    reveal_strlit("ResolvedThisTurn");
    lemma_parts_from(head, "ResolvedThisTurn"@, 0);
    reveal_strlit("Delirium");
    lemma_parts_from(head, "Delirium"@, 0);
    reveal_strlit("CommittedCrimeThisTurn");
    lemma_parts_from(head, "CommittedCrimeThisTurn"@, 0);
}

proof fn lemma_lifeyoulostthisturn(s: SceneView, depth: u32, hops: u32)
    requires
        is_set(s),
    ensures
        count_value(s, depth, hops, "Count$LifeYouLostThisTurn"@) == player_of(s).life_lost_this_turn,
{
    let t = "Count$LifeYouLostThisTurn"@;
    let head = "LifeYouLostThisTurn"@;
    reveal_strlit("Count$LifeYouLostThisTurn");
    reveal_strlit("LifeYouLostThisTurn");
    reveal_strlit("Count$");
    assert(t =~= "Count$"@ + head);
    lemma_starts("Count$"@, head);
    assert(t[0] == 'C');
    assert(t[6] == 'L');
    reveal_strlit("PlayerCount");
    lemma_parts_from(t, "PlayerCount"@, 0);
    reveal_strlit("TargetedObjects");
    lemma_parts_from(t, "TargetedObjects"@, 0);
    reveal_strlit("Count$xPaid");
    lemma_parts_from(t, "Count$xPaid"@, 6);
    reveal_strlit("Count$XPaid");
    lemma_parts_from(t, "Count$XPaid"@, 6);
    reveal_strlit("Count$CastTotalManaSpent ");
    lemma_parts_from(t, "Count$CastTotalManaSpent "@, 6);
    reveal_strlit("Count$CastTotalManaSpent");
    lemma_parts_from(t, "Count$CastTotalManaSpent"@, 6);
    reveal_strlit("Count$TriggerRememberAmount");
    lemma_parts_from(t, "Count$TriggerRememberAmount"@, 6);
    reveal_strlit("Count$OptionalKeywordAmount");
    lemma_parts_from(t, "Count$OptionalKeywordAmount"@, 6);
    reveal_strlit("Count$ChosenNumber");
    lemma_parts_from(t, "Count$ChosenNumber"@, 6);
    reveal_strlit("TriggerCount$Result");
    lemma_parts_from(t, "TriggerCount$Result"@, 0);
    reveal_strlit("TriggerCountMax$Result");
    lemma_parts_from(t, "TriggerCountMax$Result"@, 0);
    reveal_strlit("Count$Converge");
    lemma_parts_from(t, "Count$Converge"@, 6);
    reveal_strlit("Count$Sunburst");
    lemma_parts_from(t, "Count$Sunburst"@, 6);
    reveal_strlit("Count$Adamant");
    lemma_parts_from(t, "Count$Adamant"@, 6);
    reveal_strlit("Count$FinalChapterNr");
    lemma_parts_from(t, "Count$FinalChapterNr"@, 6);
    reveal_strlit("Count$YourSpeed");
    lemma_parts_from(t, "Count$YourSpeed"@, 6);
    reveal_strlit("Count$DomainActivePlayer");
    lemma_parts_from(t, "Count$DomainActivePlayer"@, 6);
    reveal_strlit("Count$Domain");
    lemma_parts_from(t, "Count$Domain"@, 6);
    reveal_strlit("Count$Party");
    lemma_parts_from(t, "Count$Party"@, 6);
    reveal_strlit("Count$YourLifeTotal");
    lemma_parts_from(t, "Count$YourLifeTotal"@, 6);
    reveal_strlit("Count$YouDrewThisTurn");
    lemma_parts_from(t, "Count$YouDrewThisTurn"@, 6);
    reveal_strlit("Count$OppGreatestLifeTotal");
    lemma_parts_from(t, "Count$OppGreatestLifeTotal"@, 6);
    reveal_strlit("Count$Metalcraft.");
    lemma_parts_from(t, "Count$Metalcraft."@, 6);
    reveal_strlit("Count$MaxSpeed.");
    lemma_parts_from(t, "Count$MaxSpeed."@, 6);
    reveal_strlit("Count$AttackersDeclared");
    lemma_parts_from(t, "Count$AttackersDeclared"@, 6);
    reveal_strlit("Count$TopOfLibraryCMC");
    lemma_parts_from(t, "Count$TopOfLibraryCMC"@, 6);
    reveal_strlit("Count$OptionalGenericCostPaid.");
    lemma_parts_from(t, "Count$OptionalGenericCostPaid."@, 6);
    reveal_strlit("Count$KickedCount");
    lemma_parts_from(t, "Count$KickedCount"@, 6);
    reveal_strlit("Count$Kicked.");
    lemma_parts_from(t, "Count$Kicked."@, 6);
    reveal_strlit("Count$UrzaLands.");
    lemma_parts_from(t, "Count$UrzaLands."@, 6);
    reveal_strlit("Count$PromisedGift.");
    lemma_parts_from(t, "Count$PromisedGift."@, 6);
    reveal_strlit("Count$PromisedGift");
    lemma_parts_from(t, "Count$PromisedGift"@, 6);
    reveal_strlit("Count$Valid");
    lemma_parts_from(t, "Count$Valid"@, 6);
    reveal_strlit("Count$Valid ");
    lemma_parts_from(t, "Count$Valid "@, 6);
    reveal_strlit("Count$Devotion.");
    lemma_parts_from(t, "Count$Devotion."@, 6);
    reveal_strlit("Count$Compare ");
    lemma_parts_from(t, "Count$Compare "@, 6);
    reveal_strlit("Count$ColorsColorIdentity");
    lemma_parts_from(t, "Count$ColorsColorIdentity"@, 6);
    reveal_strlit("Count$CardPower");
    lemma_parts_from(t, "Count$CardPower"@, 6);
    reveal_strlit("Count$CardToughness");
    lemma_parts_from(t, "Count$CardToughness"@, 6);
    reveal_strlit("Count$YourTurns");
    lemma_parts_from(t, "Count$YourTurns"@, 6);
    reveal_strlit("Count$CardCounters.");
    lemma_parts_from(t, "Count$CardCounters."@, 6);
    reveal_strlit("Count$TotalDamageDoneByThisTurn");
    lemma_parts_from(t, "Count$TotalDamageDoneByThisTurn"@, 6);
    reveal_strlit("Count$CardsInYour");
    lemma_parts_from(t, "Count$CardsInYour"@, 6);
    reveal_strlit("Count$InYour");
    lemma_parts_from(t, "Count$InYour"@, 6);
    reveal_strlit("Count$MaxSameStoredRolls");
    lemma_parts_from(t, "Count$MaxSameStoredRolls"@, 6);
    reveal_strlit("Count$RememberedNumber");
    lemma_parts_from(t, "Count$RememberedNumber"@, 6);
    reveal_strlit("Count$RememberedSize");
    lemma_parts_from(t, "Count$RememberedSize"@, 6);
    lemma_plain_body(head);
    reveal_strlit("IsPrime");
    lemma_parts_from(head, "IsPrime"@, 0);
    reveal_strlit("ResolvedThisTurn");
    lemma_parts_from(head, "ResolvedThisTurn"@, 0);
    reveal_strlit("Delirium");
    lemma_parts_from(head, "Delirium"@, 0);
    reveal_strlit("CommittedCrimeThisTurn");
    lemma_parts_from(head, "CommittedCrimeThisTurn"@, 0);
    reveal_strlit("YourStartingLife");
    lemma_parts_from(head, "YourStartingLife"@, 0);
    assert(head.subrange(0, head.len() as int) =~= head);
    assert(occurs_at(head, head, 0));
}

proof fn lemma_lifeyougainedthisturn(s: SceneView, depth: u32, hops: u32)
    requires
        is_set(s),
    ensures
        count_value(s, depth, hops, "Count$LifeYouGainedThisTurn"@) == player_of(s).life_gained_this_turn,
{
    let t = "Count$LifeYouGainedThisTurn"@;
    let head = "LifeYouGainedThisTurn"@;
    reveal_strlit("Count$LifeYouGainedThisTurn");
    reveal_strlit("LifeYouGainedThisTurn");
    reveal_strlit("Count$");
    assert(t =~= "Count$"@ + head);
    lemma_starts("Count$"@, head);
    assert(t[0] == 'C');
    assert(t[6] == 'L');
    reveal_strlit("PlayerCount");
    lemma_parts_from(t, "PlayerCount"@, 0);
    reveal_strlit("TargetedObjects");
    lemma_parts_from(t, "TargetedObjects"@, 0);
    reveal_strlit("Count$xPaid");
    lemma_parts_from(t, "Count$xPaid"@, 6);
    reveal_strlit("Count$XPaid");
    lemma_parts_from(t, "Count$XPaid"@, 6);
    reveal_strlit("Count$CastTotalManaSpent ");
    lemma_parts_from(t, "Count$CastTotalManaSpent "@, 6);
    reveal_strlit("Count$CastTotalManaSpent");
    lemma_parts_from(t, "Count$CastTotalManaSpent"@, 6);
    reveal_strlit("Count$TriggerRememberAmount");
    lemma_parts_from(t, "Count$TriggerRememberAmount"@, 6);
    reveal_strlit("Count$OptionalKeywordAmount");
    lemma_parts_from(t, "Count$OptionalKeywordAmount"@, 6);
    reveal_strlit("Count$ChosenNumber");
    lemma_parts_from(t, "Count$ChosenNumber"@, 6);
    reveal_strlit("TriggerCount$Result");
    lemma_parts_from(t, "TriggerCount$Result"@, 0);
    reveal_strlit("TriggerCountMax$Result");
    lemma_parts_from(t, "TriggerCountMax$Result"@, 0);
    reveal_strlit("Count$Converge");
    lemma_parts_from(t, "Count$Converge"@, 6);
    reveal_strlit("Count$Sunburst");
    lemma_parts_from(t, "Count$Sunburst"@, 6);
    reveal_strlit("Count$Adamant");
    lemma_parts_from(t, "Count$Adamant"@, 6);
    reveal_strlit("Count$FinalChapterNr");
    lemma_parts_from(t, "Count$FinalChapterNr"@, 6);
    reveal_strlit("Count$YourSpeed");
    lemma_parts_from(t, "Count$YourSpeed"@, 6);
    reveal_strlit("Count$DomainActivePlayer");
    lemma_parts_from(t, "Count$DomainActivePlayer"@, 6);
    reveal_strlit("Count$Domain");
    lemma_parts_from(t, "Count$Domain"@, 6);
    reveal_strlit("Count$Party");
    lemma_parts_from(t, "Count$Party"@, 6);
    reveal_strlit("Count$YourLifeTotal");
    lemma_parts_from(t, "Count$YourLifeTotal"@, 6);
    reveal_strlit("Count$YouDrewThisTurn");
    lemma_parts_from(t, "Count$YouDrewThisTurn"@, 6);
    reveal_strlit("Count$OppGreatestLifeTotal");
    lemma_parts_from(t, "Count$OppGreatestLifeTotal"@, 6);
    reveal_strlit("Count$Metalcraft.");
    lemma_parts_from(t, "Count$Metalcraft."@, 6);
    reveal_strlit("Count$MaxSpeed.");
    lemma_parts_from(t, "Count$MaxSpeed."@, 6);
    reveal_strlit("Count$AttackersDeclared");
    lemma_parts_from(t, "Count$AttackersDeclared"@, 6);
    reveal_strlit("Count$TopOfLibraryCMC");
    lemma_parts_from(t, "Count$TopOfLibraryCMC"@, 6);
    reveal_strlit("Count$OptionalGenericCostPaid.");
    lemma_parts_from(t, "Count$OptionalGenericCostPaid."@, 6);
    reveal_strlit("Count$KickedCount");
    lemma_parts_from(t, "Count$KickedCount"@, 6);
    reveal_strlit("Count$Kicked.");
    lemma_parts_from(t, "Count$Kicked."@, 6);
    reveal_strlit("Count$UrzaLands.");
    lemma_parts_from(t, "Count$UrzaLands."@, 6);
    reveal_strlit("Count$PromisedGift.");
    lemma_parts_from(t, "Count$PromisedGift."@, 6);
    reveal_strlit("Count$PromisedGift");
    lemma_parts_from(t, "Count$PromisedGift"@, 6);
    reveal_strlit("Count$Valid");
    lemma_parts_from(t, "Count$Valid"@, 6);
    reveal_strlit("Count$Valid ");
    lemma_parts_from(t, "Count$Valid "@, 6);
    reveal_strlit("Count$Devotion.");
    lemma_parts_from(t, "Count$Devotion."@, 6);
    reveal_strlit("Count$Compare ");
    lemma_parts_from(t, "Count$Compare "@, 6);
    reveal_strlit("Count$ColorsColorIdentity");
    lemma_parts_from(t, "Count$ColorsColorIdentity"@, 6);
    reveal_strlit("Count$CardPower");
    lemma_parts_from(t, "Count$CardPower"@, 6);
    reveal_strlit("Count$CardToughness");
    lemma_parts_from(t, "Count$CardToughness"@, 6);
    reveal_strlit("Count$YourTurns");
    lemma_parts_from(t, "Count$YourTurns"@, 6);
    reveal_strlit("Count$CardCounters.");
    lemma_parts_from(t, "Count$CardCounters."@, 6);
    reveal_strlit("Count$TotalDamageDoneByThisTurn");
    lemma_parts_from(t, "Count$TotalDamageDoneByThisTurn"@, 6);
    reveal_strlit("Count$CardsInYour");
    lemma_parts_from(t, "Count$CardsInYour"@, 6);
    reveal_strlit("Count$InYour");
    lemma_parts_from(t, "Count$InYour"@, 6);
    reveal_strlit("Count$MaxSameStoredRolls");
    lemma_parts_from(t, "Count$MaxSameStoredRolls"@, 6);
    reveal_strlit("Count$RememberedNumber");
    lemma_parts_from(t, "Count$RememberedNumber"@, 6);
    reveal_strlit("Count$RememberedSize");
    lemma_parts_from(t, "Count$RememberedSize"@, 6);
    lemma_plain_body(head);
    reveal_strlit("IsPrime");
    lemma_parts_from(head, "IsPrime"@, 0);
    reveal_strlit("ResolvedThisTurn");
    lemma_parts_from(head, "ResolvedThisTurn"@, 0);
    reveal_strlit("Delirium");
    lemma_parts_from(head, "Delirium"@, 0);
    reveal_strlit("CommittedCrimeThisTurn");
    lemma_parts_from(head, "CommittedCrimeThisTurn"@, 0);
    reveal_strlit("YourStartingLife");
    lemma_parts_from(head, "YourStartingLife"@, 0);
    reveal_strlit("LifeYouLostThisTurn");
    lemma_lacks(head, "LifeYouLostThisTurn"@, 10);
    assert(head.subrange(0, head.len() as int) =~= head);
    assert(occurs_at(head, head, 0));
}

proof fn lemma_crewsize(s: SceneView, depth: u32, hops: u32)
    requires
        is_set(s),
    ensures
        count_value(s, depth, hops, "Count$CrewSize"@) == card_of(s).crewed_by_this_turn@.len() as i32,
{
    let t = "Count$CrewSize"@;
    let head = "CrewSize"@;
    reveal_strlit("Count$CrewSize");
    reveal_strlit("CrewSize");
    reveal_strlit("Count$");
    assert(t =~= "Count$"@ + head);
    lemma_starts("Count$"@, head);
    assert(t[0] == 'C');
    assert(t[6] == 'C');
    assert(t[7] == 'r');
    reveal_strlit("PlayerCount");
    lemma_parts_from(t, "PlayerCount"@, 0);
    reveal_strlit("TargetedObjects");
    lemma_parts_from(t, "TargetedObjects"@, 0);
    reveal_strlit("Count$xPaid");
    lemma_parts_from(t, "Count$xPaid"@, 6);
    reveal_strlit("Count$XPaid");
    lemma_parts_from(t, "Count$XPaid"@, 6);
    reveal_strlit("Count$CastTotalManaSpent ");
    lemma_parts_from(t, "Count$CastTotalManaSpent "@, 7);
    reveal_strlit("Count$CastTotalManaSpent");
    lemma_parts_from(t, "Count$CastTotalManaSpent"@, 7);
    reveal_strlit("Count$TriggerRememberAmount");
    lemma_parts_from(t, "Count$TriggerRememberAmount"@, 6);
    reveal_strlit("Count$OptionalKeywordAmount");
    lemma_parts_from(t, "Count$OptionalKeywordAmount"@, 6);
    reveal_strlit("Count$ChosenNumber");
    lemma_parts_from(t, "Count$ChosenNumber"@, 7);
    reveal_strlit("TriggerCount$Result");
    lemma_parts_from(t, "TriggerCount$Result"@, 0);
    reveal_strlit("TriggerCountMax$Result");
    lemma_parts_from(t, "TriggerCountMax$Result"@, 0);
    reveal_strlit("Count$Converge");
    lemma_parts_from(t, "Count$Converge"@, 7);
    reveal_strlit("Count$Sunburst");
    lemma_parts_from(t, "Count$Sunburst"@, 6);
    reveal_strlit("Count$Adamant");
    lemma_parts_from(t, "Count$Adamant"@, 6);
    reveal_strlit("Count$FinalChapterNr");
    lemma_parts_from(t, "Count$FinalChapterNr"@, 6);
    reveal_strlit("Count$YourSpeed");
    lemma_parts_from(t, "Count$YourSpeed"@, 6);
    reveal_strlit("Count$DomainActivePlayer");
    lemma_parts_from(t, "Count$DomainActivePlayer"@, 6);
    reveal_strlit("Count$Domain");
    lemma_parts_from(t, "Count$Domain"@, 6);
    reveal_strlit("Count$Party");
    lemma_parts_from(t, "Count$Party"@, 6);
    reveal_strlit("Count$YourLifeTotal");
    lemma_parts_from(t, "Count$YourLifeTotal"@, 6);
    reveal_strlit("Count$YouDrewThisTurn");
    lemma_parts_from(t, "Count$YouDrewThisTurn"@, 6);
    reveal_strlit("Count$OppGreatestLifeTotal");
    lemma_parts_from(t, "Count$OppGreatestLifeTotal"@, 6);
    reveal_strlit("Count$Metalcraft.");
    lemma_parts_from(t, "Count$Metalcraft."@, 6);
    reveal_strlit("Count$MaxSpeed.");
    lemma_parts_from(t, "Count$MaxSpeed."@, 6);
    reveal_strlit("Count$AttackersDeclared");
    lemma_parts_from(t, "Count$AttackersDeclared"@, 6);
    reveal_strlit("Count$TopOfLibraryCMC");
    lemma_parts_from(t, "Count$TopOfLibraryCMC"@, 6);
    reveal_strlit("Count$OptionalGenericCostPaid.");
    lemma_parts_from(t, "Count$OptionalGenericCostPaid."@, 6);
    reveal_strlit("Count$KickedCount");
    lemma_parts_from(t, "Count$KickedCount"@, 6);
    reveal_strlit("Count$Kicked.");
    lemma_parts_from(t, "Count$Kicked."@, 6);
    reveal_strlit("Count$UrzaLands.");
    lemma_parts_from(t, "Count$UrzaLands."@, 6);
    reveal_strlit("Count$PromisedGift.");
    lemma_parts_from(t, "Count$PromisedGift."@, 6);
    reveal_strlit("Count$PromisedGift");
    lemma_parts_from(t, "Count$PromisedGift"@, 6);
    reveal_strlit("Count$Valid");
    lemma_parts_from(t, "Count$Valid"@, 6);
    reveal_strlit("Count$Valid ");
    lemma_parts_from(t, "Count$Valid "@, 6);
    reveal_strlit("Count$Devotion.");
    lemma_parts_from(t, "Count$Devotion."@, 6);
    reveal_strlit("Count$Compare ");
    lemma_parts_from(t, "Count$Compare "@, 7);
    reveal_strlit("Count$ColorsColorIdentity");
    lemma_parts_from(t, "Count$ColorsColorIdentity"@, 7);
    reveal_strlit("Count$CardPower");
    lemma_parts_from(t, "Count$CardPower"@, 7);
    reveal_strlit("Count$CardToughness");
    lemma_parts_from(t, "Count$CardToughness"@, 7);
    reveal_strlit("Count$YourTurns");
    lemma_parts_from(t, "Count$YourTurns"@, 6);
    reveal_strlit("Count$CardCounters.");
    lemma_parts_from(t, "Count$CardCounters."@, 7);
    reveal_strlit("Count$TotalDamageDoneByThisTurn");
    lemma_parts_from(t, "Count$TotalDamageDoneByThisTurn"@, 6);
    reveal_strlit("Count$CardsInYour");
    lemma_parts_from(t, "Count$CardsInYour"@, 7);
    reveal_strlit("Count$InYour");
    lemma_parts_from(t, "Count$InYour"@, 6);
    reveal_strlit("Count$MaxSameStoredRolls");
    lemma_parts_from(t, "Count$MaxSameStoredRolls"@, 6);
    reveal_strlit("Count$RememberedNumber");
    lemma_parts_from(t, "Count$RememberedNumber"@, 6);
    reveal_strlit("Count$RememberedSize");
    lemma_parts_from(t, "Count$RememberedSize"@, 6);
    lemma_plain_body(head);
    reveal_strlit("IsPrime");
    lemma_parts_from(head, "IsPrime"@, 0);
    reveal_strlit("ResolvedThisTurn");
    lemma_parts_from(head, "ResolvedThisTurn"@, 0);
    reveal_strlit("Delirium");
    lemma_parts_from(head, "Delirium"@, 0);
    reveal_strlit("CommittedCrimeThisTurn");
    lemma_parts_from(head, "CommittedCrimeThisTurn"@, 1);
    reveal_strlit("YourStartingLife");
    lemma_parts_from(head, "YourStartingLife"@, 0);
    reveal_strlit("LifeYouLostThisTurn");
    lemma_lacks(head, "LifeYouLostThisTurn"@, 0);
    reveal_strlit("LifeYouGainedThisTurn");
    lemma_lacks(head, "LifeYouGainedThisTurn"@, 0);
    reveal_strlit("LifeYourTeamGainedThisTurn");
    lemma_lacks(head, "LifeYourTeamGainedThisTurn"@, 0);
    reveal_strlit("LifeYouGainedTimesThisTurn");
    lemma_lacks(head, "LifeYouGainedTimesThisTurn"@, 0);
    reveal_strlit("LifeOppsLostThisTurn");
    lemma_lacks(head, "LifeOppsLostThisTurn"@, 0);
}

proof fn lemma_totaldamagereceivedthisturn(s: SceneView, depth: u32, hops: u32)
    requires
        is_set(s),
    ensures
        count_value(s, depth, hops, "Count$TotalDamageReceivedThisTurn"@) == card_of(s).assigned_damage,
{
    let t = "Count$TotalDamageReceivedThisTurn"@;
    let head = "TotalDamageReceivedThisTurn"@;
    reveal_strlit("Count$TotalDamageReceivedThisTurn");
    reveal_strlit("TotalDamageReceivedThisTurn");
    reveal_strlit("Count$");
    assert(t =~= "Count$"@ + head);
    lemma_starts("Count$"@, head);
    assert(t[0] == 'C');
    assert(t[6] == 'T');
    assert(t[7] == 'o');
    assert(t[8] == 't');
    assert(t[17] == 'R');
    reveal_strlit("PlayerCount");
    lemma_parts_from(t, "PlayerCount"@, 0);
    reveal_strlit("TargetedObjects");
    lemma_parts_from(t, "TargetedObjects"@, 0);
    reveal_strlit("Count$xPaid");
    lemma_parts_from(t, "Count$xPaid"@, 6);
    reveal_strlit("Count$XPaid");
    lemma_parts_from(t, "Count$XPaid"@, 6);
    reveal_strlit("Count$CastTotalManaSpent ");
    lemma_parts_from(t, "Count$CastTotalManaSpent "@, 6);
    reveal_strlit("Count$CastTotalManaSpent");
    lemma_parts_from(t, "Count$CastTotalManaSpent"@, 6);
    reveal_strlit("Count$TriggerRememberAmount");
    lemma_parts_from(t, "Count$TriggerRememberAmount"@, 7);
    reveal_strlit("Count$OptionalKeywordAmount");
    lemma_parts_from(t, "Count$OptionalKeywordAmount"@, 6);
    reveal_strlit("Count$ChosenNumber");
    lemma_parts_from(t, "Count$ChosenNumber"@, 6);
    reveal_strlit("TriggerCount$Result");
    lemma_parts_from(t, "TriggerCount$Result"@, 0);
    reveal_strlit("TriggerCountMax$Result");
    lemma_parts_from(t, "TriggerCountMax$Result"@, 0);
    reveal_strlit("Count$Converge");
    lemma_parts_from(t, "Count$Converge"@, 6);
    reveal_strlit("Count$Sunburst");
    lemma_parts_from(t, "Count$Sunburst"@, 6);
    reveal_strlit("Count$Adamant");
    lemma_parts_from(t, "Count$Adamant"@, 6);
    reveal_strlit("Count$FinalChapterNr");
    lemma_parts_from(t, "Count$FinalChapterNr"@, 6);
    reveal_strlit("Count$YourSpeed");
    lemma_parts_from(t, "Count$YourSpeed"@, 6);
    reveal_strlit("Count$DomainActivePlayer");
    lemma_parts_from(t, "Count$DomainActivePlayer"@, 6);
    reveal_strlit("Count$Domain");
    lemma_parts_from(t, "Count$Domain"@, 6);
    reveal_strlit("Count$Party");
    lemma_parts_from(t, "Count$Party"@, 6);
    reveal_strlit("Count$YourLifeTotal");
    lemma_parts_from(t, "Count$YourLifeTotal"@, 6);
    reveal_strlit("Count$YouDrewThisTurn");
    lemma_parts_from(t, "Count$YouDrewThisTurn"@, 6);
    reveal_strlit("Count$OppGreatestLifeTotal");
    lemma_parts_from(t, "Count$OppGreatestLifeTotal"@, 6);
    reveal_strlit("Count$Metalcraft.");
    lemma_parts_from(t, "Count$Metalcraft."@, 6);
    reveal_strlit("Count$MaxSpeed.");
    lemma_parts_from(t, "Count$MaxSpeed."@, 6);
    reveal_strlit("Count$AttackersDeclared");
    lemma_parts_from(t, "Count$AttackersDeclared"@, 6);
    reveal_strlit("Count$TopOfLibraryCMC");
    lemma_parts_from(t, "Count$TopOfLibraryCMC"@, 8);
    reveal_strlit("Count$OptionalGenericCostPaid.");
    lemma_parts_from(t, "Count$OptionalGenericCostPaid."@, 6);
    reveal_strlit("Count$KickedCount");
    lemma_parts_from(t, "Count$KickedCount"@, 6);
    reveal_strlit("Count$Kicked.");
    lemma_parts_from(t, "Count$Kicked."@, 6);
    reveal_strlit("Count$UrzaLands.");
    lemma_parts_from(t, "Count$UrzaLands."@, 6);
    reveal_strlit("Count$PromisedGift.");
    lemma_parts_from(t, "Count$PromisedGift."@, 6);
    reveal_strlit("Count$PromisedGift");
    lemma_parts_from(t, "Count$PromisedGift"@, 6);
    reveal_strlit("Count$Valid");
    lemma_parts_from(t, "Count$Valid"@, 6);
    reveal_strlit("Count$Valid ");
    lemma_parts_from(t, "Count$Valid "@, 6);
    reveal_strlit("Count$Devotion.");
    lemma_parts_from(t, "Count$Devotion."@, 6);
    reveal_strlit("Count$Compare ");
    lemma_parts_from(t, "Count$Compare "@, 6);
    reveal_strlit("Count$ColorsColorIdentity");
    lemma_parts_from(t, "Count$ColorsColorIdentity"@, 6);
    reveal_strlit("Count$CardPower");
    lemma_parts_from(t, "Count$CardPower"@, 6);
    reveal_strlit("Count$CardToughness");
    lemma_parts_from(t, "Count$CardToughness"@, 6);
    reveal_strlit("Count$YourTurns");
    lemma_parts_from(t, "Count$YourTurns"@, 6);
    reveal_strlit("Count$CardCounters.");
    lemma_parts_from(t, "Count$CardCounters."@, 6);
    reveal_strlit("Count$TotalDamageDoneByThisTurn");
    lemma_parts_from(t, "Count$TotalDamageDoneByThisTurn"@, 17);
    reveal_strlit("Count$CardsInYour");
    lemma_parts_from(t, "Count$CardsInYour"@, 6);
    reveal_strlit("Count$InYour");
    lemma_parts_from(t, "Count$InYour"@, 6);
    reveal_strlit("Count$MaxSameStoredRolls");
    lemma_parts_from(t, "Count$MaxSameStoredRolls"@, 6);
    reveal_strlit("Count$RememberedNumber");
    lemma_parts_from(t, "Count$RememberedNumber"@, 6);
    reveal_strlit("Count$RememberedSize");
    lemma_parts_from(t, "Count$RememberedSize"@, 6);
    lemma_plain_body(head);
    reveal_strlit("IsPrime");
    lemma_parts_from(head, "IsPrime"@, 0);
    reveal_strlit("ResolvedThisTurn");
    lemma_parts_from(head, "ResolvedThisTurn"@, 0);
    reveal_strlit("Delirium");
    lemma_parts_from(head, "Delirium"@, 0);
    reveal_strlit("CommittedCrimeThisTurn");
    lemma_parts_from(head, "CommittedCrimeThisTurn"@, 0);
    reveal_strlit("YourStartingLife");
    lemma_parts_from(head, "YourStartingLife"@, 0);
    reveal_strlit("LifeYouLostThisTurn");
    lemma_lacks(head, "LifeYouLostThisTurn"@, 0);
    reveal_strlit("LifeYouGainedThisTurn");
    lemma_lacks(head, "LifeYouGainedThisTurn"@, 0);
    reveal_strlit("LifeYourTeamGainedThisTurn");
    lemma_lacks(head, "LifeYourTeamGainedThisTurn"@, 0);
    reveal_strlit("LifeYouGainedTimesThisTurn");
    lemma_lacks(head, "LifeYouGainedTimesThisTurn"@, 0);
    reveal_strlit("LifeOppsLostThisTurn");
    lemma_lacks(head, "LifeOppsLostThisTurn"@, 0);
    reveal_strlit("CrewSize");
    lemma_parts_from(head, "CrewSize"@, 0);
}

proof fn lemma_youflipthisturn(s: SceneView, depth: u32, hops: u32)
    requires
        is_set(s),
    ensures
        count_value(s, depth, hops, "Count$YouFlipThisTurn"@) == player_of(s).num_flips_this_turn,
{
    let t = "Count$YouFlipThisTurn"@;
    let head = "YouFlipThisTurn"@;
    reveal_strlit("Count$YouFlipThisTurn");
    reveal_strlit("YouFlipThisTurn");
    reveal_strlit("Count$");
    assert(t =~= "Count$"@ + head);
    lemma_starts("Count$"@, head);
    assert(t[0] == 'C');
    assert(t[6] == 'Y');
    assert(t[9] == 'F');
    reveal_strlit("PlayerCount");
    lemma_parts_from(t, "PlayerCount"@, 0);
    reveal_strlit("TargetedObjects");
    lemma_parts_from(t, "TargetedObjects"@, 0);
    reveal_strlit("Count$xPaid");
    lemma_parts_from(t, "Count$xPaid"@, 6);
    reveal_strlit("Count$XPaid");
    lemma_parts_from(t, "Count$XPaid"@, 6);
    reveal_strlit("Count$CastTotalManaSpent ");
    lemma_parts_from(t, "Count$CastTotalManaSpent "@, 6);
    reveal_strlit("Count$CastTotalManaSpent");
    lemma_parts_from(t, "Count$CastTotalManaSpent"@, 6);
    reveal_strlit("Count$TriggerRememberAmount");
    lemma_parts_from(t, "Count$TriggerRememberAmount"@, 6);
    reveal_strlit("Count$OptionalKeywordAmount");
    lemma_parts_from(t, "Count$OptionalKeywordAmount"@, 6);
    reveal_strlit("Count$ChosenNumber");
    lemma_parts_from(t, "Count$ChosenNumber"@, 6);
    reveal_strlit("TriggerCount$Result");
    lemma_parts_from(t, "TriggerCount$Result"@, 0);
    reveal_strlit("TriggerCountMax$Result");
    lemma_parts_from(t, "TriggerCountMax$Result"@, 0);
    reveal_strlit("Count$Converge");
    lemma_parts_from(t, "Count$Converge"@, 6);
    reveal_strlit("Count$Sunburst");
    lemma_parts_from(t, "Count$Sunburst"@, 6);
    reveal_strlit("Count$Adamant");
    lemma_parts_from(t, "Count$Adamant"@, 6);
    reveal_strlit("Count$FinalChapterNr");
    lemma_parts_from(t, "Count$FinalChapterNr"@, 6);
    reveal_strlit("Count$YourSpeed");
    lemma_parts_from(t, "Count$YourSpeed"@, 9);
    reveal_strlit("Count$DomainActivePlayer");
    lemma_parts_from(t, "Count$DomainActivePlayer"@, 6);
    reveal_strlit("Count$Domain");
    lemma_parts_from(t, "Count$Domain"@, 6);
    reveal_strlit("Count$Party");
    lemma_parts_from(t, "Count$Party"@, 6);
    reveal_strlit("Count$YourLifeTotal");
    lemma_parts_from(t, "Count$YourLifeTotal"@, 9);
    reveal_strlit("Count$YouDrewThisTurn");
    lemma_parts_from(t, "Count$YouDrewThisTurn"@, 9);
    reveal_strlit("Count$OppGreatestLifeTotal");
    lemma_parts_from(t, "Count$OppGreatestLifeTotal"@, 6);
    reveal_strlit("Count$Metalcraft.");
    lemma_parts_from(t, "Count$Metalcraft."@, 6);
    reveal_strlit("Count$MaxSpeed.");
    lemma_parts_from(t, "Count$MaxSpeed."@, 6);
    reveal_strlit("Count$AttackersDeclared");
    lemma_parts_from(t, "Count$AttackersDeclared"@, 6);
    reveal_strlit("Count$TopOfLibraryCMC");
    lemma_parts_from(t, "Count$TopOfLibraryCMC"@, 6);
    reveal_strlit("Count$OptionalGenericCostPaid.");
    lemma_parts_from(t, "Count$OptionalGenericCostPaid."@, 6);
    reveal_strlit("Count$KickedCount");
    lemma_parts_from(t, "Count$KickedCount"@, 6);
    reveal_strlit("Count$Kicked.");
    lemma_parts_from(t, "Count$Kicked."@, 6);
    reveal_strlit("Count$UrzaLands.");
    lemma_parts_from(t, "Count$UrzaLands."@, 6);
    reveal_strlit("Count$PromisedGift.");
    lemma_parts_from(t, "Count$PromisedGift."@, 6);
    reveal_strlit("Count$PromisedGift");
    lemma_parts_from(t, "Count$PromisedGift"@, 6);
    reveal_strlit("Count$Valid");
    lemma_parts_from(t, "Count$Valid"@, 6);
    reveal_strlit("Count$Valid ");
    lemma_parts_from(t, "Count$Valid "@, 6);
    reveal_strlit("Count$Devotion.");
    lemma_parts_from(t, "Count$Devotion."@, 6);
    reveal_strlit("Count$Compare ");
    lemma_parts_from(t, "Count$Compare "@, 6);
    reveal_strlit("Count$ColorsColorIdentity");
    lemma_parts_from(t, "Count$ColorsColorIdentity"@, 6);
    reveal_strlit("Count$CardPower");
    lemma_parts_from(t, "Count$CardPower"@, 6);
    reveal_strlit("Count$CardToughness");
    lemma_parts_from(t, "Count$CardToughness"@, 6);
    reveal_strlit("Count$YourTurns");
    lemma_parts_from(t, "Count$YourTurns"@, 9);
    reveal_strlit("Count$CardCounters.");
    lemma_parts_from(t, "Count$CardCounters."@, 6);
    reveal_strlit("Count$TotalDamageDoneByThisTurn");
    lemma_parts_from(t, "Count$TotalDamageDoneByThisTurn"@, 6);
    reveal_strlit("Count$CardsInYour");
    lemma_parts_from(t, "Count$CardsInYour"@, 6);
    reveal_strlit("Count$InYour");
    lemma_parts_from(t, "Count$InYour"@, 6);
    reveal_strlit("Count$MaxSameStoredRolls");
    lemma_parts_from(t, "Count$MaxSameStoredRolls"@, 6);
    reveal_strlit("Count$RememberedNumber");
    lemma_parts_from(t, "Count$RememberedNumber"@, 6);
    reveal_strlit("Count$RememberedSize");
    lemma_parts_from(t, "Count$RememberedSize"@, 6);
    lemma_plain_body(head);
    reveal_strlit("IsPrime");
    lemma_parts_from(head, "IsPrime"@, 0);
    reveal_strlit("ResolvedThisTurn");
    lemma_parts_from(head, "ResolvedThisTurn"@, 0);
    reveal_strlit("Delirium");
    lemma_parts_from(head, "Delirium"@, 0);
    reveal_strlit("CommittedCrimeThisTurn");
    lemma_parts_from(head, "CommittedCrimeThisTurn"@, 0);
    reveal_strlit("YourStartingLife");
    lemma_parts_from(head, "YourStartingLife"@, 3);
    reveal_strlit("LifeYouLostThisTurn");
    lemma_lacks(head, "LifeYouLostThisTurn"@, 0);
    reveal_strlit("LifeYouGainedThisTurn");
    lemma_lacks(head, "LifeYouGainedThisTurn"@, 0);
    reveal_strlit("LifeYourTeamGainedThisTurn");
    lemma_lacks(head, "LifeYourTeamGainedThisTurn"@, 0);
    reveal_strlit("LifeYouGainedTimesThisTurn");
    lemma_lacks(head, "LifeYouGainedTimesThisTurn"@, 0);
    reveal_strlit("LifeOppsLostThisTurn");
    lemma_lacks(head, "LifeOppsLostThisTurn"@, 0);
    reveal_strlit("CrewSize");
    lemma_parts_from(head, "CrewSize"@, 0);
    reveal_strlit("TotalDamageReceivedThisTurn");
    lemma_parts_from(head, "TotalDamageReceivedThisTurn"@, 0);
    reveal_strlit("MaxCombatDamageThisTurn");
    lemma_parts_from(head, "MaxCombatDamageThisTurn"@, 0);
    reveal_strlit("Morbid");
    lemma_parts_from(head, "Morbid"@, 0);
    reveal_strlit("CountersAddedThisTurn");
    lemma_parts_from(head, "CountersAddedThisTurn"@, 0);
    reveal_strlit("TimesKicked");
    lemma_lacks(head, "TimesKicked"@, 2);
    reveal_strlit("Bargain");
    lemma_parts_from(head, "Bargain"@, 0);
    reveal_strlit("Teamwork");
    lemma_parts_from(head, "Teamwork"@, 0);
}

proof fn lemma_youdescendedthisturn(s: SceneView, depth: u32, hops: u32)
    requires
        is_set(s),
    ensures
        count_value(s, depth, hops, "Count$YouDescendedThisTurn"@) == player_of(s).permanents_put_into_graveyard_this_turn,
{
    let t = "Count$YouDescendedThisTurn"@;
    let head = "YouDescendedThisTurn"@;
    reveal_strlit("Count$YouDescendedThisTurn");
    reveal_strlit("YouDescendedThisTurn");
    reveal_strlit("Count$");
    assert(t =~= "Count$"@ + head);
    lemma_starts("Count$"@, head);
    assert(t[0] == 'C');
    assert(t[6] == 'Y');
    assert(t[9] == 'D');
    assert(t[10] == 'e');
    reveal_strlit("PlayerCount");
    lemma_parts_from(t, "PlayerCount"@, 0);
    reveal_strlit("TargetedObjects");
    lemma_parts_from(t, "TargetedObjects"@, 0);
    reveal_strlit("Count$xPaid");
    lemma_parts_from(t, "Count$xPaid"@, 6);
    reveal_strlit("Count$XPaid");
    lemma_parts_from(t, "Count$XPaid"@, 6);
    reveal_strlit("Count$CastTotalManaSpent ");
    lemma_parts_from(t, "Count$CastTotalManaSpent "@, 6);
    reveal_strlit("Count$CastTotalManaSpent");
    lemma_parts_from(t, "Count$CastTotalManaSpent"@, 6);
    reveal_strlit("Count$TriggerRememberAmount");
    lemma_parts_from(t, "Count$TriggerRememberAmount"@, 6);
    reveal_strlit("Count$OptionalKeywordAmount");
    lemma_parts_from(t, "Count$OptionalKeywordAmount"@, 6);
    reveal_strlit("Count$ChosenNumber");
    lemma_parts_from(t, "Count$ChosenNumber"@, 6);
    reveal_strlit("TriggerCount$Result");
    lemma_parts_from(t, "TriggerCount$Result"@, 0);
    reveal_strlit("TriggerCountMax$Result");
    lemma_parts_from(t, "TriggerCountMax$Result"@, 0);
    reveal_strlit("Count$Converge");
    lemma_parts_from(t, "Count$Converge"@, 6);
    reveal_strlit("Count$Sunburst");
    lemma_parts_from(t, "Count$Sunburst"@, 6);
    reveal_strlit("Count$Adamant");
    lemma_parts_from(t, "Count$Adamant"@, 6);
    reveal_strlit("Count$FinalChapterNr");
    lemma_parts_from(t, "Count$FinalChapterNr"@, 6);
    reveal_strlit("Count$YourSpeed");
    lemma_parts_from(t, "Count$YourSpeed"@, 9);
    reveal_strlit("Count$DomainActivePlayer");
    lemma_parts_from(t, "Count$DomainActivePlayer"@, 6);
    reveal_strlit("Count$Domain");
    lemma_parts_from(t, "Count$Domain"@, 6);
    reveal_strlit("Count$Party");
    lemma_parts_from(t, "Count$Party"@, 6);
    reveal_strlit("Count$YourLifeTotal");
    lemma_parts_from(t, "Count$YourLifeTotal"@, 9);
    reveal_strlit("Count$YouDrewThisTurn");
    lemma_parts_from(t, "Count$YouDrewThisTurn"@, 10);
    reveal_strlit("Count$OppGreatestLifeTotal");
    lemma_parts_from(t, "Count$OppGreatestLifeTotal"@, 6);
    reveal_strlit("Count$Metalcraft.");
    lemma_parts_from(t, "Count$Metalcraft."@, 6);
    reveal_strlit("Count$MaxSpeed.");
    lemma_parts_from(t, "Count$MaxSpeed."@, 6);
    reveal_strlit("Count$AttackersDeclared");
    lemma_parts_from(t, "Count$AttackersDeclared"@, 6);
    reveal_strlit("Count$TopOfLibraryCMC");
    lemma_parts_from(t, "Count$TopOfLibraryCMC"@, 6);
    reveal_strlit("Count$OptionalGenericCostPaid.");
    lemma_parts_from(t, "Count$OptionalGenericCostPaid."@, 6);
    reveal_strlit("Count$KickedCount");
    lemma_parts_from(t, "Count$KickedCount"@, 6);
    reveal_strlit("Count$Kicked.");
    lemma_parts_from(t, "Count$Kicked."@, 6);
    reveal_strlit("Count$UrzaLands.");
    lemma_parts_from(t, "Count$UrzaLands."@, 6);
    reveal_strlit("Count$PromisedGift.");
    lemma_parts_from(t, "Count$PromisedGift."@, 6);
    reveal_strlit("Count$PromisedGift");
    lemma_parts_from(t, "Count$PromisedGift"@, 6);
    reveal_strlit("Count$Valid");
    lemma_parts_from(t, "Count$Valid"@, 6);
    reveal_strlit("Count$Valid ");
    lemma_parts_from(t, "Count$Valid "@, 6);
    reveal_strlit("Count$Devotion.");
    lemma_parts_from(t, "Count$Devotion."@, 6);
    reveal_strlit("Count$Compare ");
    lemma_parts_from(t, "Count$Compare "@, 6);
    reveal_strlit("Count$ColorsColorIdentity");
    lemma_parts_from(t, "Count$ColorsColorIdentity"@, 6);
    reveal_strlit("Count$CardPower");
    lemma_parts_from(t, "Count$CardPower"@, 6);
    reveal_strlit("Count$CardToughness");
    lemma_parts_from(t, "Count$CardToughness"@, 6);
    reveal_strlit("Count$YourTurns");
    lemma_parts_from(t, "Count$YourTurns"@, 9);
    reveal_strlit("Count$CardCounters.");
    lemma_parts_from(t, "Count$CardCounters."@, 6);
    reveal_strlit("Count$TotalDamageDoneByThisTurn");
    lemma_parts_from(t, "Count$TotalDamageDoneByThisTurn"@, 6);
    reveal_strlit("Count$CardsInYour");
    lemma_parts_from(t, "Count$CardsInYour"@, 6);
    reveal_strlit("Count$InYour");
    lemma_parts_from(t, "Count$InYour"@, 6);
    reveal_strlit("Count$MaxSameStoredRolls");
    lemma_parts_from(t, "Count$MaxSameStoredRolls"@, 6);
    reveal_strlit("Count$RememberedNumber");
    lemma_parts_from(t, "Count$RememberedNumber"@, 6);
    reveal_strlit("Count$RememberedSize");
    lemma_parts_from(t, "Count$RememberedSize"@, 6);
    lemma_plain_body(head);
    reveal_strlit("IsPrime");
    lemma_parts_from(head, "IsPrime"@, 0);
    reveal_strlit("ResolvedThisTurn");
    lemma_parts_from(head, "ResolvedThisTurn"@, 0);
    reveal_strlit("Delirium");
    lemma_parts_from(head, "Delirium"@, 0);
    reveal_strlit("CommittedCrimeThisTurn");
    lemma_parts_from(head, "CommittedCrimeThisTurn"@, 0);
    reveal_strlit("YourStartingLife");
    lemma_parts_from(head, "YourStartingLife"@, 3);
    reveal_strlit("LifeYouLostThisTurn");
    lemma_lacks(head, "LifeYouLostThisTurn"@, 0);
    reveal_strlit("LifeYouGainedThisTurn");
    lemma_lacks(head, "LifeYouGainedThisTurn"@, 0);
    reveal_strlit("LifeYourTeamGainedThisTurn");
    lemma_lacks(head, "LifeYourTeamGainedThisTurn"@, 0);
    reveal_strlit("LifeYouGainedTimesThisTurn");
    lemma_lacks(head, "LifeYouGainedTimesThisTurn"@, 0);
    reveal_strlit("LifeOppsLostThisTurn");
    lemma_lacks(head, "LifeOppsLostThisTurn"@, 0);
    reveal_strlit("CrewSize");
    lemma_parts_from(head, "CrewSize"@, 0);
    reveal_strlit("TotalDamageReceivedThisTurn");
    lemma_parts_from(head, "TotalDamageReceivedThisTurn"@, 0);
    reveal_strlit("MaxCombatDamageThisTurn");
    lemma_parts_from(head, "MaxCombatDamageThisTurn"@, 0);
    reveal_strlit("Morbid");
    lemma_parts_from(head, "Morbid"@, 0);
    reveal_strlit("CountersAddedThisTurn");
    lemma_parts_from(head, "CountersAddedThisTurn"@, 0);
    reveal_strlit("TimesKicked");
    lemma_lacks(head, "TimesKicked"@, 2);
    reveal_strlit("Bargain");
    lemma_parts_from(head, "Bargain"@, 0);
    reveal_strlit("Teamwork");
    lemma_parts_from(head, "Teamwork"@, 0);
    reveal_strlit("YouFlipThisTurn");
    lemma_parts_from(head, "YouFlipThisTurn"@, 3);
}

/// A choice by whether the player has delirium.
pub proof fn law_delirium_numbers(s: SceneView, depth: u32, hops: u32, a: Seq<char>, b: Seq<char>)
    requires
        is_set(s),
        depth > 0,
        int_value(a) is Some,
        int_value(b) is Some,
    ensures
        count_value(s, depth, hops, choice_text("Count$Delirium."@, a, b)) == if player_of(s).has_delirium {
            int_value(a)->0
        } else {
            int_value(b)->0
        },
{
    let t = choice_text("Count$Delirium."@, a, b);
    let head = "Delirium"@;
    reveal_strlit("Count$Delirium.");
    reveal_strlit("Delirium");
    reveal_strlit("Count$");
    let body = head + seq!['.'] + (a + seq!['.'] + b);
    assert(t =~= "Count$"@ + body);
    lemma_starts("Count$"@, body);
    lemma_choice("Count$Delirium."@, a, b);
    lemma_number_chars(a, '.');
    lemma_number_chars(b, '.');
    assert(t[0] == 'C');
    assert(t[6] == 'D');
    assert(t[7] == 'e');
    assert(t[8] == 'l');
    reveal_strlit("PlayerCount");
    lemma_parts_from(t, "PlayerCount"@, 0);
    reveal_strlit("TargetedObjects");
    lemma_parts_from(t, "TargetedObjects"@, 0);
    reveal_strlit("Count$xPaid");
    lemma_parts_from(t, "Count$xPaid"@, 6);
    reveal_strlit("Count$XPaid");
    lemma_parts_from(t, "Count$XPaid"@, 6);
    reveal_strlit("Count$CastTotalManaSpent ");
    lemma_parts_from(t, "Count$CastTotalManaSpent "@, 6);
    reveal_strlit("Count$CastTotalManaSpent");
    lemma_parts_from(t, "Count$CastTotalManaSpent"@, 6);
    reveal_strlit("Count$TriggerRememberAmount");
    lemma_parts_from(t, "Count$TriggerRememberAmount"@, 6);
    reveal_strlit("Count$OptionalKeywordAmount");
    lemma_parts_from(t, "Count$OptionalKeywordAmount"@, 6);
    reveal_strlit("Count$ChosenNumber");
    lemma_parts_from(t, "Count$ChosenNumber"@, 6);
    reveal_strlit("TriggerCount$Result");
    lemma_parts_from(t, "TriggerCount$Result"@, 0);
    reveal_strlit("TriggerCountMax$Result");
    lemma_parts_from(t, "TriggerCountMax$Result"@, 0);
    reveal_strlit("Count$Converge");
    lemma_parts_from(t, "Count$Converge"@, 6);
    reveal_strlit("Count$Sunburst");
    lemma_parts_from(t, "Count$Sunburst"@, 6);
    reveal_strlit("Count$Adamant");
    lemma_parts_from(t, "Count$Adamant"@, 6);
    reveal_strlit("Count$FinalChapterNr");
    lemma_parts_from(t, "Count$FinalChapterNr"@, 6);
    reveal_strlit("Count$YourSpeed");
    lemma_parts_from(t, "Count$YourSpeed"@, 6);
    reveal_strlit("Count$DomainActivePlayer");
    lemma_parts_from(t, "Count$DomainActivePlayer"@, 7);
    reveal_strlit("Count$Domain");
    lemma_parts_from(t, "Count$Domain"@, 7);
    reveal_strlit("Count$Party");
    lemma_parts_from(t, "Count$Party"@, 6);
    reveal_strlit("Count$YourLifeTotal");
    lemma_parts_from(t, "Count$YourLifeTotal"@, 6);
    reveal_strlit("Count$YouDrewThisTurn");
    lemma_parts_from(t, "Count$YouDrewThisTurn"@, 6);
    reveal_strlit("Count$OppGreatestLifeTotal");
    lemma_parts_from(t, "Count$OppGreatestLifeTotal"@, 6);
    reveal_strlit("Count$Metalcraft.");
    lemma_parts_from(t, "Count$Metalcraft."@, 6);
    reveal_strlit("Count$MaxSpeed.");
    lemma_parts_from(t, "Count$MaxSpeed."@, 6);
    reveal_strlit("Count$AttackersDeclared");
    lemma_parts_from(t, "Count$AttackersDeclared"@, 6);
    reveal_strlit("Count$TopOfLibraryCMC");
    lemma_parts_from(t, "Count$TopOfLibraryCMC"@, 6);
    reveal_strlit("Count$OptionalGenericCostPaid.");
    lemma_parts_from(t, "Count$OptionalGenericCostPaid."@, 6);
    reveal_strlit("Count$KickedCount");
    lemma_parts_from(t, "Count$KickedCount"@, 6);
    reveal_strlit("Count$Kicked.");
    lemma_parts_from(t, "Count$Kicked."@, 6);
    reveal_strlit("Count$UrzaLands.");
    lemma_parts_from(t, "Count$UrzaLands."@, 6);
    reveal_strlit("Count$PromisedGift.");
    lemma_parts_from(t, "Count$PromisedGift."@, 6);
    reveal_strlit("Count$PromisedGift");
    lemma_parts_from(t, "Count$PromisedGift"@, 6);
    reveal_strlit("Count$Valid");
    lemma_parts_from(t, "Count$Valid"@, 6);
    reveal_strlit("Count$Valid ");
    lemma_parts_from(t, "Count$Valid "@, 6);
    reveal_strlit("Count$Devotion.");
    lemma_parts_from(t, "Count$Devotion."@, 8);
    reveal_strlit("Count$Compare ");
    lemma_parts_from(t, "Count$Compare "@, 6);
    reveal_strlit("Count$ColorsColorIdentity");
    lemma_parts_from(t, "Count$ColorsColorIdentity"@, 6);
    reveal_strlit("Count$CardPower");
    lemma_parts_from(t, "Count$CardPower"@, 6);
    reveal_strlit("Count$CardToughness");
    lemma_parts_from(t, "Count$CardToughness"@, 6);
    reveal_strlit("Count$YourTurns");
    lemma_parts_from(t, "Count$YourTurns"@, 6);
    reveal_strlit("Count$CardCounters.");
    lemma_parts_from(t, "Count$CardCounters."@, 6);
    reveal_strlit("Count$TotalDamageDoneByThisTurn");
    lemma_parts_from(t, "Count$TotalDamageDoneByThisTurn"@, 6);
    reveal_strlit("Count$CardsInYour");
    lemma_parts_from(t, "Count$CardsInYour"@, 6);
    reveal_strlit("Count$InYour");
    lemma_parts_from(t, "Count$InYour"@, 6);
    reveal_strlit("Count$MaxSameStoredRolls");
    lemma_parts_from(t, "Count$MaxSameStoredRolls"@, 6);
    reveal_strlit("Count$RememberedNumber");
    lemma_parts_from(t, "Count$RememberedNumber"@, 6);
    reveal_strlit("Count$RememberedSize");
    lemma_parts_from(t, "Count$RememberedSize"@, 6);
    lemma_body(head, a, b);
    assert(crate::svar::count_body::head_of(body) == head);
    reveal_strlit("IsPrime");
    lemma_parts_from(head, "IsPrime"@, 0);
    reveal_strlit("ResolvedThisTurn");
    lemma_parts_from(head, "ResolvedThisTurn"@, 0);
    crate::svar::eval::law_numbers_stand_for_themselves(s, depth, a);
    crate::svar::eval::law_numbers_stand_for_themselves(s, depth, b);
}

/// A choice by whether the player committed a crime in the turn.
pub proof fn law_crime_numbers(s: SceneView, depth: u32, hops: u32, a: Seq<char>, b: Seq<char>)
    requires
        is_set(s),
        depth > 0,
        int_value(a) is Some,
        int_value(b) is Some,
    ensures
        count_value(s, depth, hops, choice_text("Count$CommittedCrimeThisTurn."@, a, b)) == if player_of(s).committed_crime_this_turn > 0 {
            int_value(a)->0
        } else {
            int_value(b)->0
        },
{
    let t = choice_text("Count$CommittedCrimeThisTurn."@, a, b);
    let head = "CommittedCrimeThisTurn"@;
    reveal_strlit("Count$CommittedCrimeThisTurn.");
    reveal_strlit("CommittedCrimeThisTurn");
    reveal_strlit("Count$");
    let body = head + seq!['.'] + (a + seq!['.'] + b);
    assert(t =~= "Count$"@ + body);
    lemma_starts("Count$"@, body);
    lemma_choice("Count$CommittedCrimeThisTurn."@, a, b);
    lemma_number_chars(a, '.');
    lemma_number_chars(b, '.');
    assert(t[0] == 'C');
    assert(t[6] == 'C');
    assert(t[7] == 'o');
    assert(t[8] == 'm');
    assert(t[9] == 'm');
    reveal_strlit("PlayerCount");
    lemma_parts_from(t, "PlayerCount"@, 0);
    reveal_strlit("TargetedObjects");
    lemma_parts_from(t, "TargetedObjects"@, 0);
    reveal_strlit("Count$xPaid");
    lemma_parts_from(t, "Count$xPaid"@, 6);
    reveal_strlit("Count$XPaid");
    lemma_parts_from(t, "Count$XPaid"@, 6);
    reveal_strlit("Count$CastTotalManaSpent ");
    lemma_parts_from(t, "Count$CastTotalManaSpent "@, 7);
    reveal_strlit("Count$CastTotalManaSpent");
    lemma_parts_from(t, "Count$CastTotalManaSpent"@, 7);
    reveal_strlit("Count$TriggerRememberAmount");
    lemma_parts_from(t, "Count$TriggerRememberAmount"@, 6);
    reveal_strlit("Count$OptionalKeywordAmount");
    lemma_parts_from(t, "Count$OptionalKeywordAmount"@, 6);
    reveal_strlit("Count$ChosenNumber");
    lemma_parts_from(t, "Count$ChosenNumber"@, 7);
    reveal_strlit("TriggerCount$Result");
    lemma_parts_from(t, "TriggerCount$Result"@, 0);
    reveal_strlit("TriggerCountMax$Result");
    lemma_parts_from(t, "TriggerCountMax$Result"@, 0);
    reveal_strlit("Count$Converge");
    lemma_parts_from(t, "Count$Converge"@, 8);
    reveal_strlit("Count$Sunburst");
    lemma_parts_from(t, "Count$Sunburst"@, 6);
    reveal_strlit("Count$Adamant");
    lemma_parts_from(t, "Count$Adamant"@, 6);
    reveal_strlit("Count$FinalChapterNr");
    lemma_parts_from(t, "Count$FinalChapterNr"@, 6);
    reveal_strlit("Count$YourSpeed");
    lemma_parts_from(t, "Count$YourSpeed"@, 6);
    reveal_strlit("Count$DomainActivePlayer");
    lemma_parts_from(t, "Count$DomainActivePlayer"@, 6);
    reveal_strlit("Count$Domain");
    lemma_parts_from(t, "Count$Domain"@, 6);
    reveal_strlit("Count$Party");
    lemma_parts_from(t, "Count$Party"@, 6);
    reveal_strlit("Count$YourLifeTotal");
    lemma_parts_from(t, "Count$YourLifeTotal"@, 6);
    reveal_strlit("Count$YouDrewThisTurn");
    lemma_parts_from(t, "Count$YouDrewThisTurn"@, 6);
    reveal_strlit("Count$OppGreatestLifeTotal");
    lemma_parts_from(t, "Count$OppGreatestLifeTotal"@, 6);
    reveal_strlit("Count$Metalcraft.");
    lemma_parts_from(t, "Count$Metalcraft."@, 6);
    reveal_strlit("Count$MaxSpeed.");
    lemma_parts_from(t, "Count$MaxSpeed."@, 6);
    reveal_strlit("Count$AttackersDeclared");
    lemma_parts_from(t, "Count$AttackersDeclared"@, 6);
    reveal_strlit("Count$TopOfLibraryCMC");
    lemma_parts_from(t, "Count$TopOfLibraryCMC"@, 6);
    reveal_strlit("Count$OptionalGenericCostPaid.");
    lemma_parts_from(t, "Count$OptionalGenericCostPaid."@, 6);
    reveal_strlit("Count$KickedCount");
    lemma_parts_from(t, "Count$KickedCount"@, 6);
    reveal_strlit("Count$Kicked.");
    lemma_parts_from(t, "Count$Kicked."@, 6);
    reveal_strlit("Count$UrzaLands.");
    lemma_parts_from(t, "Count$UrzaLands."@, 6);
    reveal_strlit("Count$PromisedGift.");
    lemma_parts_from(t, "Count$PromisedGift."@, 6);
    reveal_strlit("Count$PromisedGift");
    lemma_parts_from(t, "Count$PromisedGift"@, 6);
    reveal_strlit("Count$Valid");
    lemma_parts_from(t, "Count$Valid"@, 6);
    reveal_strlit("Count$Valid ");
    lemma_parts_from(t, "Count$Valid "@, 6);
    reveal_strlit("Count$Devotion.");
    lemma_parts_from(t, "Count$Devotion."@, 6);
    reveal_strlit("Count$Compare ");
    lemma_parts_from(t, "Count$Compare "@, 9);
    reveal_strlit("Count$ColorsColorIdentity");
    lemma_parts_from(t, "Count$ColorsColorIdentity"@, 8);
    reveal_strlit("Count$CardPower");
    lemma_parts_from(t, "Count$CardPower"@, 7);
    reveal_strlit("Count$CardToughness");
    lemma_parts_from(t, "Count$CardToughness"@, 7);
    reveal_strlit("Count$YourTurns");
    lemma_parts_from(t, "Count$YourTurns"@, 6);
    reveal_strlit("Count$CardCounters.");
    lemma_parts_from(t, "Count$CardCounters."@, 7);
    reveal_strlit("Count$TotalDamageDoneByThisTurn");
    lemma_parts_from(t, "Count$TotalDamageDoneByThisTurn"@, 6);
    reveal_strlit("Count$CardsInYour");
    lemma_parts_from(t, "Count$CardsInYour"@, 7);
    reveal_strlit("Count$InYour");
    lemma_parts_from(t, "Count$InYour"@, 6);
    reveal_strlit("Count$MaxSameStoredRolls");
    lemma_parts_from(t, "Count$MaxSameStoredRolls"@, 6);
    reveal_strlit("Count$RememberedNumber");
    lemma_parts_from(t, "Count$RememberedNumber"@, 6);
    reveal_strlit("Count$RememberedSize");
    lemma_parts_from(t, "Count$RememberedSize"@, 6);
    lemma_body(head, a, b);
    assert(crate::svar::count_body::head_of(body) == head);
    reveal_strlit("IsPrime");
    lemma_parts_from(head, "IsPrime"@, 0);
    reveal_strlit("ResolvedThisTurn");
    lemma_parts_from(head, "ResolvedThisTurn"@, 0);
    reveal_strlit("Delirium");
    lemma_parts_from(head, "Delirium"@, 0);
    crate::svar::eval::law_numbers_stand_for_themselves(s, depth, a);
    crate::svar::eval::law_numbers_stand_for_themselves(s, depth, b);
}

/// A choice by whether the bargain was paid.
pub proof fn law_bargain_numbers(s: SceneView, depth: u32, hops: u32, a: Seq<char>, b: Seq<char>)
    requires
        is_set(s),
        depth > 0,
        int_value(a) is Some,
        int_value(b) is Some,
    ensures
        count_value(s, depth, hops, choice_text("Count$Bargain."@, a, b)) == if s.sa.optional_costs.contains(OptionalCost::Bargain) {
            int_value(a)->0
        } else {
            int_value(b)->0
        },
{
    let t = choice_text("Count$Bargain."@, a, b);
    let head = "Bargain"@;
    reveal_strlit("Count$Bargain.");
    reveal_strlit("Bargain");
    reveal_strlit("Count$");
    let body = head + seq!['.'] + (a + seq!['.'] + b);
    assert(t =~= "Count$"@ + body);
    lemma_starts("Count$"@, body);
    lemma_choice("Count$Bargain."@, a, b);
    lemma_number_chars(a, '.');
    lemma_number_chars(b, '.');
    assert(t[0] == 'C');
    assert(t[6] == 'B');
    reveal_strlit("PlayerCount");
    lemma_parts_from(t, "PlayerCount"@, 0);
    reveal_strlit("TargetedObjects");
    lemma_parts_from(t, "TargetedObjects"@, 0);
    reveal_strlit("Count$xPaid");
    lemma_parts_from(t, "Count$xPaid"@, 6);
    reveal_strlit("Count$XPaid");
    lemma_parts_from(t, "Count$XPaid"@, 6);
    reveal_strlit("Count$CastTotalManaSpent ");
    lemma_parts_from(t, "Count$CastTotalManaSpent "@, 6);
    reveal_strlit("Count$CastTotalManaSpent");
    lemma_parts_from(t, "Count$CastTotalManaSpent"@, 6);
    reveal_strlit("Count$TriggerRememberAmount");
    lemma_parts_from(t, "Count$TriggerRememberAmount"@, 6);
    reveal_strlit("Count$OptionalKeywordAmount");
    lemma_parts_from(t, "Count$OptionalKeywordAmount"@, 6);
    reveal_strlit("Count$ChosenNumber");
    lemma_parts_from(t, "Count$ChosenNumber"@, 6);
    reveal_strlit("TriggerCount$Result");
    lemma_parts_from(t, "TriggerCount$Result"@, 0);
    reveal_strlit("TriggerCountMax$Result");
    lemma_parts_from(t, "TriggerCountMax$Result"@, 0);
    reveal_strlit("Count$Converge");
    lemma_parts_from(t, "Count$Converge"@, 6);
    reveal_strlit("Count$Sunburst");
    lemma_parts_from(t, "Count$Sunburst"@, 6);
    reveal_strlit("Count$Adamant");
    lemma_parts_from(t, "Count$Adamant"@, 6);
    reveal_strlit("Count$FinalChapterNr");
    lemma_parts_from(t, "Count$FinalChapterNr"@, 6);
    reveal_strlit("Count$YourSpeed");
    lemma_parts_from(t, "Count$YourSpeed"@, 6);
    reveal_strlit("Count$DomainActivePlayer");
    lemma_parts_from(t, "Count$DomainActivePlayer"@, 6);
    reveal_strlit("Count$Domain");
    lemma_parts_from(t, "Count$Domain"@, 6);
    reveal_strlit("Count$Party");
    lemma_parts_from(t, "Count$Party"@, 6);
    reveal_strlit("Count$YourLifeTotal");
    lemma_parts_from(t, "Count$YourLifeTotal"@, 6);
    reveal_strlit("Count$YouDrewThisTurn");
    lemma_parts_from(t, "Count$YouDrewThisTurn"@, 6);
    reveal_strlit("Count$OppGreatestLifeTotal");
    lemma_parts_from(t, "Count$OppGreatestLifeTotal"@, 6);
    reveal_strlit("Count$Metalcraft.");
    lemma_parts_from(t, "Count$Metalcraft."@, 6);
    reveal_strlit("Count$MaxSpeed.");
    lemma_parts_from(t, "Count$MaxSpeed."@, 6);
    reveal_strlit("Count$AttackersDeclared");
    lemma_parts_from(t, "Count$AttackersDeclared"@, 6);
    reveal_strlit("Count$TopOfLibraryCMC");
    lemma_parts_from(t, "Count$TopOfLibraryCMC"@, 6);
    reveal_strlit("Count$OptionalGenericCostPaid.");
    lemma_parts_from(t, "Count$OptionalGenericCostPaid."@, 6);
    reveal_strlit("Count$KickedCount");
    lemma_parts_from(t, "Count$KickedCount"@, 6);
    reveal_strlit("Count$Kicked.");
    lemma_parts_from(t, "Count$Kicked."@, 6);
    reveal_strlit("Count$UrzaLands.");
    lemma_parts_from(t, "Count$UrzaLands."@, 6);
    reveal_strlit("Count$PromisedGift.");
    lemma_parts_from(t, "Count$PromisedGift."@, 6);
    reveal_strlit("Count$PromisedGift");
    lemma_parts_from(t, "Count$PromisedGift"@, 6);
    reveal_strlit("Count$Valid");
    lemma_parts_from(t, "Count$Valid"@, 6);
    reveal_strlit("Count$Valid ");
    lemma_parts_from(t, "Count$Valid "@, 6);
    reveal_strlit("Count$Devotion.");
    lemma_parts_from(t, "Count$Devotion."@, 6);
    reveal_strlit("Count$Compare ");
    lemma_parts_from(t, "Count$Compare "@, 6);
    reveal_strlit("Count$ColorsColorIdentity");
    lemma_parts_from(t, "Count$ColorsColorIdentity"@, 6);
    reveal_strlit("Count$CardPower");
    lemma_parts_from(t, "Count$CardPower"@, 6);
    reveal_strlit("Count$CardToughness");
    lemma_parts_from(t, "Count$CardToughness"@, 6);
    reveal_strlit("Count$YourTurns");
    lemma_parts_from(t, "Count$YourTurns"@, 6);
    reveal_strlit("Count$CardCounters.");
    lemma_parts_from(t, "Count$CardCounters."@, 6);
    reveal_strlit("Count$TotalDamageDoneByThisTurn");
    lemma_parts_from(t, "Count$TotalDamageDoneByThisTurn"@, 6);
    reveal_strlit("Count$CardsInYour");
    lemma_parts_from(t, "Count$CardsInYour"@, 6);
    reveal_strlit("Count$InYour");
    lemma_parts_from(t, "Count$InYour"@, 6);
    reveal_strlit("Count$MaxSameStoredRolls");
    lemma_parts_from(t, "Count$MaxSameStoredRolls"@, 6);
    reveal_strlit("Count$RememberedNumber");
    lemma_parts_from(t, "Count$RememberedNumber"@, 6);
    reveal_strlit("Count$RememberedSize");
    lemma_parts_from(t, "Count$RememberedSize"@, 6);
    lemma_body(head, a, b);
    assert(crate::svar::count_body::head_of(body) == head);
    reveal_strlit("IsPrime");
    lemma_parts_from(head, "IsPrime"@, 0);
    reveal_strlit("ResolvedThisTurn");
    lemma_parts_from(head, "ResolvedThisTurn"@, 0);
    reveal_strlit("Delirium");
    lemma_parts_from(head, "Delirium"@, 0);
    reveal_strlit("CommittedCrimeThisTurn");
    lemma_parts_from(head, "CommittedCrimeThisTurn"@, 0);
    reveal_strlit("YourStartingLife");
    lemma_parts_from(head, "YourStartingLife"@, 0);
    reveal_strlit("LifeYouLostThisTurn");
    lemma_lacks(head, "LifeYouLostThisTurn"@, 0);
    reveal_strlit("LifeYouGainedThisTurn");
    lemma_lacks(head, "LifeYouGainedThisTurn"@, 0);
    reveal_strlit("LifeYourTeamGainedThisTurn");
    lemma_lacks(head, "LifeYourTeamGainedThisTurn"@, 0);
    reveal_strlit("LifeYouGainedTimesThisTurn");
    lemma_lacks(head, "LifeYouGainedTimesThisTurn"@, 0);
    reveal_strlit("LifeOppsLostThisTurn");
    lemma_lacks(head, "LifeOppsLostThisTurn"@, 0);
    reveal_strlit("CrewSize");
    lemma_parts_from(head, "CrewSize"@, 0);
    reveal_strlit("TotalDamageReceivedThisTurn");
    lemma_parts_from(head, "TotalDamageReceivedThisTurn"@, 0);
    reveal_strlit("MaxCombatDamageThisTurn");
    lemma_parts_from(head, "MaxCombatDamageThisTurn"@, 0);
    reveal_strlit("Morbid");
    lemma_parts_from(head, "Morbid"@, 0);
    reveal_strlit("CountersAddedThisTurn");
    lemma_parts_from(head, "CountersAddedThisTurn"@, 0);
    reveal_strlit("TimesKicked");
    lemma_lacks(head, "TimesKicked"@, 0);
    assert(head.subrange(0, head.len() as int) =~= head);
    crate::svar::eval::law_numbers_stand_for_themselves(s, depth, a);
    crate::svar::eval::law_numbers_stand_for_themselves(s, depth, b);
}

/// A choice by whether teamwork was paid.
pub proof fn law_teamwork_numbers(s: SceneView, depth: u32, hops: u32, a: Seq<char>, b: Seq<char>)
    requires
        is_set(s),
        depth > 0,
        int_value(a) is Some,
        int_value(b) is Some,
    ensures
        count_value(s, depth, hops, choice_text("Count$Teamwork."@, a, b)) == if s.sa.optional_costs.contains(OptionalCost::Teamwork) {
            int_value(a)->0
        } else {
            int_value(b)->0
        },
{
    let t = choice_text("Count$Teamwork."@, a, b);
    let head = "Teamwork"@;
    reveal_strlit("Count$Teamwork.");
    reveal_strlit("Teamwork");
    reveal_strlit("Count$");
    let body = head + seq!['.'] + (a + seq!['.'] + b);
    assert(t =~= "Count$"@ + body);
    lemma_starts("Count$"@, body);
    lemma_choice("Count$Teamwork."@, a, b);
    lemma_number_chars(a, '.');
    lemma_number_chars(b, '.');
    assert(t[0] == 'C');
    assert(t[6] == 'T');
    assert(t[7] == 'e');
    reveal_strlit("PlayerCount");
    lemma_parts_from(t, "PlayerCount"@, 0);
    reveal_strlit("TargetedObjects");
    lemma_parts_from(t, "TargetedObjects"@, 0);
    reveal_strlit("Count$xPaid");
    lemma_parts_from(t, "Count$xPaid"@, 6);
    reveal_strlit("Count$XPaid");
    lemma_parts_from(t, "Count$XPaid"@, 6);
    reveal_strlit("Count$CastTotalManaSpent ");
    lemma_parts_from(t, "Count$CastTotalManaSpent "@, 6);
    reveal_strlit("Count$CastTotalManaSpent");
    lemma_parts_from(t, "Count$CastTotalManaSpent"@, 6);
    reveal_strlit("Count$TriggerRememberAmount");
    lemma_parts_from(t, "Count$TriggerRememberAmount"@, 7);
    reveal_strlit("Count$OptionalKeywordAmount");
    lemma_parts_from(t, "Count$OptionalKeywordAmount"@, 6);
    reveal_strlit("Count$ChosenNumber");
    lemma_parts_from(t, "Count$ChosenNumber"@, 6);
    reveal_strlit("TriggerCount$Result");
    lemma_parts_from(t, "TriggerCount$Result"@, 0);
    reveal_strlit("TriggerCountMax$Result");
    lemma_parts_from(t, "TriggerCountMax$Result"@, 0);
    reveal_strlit("Count$Converge");
    lemma_parts_from(t, "Count$Converge"@, 6);
    reveal_strlit("Count$Sunburst");
    lemma_parts_from(t, "Count$Sunburst"@, 6);
    reveal_strlit("Count$Adamant");
    lemma_parts_from(t, "Count$Adamant"@, 6);
    reveal_strlit("Count$FinalChapterNr");
    lemma_parts_from(t, "Count$FinalChapterNr"@, 6);
    reveal_strlit("Count$YourSpeed");
    lemma_parts_from(t, "Count$YourSpeed"@, 6);
    reveal_strlit("Count$DomainActivePlayer");
    lemma_parts_from(t, "Count$DomainActivePlayer"@, 6);
    reveal_strlit("Count$Domain");
    lemma_parts_from(t, "Count$Domain"@, 6);
    reveal_strlit("Count$Party");
    lemma_parts_from(t, "Count$Party"@, 6);
    reveal_strlit("Count$YourLifeTotal");
    lemma_parts_from(t, "Count$YourLifeTotal"@, 6);
    reveal_strlit("Count$YouDrewThisTurn");
    lemma_parts_from(t, "Count$YouDrewThisTurn"@, 6);
    reveal_strlit("Count$OppGreatestLifeTotal");
    lemma_parts_from(t, "Count$OppGreatestLifeTotal"@, 6);
    reveal_strlit("Count$Metalcraft.");
    lemma_parts_from(t, "Count$Metalcraft."@, 6);
    reveal_strlit("Count$MaxSpeed.");
    lemma_parts_from(t, "Count$MaxSpeed."@, 6);
    reveal_strlit("Count$AttackersDeclared");
    lemma_parts_from(t, "Count$AttackersDeclared"@, 6);
    reveal_strlit("Count$TopOfLibraryCMC");
    lemma_parts_from(t, "Count$TopOfLibraryCMC"@, 7);
    reveal_strlit("Count$OptionalGenericCostPaid.");
    lemma_parts_from(t, "Count$OptionalGenericCostPaid."@, 6);
    reveal_strlit("Count$KickedCount");
    lemma_parts_from(t, "Count$KickedCount"@, 6);
    reveal_strlit("Count$Kicked.");
    lemma_parts_from(t, "Count$Kicked."@, 6);
    reveal_strlit("Count$UrzaLands.");
    lemma_parts_from(t, "Count$UrzaLands."@, 6);
    reveal_strlit("Count$PromisedGift.");
    lemma_parts_from(t, "Count$PromisedGift."@, 6);
    reveal_strlit("Count$PromisedGift");
    lemma_parts_from(t, "Count$PromisedGift"@, 6);
    reveal_strlit("Count$Valid");
    lemma_parts_from(t, "Count$Valid"@, 6);
    reveal_strlit("Count$Valid ");
    lemma_parts_from(t, "Count$Valid "@, 6);
    reveal_strlit("Count$Devotion.");
    lemma_parts_from(t, "Count$Devotion."@, 6);
    reveal_strlit("Count$Compare ");
    lemma_parts_from(t, "Count$Compare "@, 6);
    reveal_strlit("Count$ColorsColorIdentity");
    lemma_parts_from(t, "Count$ColorsColorIdentity"@, 6);
    reveal_strlit("Count$CardPower");
    lemma_parts_from(t, "Count$CardPower"@, 6);
    reveal_strlit("Count$CardToughness");
    lemma_parts_from(t, "Count$CardToughness"@, 6);
    reveal_strlit("Count$YourTurns");
    lemma_parts_from(t, "Count$YourTurns"@, 6);
    reveal_strlit("Count$CardCounters.");
    lemma_parts_from(t, "Count$CardCounters."@, 6);
    reveal_strlit("Count$TotalDamageDoneByThisTurn");
    lemma_parts_from(t, "Count$TotalDamageDoneByThisTurn"@, 7);
    reveal_strlit("Count$CardsInYour");
    lemma_parts_from(t, "Count$CardsInYour"@, 6);
    reveal_strlit("Count$InYour");
    lemma_parts_from(t, "Count$InYour"@, 6);
    reveal_strlit("Count$MaxSameStoredRolls");
    lemma_parts_from(t, "Count$MaxSameStoredRolls"@, 6);
    reveal_strlit("Count$RememberedNumber");
    lemma_parts_from(t, "Count$RememberedNumber"@, 6);
    reveal_strlit("Count$RememberedSize");
    lemma_parts_from(t, "Count$RememberedSize"@, 6);
    lemma_body(head, a, b);
    assert(crate::svar::count_body::head_of(body) == head);
    reveal_strlit("IsPrime");
    lemma_parts_from(head, "IsPrime"@, 0);
    reveal_strlit("ResolvedThisTurn");
    lemma_parts_from(head, "ResolvedThisTurn"@, 0);
    reveal_strlit("Delirium");
    lemma_parts_from(head, "Delirium"@, 0);
    reveal_strlit("CommittedCrimeThisTurn");
    lemma_parts_from(head, "CommittedCrimeThisTurn"@, 0);
    reveal_strlit("YourStartingLife");
    lemma_parts_from(head, "YourStartingLife"@, 0);
    reveal_strlit("LifeYouLostThisTurn");
    lemma_lacks(head, "LifeYouLostThisTurn"@, 0);
    reveal_strlit("LifeYouGainedThisTurn");
    lemma_lacks(head, "LifeYouGainedThisTurn"@, 0);
    reveal_strlit("LifeYourTeamGainedThisTurn");
    lemma_lacks(head, "LifeYourTeamGainedThisTurn"@, 0);
    reveal_strlit("LifeYouGainedTimesThisTurn");
    lemma_lacks(head, "LifeYouGainedTimesThisTurn"@, 0);
    reveal_strlit("LifeOppsLostThisTurn");
    lemma_lacks(head, "LifeOppsLostThisTurn"@, 0);
    reveal_strlit("CrewSize");
    lemma_parts_from(head, "CrewSize"@, 0);
    reveal_strlit("TotalDamageReceivedThisTurn");
    lemma_parts_from(head, "TotalDamageReceivedThisTurn"@, 1);
    reveal_strlit("MaxCombatDamageThisTurn");
    lemma_parts_from(head, "MaxCombatDamageThisTurn"@, 0);
    reveal_strlit("Morbid");
    lemma_parts_from(head, "Morbid"@, 0);
    reveal_strlit("CountersAddedThisTurn");
    lemma_parts_from(head, "CountersAddedThisTurn"@, 0);
    reveal_strlit("TimesKicked");
    lemma_lacks(head, "TimesKicked"@, 1);
    reveal_strlit("Bargain");
    lemma_parts_from(head, "Bargain"@, 0);
    assert(head.subrange(0, head.len() as int) =~= head);
    crate::svar::eval::law_numbers_stand_for_themselves(s, depth, a);
    crate::svar::eval::law_numbers_stand_for_themselves(s, depth, b);
}

/// A choice by whether there is a void.
pub proof fn law_void_numbers(s: SceneView, depth: u32, hops: u32, a: Seq<char>, b: Seq<char>)
    requires
        is_set(s),
        depth > 0,
        int_value(a) is Some,
        int_value(b) is Some,
    ensures
        count_value(s, depth, hops, choice_text("Count$Void."@, a, b)) == if s.game.is_void {
            int_value(a)->0
        } else {
            int_value(b)->0
        },
{
    let t = choice_text("Count$Void."@, a, b);
    let head = "Void"@;
    reveal_strlit("Count$Void.");
    reveal_strlit("Void");
    reveal_strlit("Count$");
    let body = head + seq!['.'] + (a + seq!['.'] + b);
    assert(t =~= "Count$"@ + body);
    lemma_starts("Count$"@, body);
    lemma_choice("Count$Void."@, a, b);
    lemma_number_chars(a, '.');
    lemma_number_chars(b, '.');
    assert(t[0] == 'C');
    assert(t[6] == 'V');
    assert(t[7] == 'o');
    reveal_strlit("PlayerCount");
    lemma_parts_from(t, "PlayerCount"@, 0);
    reveal_strlit("TargetedObjects");
    lemma_parts_from(t, "TargetedObjects"@, 0);
    reveal_strlit("Count$xPaid");
    lemma_parts_from(t, "Count$xPaid"@, 6);
    reveal_strlit("Count$XPaid");
    lemma_parts_from(t, "Count$XPaid"@, 6);
    reveal_strlit("Count$CastTotalManaSpent ");
    lemma_parts_from(t, "Count$CastTotalManaSpent "@, 6);
    reveal_strlit("Count$CastTotalManaSpent");
    lemma_parts_from(t, "Count$CastTotalManaSpent"@, 6);
    reveal_strlit("Count$TriggerRememberAmount");
    lemma_parts_from(t, "Count$TriggerRememberAmount"@, 6);
    reveal_strlit("Count$OptionalKeywordAmount");
    lemma_parts_from(t, "Count$OptionalKeywordAmount"@, 6);
    reveal_strlit("Count$ChosenNumber");
    lemma_parts_from(t, "Count$ChosenNumber"@, 6);
    reveal_strlit("TriggerCount$Result");
    lemma_parts_from(t, "TriggerCount$Result"@, 0);
    reveal_strlit("TriggerCountMax$Result");
    lemma_parts_from(t, "TriggerCountMax$Result"@, 0);
    reveal_strlit("Count$Converge");
    lemma_parts_from(t, "Count$Converge"@, 6);
    reveal_strlit("Count$Sunburst");
    lemma_parts_from(t, "Count$Sunburst"@, 6);
    reveal_strlit("Count$Adamant");
    lemma_parts_from(t, "Count$Adamant"@, 6);
    reveal_strlit("Count$FinalChapterNr");
    lemma_parts_from(t, "Count$FinalChapterNr"@, 6);
    reveal_strlit("Count$YourSpeed");
    lemma_parts_from(t, "Count$YourSpeed"@, 6);
    reveal_strlit("Count$DomainActivePlayer");
    lemma_parts_from(t, "Count$DomainActivePlayer"@, 6);
    reveal_strlit("Count$Domain");
    lemma_parts_from(t, "Count$Domain"@, 6);
    reveal_strlit("Count$Party");
    lemma_parts_from(t, "Count$Party"@, 6);
    reveal_strlit("Count$YourLifeTotal");
    lemma_parts_from(t, "Count$YourLifeTotal"@, 6);
    reveal_strlit("Count$YouDrewThisTurn");
    lemma_parts_from(t, "Count$YouDrewThisTurn"@, 6);
    reveal_strlit("Count$OppGreatestLifeTotal");
    lemma_parts_from(t, "Count$OppGreatestLifeTotal"@, 6);
    reveal_strlit("Count$Metalcraft.");
    lemma_parts_from(t, "Count$Metalcraft."@, 6);
    reveal_strlit("Count$MaxSpeed.");
    lemma_parts_from(t, "Count$MaxSpeed."@, 6);
    reveal_strlit("Count$AttackersDeclared");
    lemma_parts_from(t, "Count$AttackersDeclared"@, 6);
    reveal_strlit("Count$TopOfLibraryCMC");
    lemma_parts_from(t, "Count$TopOfLibraryCMC"@, 6);
    reveal_strlit("Count$OptionalGenericCostPaid.");
    lemma_parts_from(t, "Count$OptionalGenericCostPaid."@, 6);
    reveal_strlit("Count$KickedCount");
    lemma_parts_from(t, "Count$KickedCount"@, 6);
    reveal_strlit("Count$Kicked.");
    lemma_parts_from(t, "Count$Kicked."@, 6);
    reveal_strlit("Count$UrzaLands.");
    lemma_parts_from(t, "Count$UrzaLands."@, 6);
    reveal_strlit("Count$PromisedGift.");
    lemma_parts_from(t, "Count$PromisedGift."@, 6);
    reveal_strlit("Count$PromisedGift");
    lemma_parts_from(t, "Count$PromisedGift"@, 6);
    reveal_strlit("Count$Valid");
    lemma_parts_from(t, "Count$Valid"@, 7);
    reveal_strlit("Count$Valid ");
    lemma_parts_from(t, "Count$Valid "@, 7);
    reveal_strlit("Count$Devotion.");
    lemma_parts_from(t, "Count$Devotion."@, 6);
    reveal_strlit("Count$Compare ");
    lemma_parts_from(t, "Count$Compare "@, 6);
    reveal_strlit("Count$ColorsColorIdentity");
    lemma_parts_from(t, "Count$ColorsColorIdentity"@, 6);
    reveal_strlit("Count$CardPower");
    lemma_parts_from(t, "Count$CardPower"@, 6);
    reveal_strlit("Count$CardToughness");
    lemma_parts_from(t, "Count$CardToughness"@, 6);
    reveal_strlit("Count$YourTurns");
    lemma_parts_from(t, "Count$YourTurns"@, 6);
    reveal_strlit("Count$CardCounters.");
    lemma_parts_from(t, "Count$CardCounters."@, 6);
    reveal_strlit("Count$TotalDamageDoneByThisTurn");
    lemma_parts_from(t, "Count$TotalDamageDoneByThisTurn"@, 6);
    reveal_strlit("Count$CardsInYour");
    lemma_parts_from(t, "Count$CardsInYour"@, 6);
    reveal_strlit("Count$InYour");
    lemma_parts_from(t, "Count$InYour"@, 6);
    reveal_strlit("Count$MaxSameStoredRolls");
    lemma_parts_from(t, "Count$MaxSameStoredRolls"@, 6);
    reveal_strlit("Count$RememberedNumber");
    lemma_parts_from(t, "Count$RememberedNumber"@, 6);
    reveal_strlit("Count$RememberedSize");
    lemma_parts_from(t, "Count$RememberedSize"@, 6);
    lemma_body(head, a, b);
    assert(crate::svar::count_body::head_of(body) == head);
    reveal_strlit("IsPrime");
    lemma_parts_from(head, "IsPrime"@, 0);
    reveal_strlit("ResolvedThisTurn");
    lemma_parts_from(head, "ResolvedThisTurn"@, 0);
    reveal_strlit("Delirium");
    lemma_parts_from(head, "Delirium"@, 0);
    reveal_strlit("CommittedCrimeThisTurn");
    lemma_parts_from(head, "CommittedCrimeThisTurn"@, 0);
    reveal_strlit("YourStartingLife");
    lemma_parts_from(head, "YourStartingLife"@, 0);
    reveal_strlit("LifeYouLostThisTurn");
    lemma_lacks(head, "LifeYouLostThisTurn"@, 0);
    reveal_strlit("LifeYouGainedThisTurn");
    lemma_lacks(head, "LifeYouGainedThisTurn"@, 0);
    reveal_strlit("LifeYourTeamGainedThisTurn");
    lemma_lacks(head, "LifeYourTeamGainedThisTurn"@, 0);
    reveal_strlit("LifeYouGainedTimesThisTurn");
    lemma_lacks(head, "LifeYouGainedTimesThisTurn"@, 0);
    reveal_strlit("LifeOppsLostThisTurn");
    lemma_lacks(head, "LifeOppsLostThisTurn"@, 0);
    reveal_strlit("CrewSize");
    lemma_parts_from(head, "CrewSize"@, 0);
    reveal_strlit("TotalDamageReceivedThisTurn");
    lemma_parts_from(head, "TotalDamageReceivedThisTurn"@, 0);
    reveal_strlit("MaxCombatDamageThisTurn");
    lemma_parts_from(head, "MaxCombatDamageThisTurn"@, 0);
    reveal_strlit("Morbid");
    lemma_parts_from(head, "Morbid"@, 0);
    reveal_strlit("CountersAddedThisTurn");
    lemma_parts_from(head, "CountersAddedThisTurn"@, 0);
    reveal_strlit("TimesKicked");
    lemma_lacks(head, "TimesKicked"@, 0);
    reveal_strlit("Bargain");
    lemma_parts_from(head, "Bargain"@, 0);
    reveal_strlit("Teamwork");
    lemma_parts_from(head, "Teamwork"@, 0);
    reveal_strlit("YouFlipThisTurn");
    lemma_parts_from(head, "YouFlipThisTurn"@, 0);
    reveal_strlit("YouDescendedThisTurn");
    lemma_parts_from(head, "YouDescendedThisTurn"@, 0);
    reveal_strlit("UnlockedDoors");
    lemma_parts_from(head, "UnlockedDoors"@, 0);
    assert(head.subrange(0, head.len() as int) =~= head);
    crate::svar::eval::law_numbers_stand_for_themselves(s, depth, a);
    crate::svar::eval::law_numbers_stand_for_themselves(s, depth, b);
}

} // verus!
