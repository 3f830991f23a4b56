//! How cards and players are counted.

use vstd::prelude::*;
use crate::game::{living_among, Card, GameState, Player};
use crate::laws::numbers::{is_set, lemma_number_chars, lemma_parts_from, lemma_starts};
use crate::laws::operators::law_comparisons;
use crate::laws::turns::lemma_lacks;
use crate::svar::eval::{count_value, source_svar};
use crate::svar::facts::{card_number, player_number};
use crate::svar::folds::{
    aggregated, attackers_of, cards_in_zones, distinct, greatest, least, list_numbers, matching,
    merged, names_among, or_colors, total,
};
use crate::svar::lists::{devotion, domain, land_with, runs, symbols_meeting};
use crate::svar::party::{
    empty_scan, filled_count, first_free, given_out, has_role, next_role, party_size, role_count,
    scan_from, scanned, PartyScan,
};
use crate::svar::scene::SceneView;
use crate::svar::simple::{counted_players, opponents_among, players_with};
use crate::text::{has_prefix, int_value, lemma_mark_between, lemma_no_mark, trimmed, two_bytes};
use crate::types::{CardId, PlayerId, ZoneType};

verus! {

// ---- cards that match ----

proof fn lemma_matching(
    game: GameState,
    ids: Seq<CardId>,
    selector: Seq<char>,
    source: CardId,
    you: PlayerId,
    x: CardId,
)
    ensures
        matching(game, ids, selector, source, you).contains(x) <==> ids.contains(x) && game.facts.matches_card(
            selector,
            source,
            you,
            x,
        ),
    decreases ids.len(),
{
    let v = matching(game, ids, selector, source, you);
    if ids.len() > 0 {
        let short = ids.drop_last();
        let before = matching(game, short, selector, source, you);
        lemma_matching(game, short, selector, source, you, x);
        if ids.contains(x) && x != ids.last() {
            let i = choose|i: int| 0 <= i < ids.len() && ids[i] == x;
            assert(short[i] == x);
        }
        if short.contains(x) {
            let i = choose|i: int| 0 <= i < short.len() && short[i] == x;
            assert(ids[i] == x);
        }
        assert(ids[ids.len() - 1] == ids.last());
        if before.contains(x) {
            let i = choose|i: int| 0 <= i < before.len() && before[i] == x;
            assert(v[i] == x);
        }
        if v.contains(x) {
            let i = choose|i: int| 0 <= i < v.len() && v[i] == x;
            if i < before.len() {
                assert(before[i] == x);
            }
        }
        if v.len() > before.len() {
            assert(v[before.len() as int] == ids.last());
        }
    }
}

proof fn lemma_in_zones(
    cards: Seq<Card>,
    zones: Seq<ZoneType>,
    id: CardId,
)
    requires
        cards.len() <= u32::MAX,
    ensures
        cards_in_zones(cards, zones).contains(id) <==> id.0 < cards.len() && zones.contains(
            cards[id.0 as int].zone,
        ),
    decreases cards.len(),
{
    let v = cards_in_zones(cards, zones);
    if cards.len() > 0 {
        let short = cards.drop_last();
        let before = cards_in_zones(short, zones);
        lemma_in_zones(short, zones, id);
        if id.0 < short.len() {
            assert(short[id.0 as int] == cards[id.0 as int]);
        }
        if before.contains(id) {
            let i = choose|i: int| 0 <= i < before.len() && before[i] == id;
            assert(v[i] == id);
        }
        if v.contains(id) {
            let i = choose|i: int| 0 <= i < v.len() && v[i] == id;
            if i < before.len() {
                assert(before[i] == id);
            }
        }
        if v.len() > before.len() {
            assert(v[before.len() as int] == CardId((cards.len() - 1) as u32));
        }
    }
}

proof fn lemma_attackers(
    cards: Seq<Card>,
    player: PlayerId,
    id: CardId,
)
    requires
        cards.len() <= u32::MAX,
    ensures
        attackers_of(cards, player).contains(id) <==> id.0 < cards.len() && cards[id.0 as int].controller
            == player && cards[id.0 as int].attacked_this_turn && cards[id.0 as int].types.creature,
    decreases cards.len(),
{
    let v = attackers_of(cards, player);
    if cards.len() > 0 {
        let short = cards.drop_last();
        let before = attackers_of(short, player);
        lemma_attackers(short, player, id);
        if id.0 < short.len() {
            assert(short[id.0 as int] == cards[id.0 as int]);
        }
        if before.contains(id) {
            let i = choose|i: int| 0 <= i < before.len() && before[i] == id;
            assert(v[i] == id);
        }
        if v.contains(id) {
            let i = choose|i: int| 0 <= i < v.len() && v[i] == id;
            if i < before.len() {
                assert(before[i] == id);
            }
        }
        if v.len() > before.len() {
            assert(v[before.len() as int] == CardId((cards.len() - 1) as u32));
        }
    }
}

/// The cards of a list that match are those of it that do; each that does counts once more, and each
/// that does not changes nothing.
pub proof fn law_matching_cards(
    game: GameState,
    ids: Seq<CardId>,
    selector: Seq<char>,
    source: CardId,
    you: PlayerId,
    id: CardId,
)
    ensures
        matching(game, ids, selector, source, you).contains(id) <==> ids.contains(id)
            && game.facts.matches_card(selector, source, you, id),
        matching(game, ids.push(id), selector, source, you).len() == matching(
            game,
            ids,
            selector,
            source,
            you,
        ).len() + if game.facts.matches_card(selector, source, you, id) {
            1int
        } else {
            0
        },
        matching(game, Seq::empty(), selector, source, you).len() == 0,
{
    lemma_matching(game, ids, selector, source, you, id);
    assert(ids.push(id).drop_last() =~= ids);
}

/// The cards in some zones are all cards of the game that are in one of them; the attackers of a player
/// are the creatures of that player that attacked in the turn.
pub proof fn law_cards_in_zones(
    game: GameState,
    zones: Seq<ZoneType>,
    player: PlayerId,
    id: CardId,
)
    requires
        game.cards@.len() <= u32::MAX,
    ensures
        cards_in_zones(game.cards@, zones).contains(id) <==> (game.card_at(id) matches Some(c)
            && zones.contains(c.zone)),
        attackers_of(game.cards@, player).contains(id) <==> (game.card_at(id) matches Some(c)
            && c.controller == player && c.attacked_this_turn && c.types.creature),
{
    lemma_in_zones(game.cards@, zones, id);
    lemma_attackers(game.cards@, player, id);
}

/// A count of what matches a selector is the number of cards on the battlefield that do.
pub proof fn law_cards_counted_by_selector(
    s: SceneView,
    depth: u32,
    hops: u32,
    filter: Seq<char>,
)
    requires
        is_set(s),
        filter.len() > 0,
        trimmed(filter) == filter,
        !filter.contains('/'),
        !filter.contains('$'),
    ensures
        count_value(s, depth, hops, "Count$Valid "@ + filter) == matching(
            s.game,
            cards_in_zones(s.game.cards@, seq![ZoneType::Battlefield]),
            filter,
            s.source,
            s.you,
        ).len() as i32,
{
    let w = "Count$Valid "@;
    let t = w + filter;
    let rest = seq![' '] + filter;
    reveal_strlit("Count$Valid ");
    reveal_strlit("Count$Valid");
    reveal_strlit("/");
    reveal_strlit("$");
    reveal_strlit(" ");
    reveal_strlit("Self");
    reveal_strlit("");
    assert("/"@ =~= seq!['/']);
    assert("$"@ =~= seq!['$']);
    assert(" "@ =~= seq![' ']);
    assert(t =~= "Count$Valid"@ + rest);
    lemma_starts("Count$Valid"@, rest);
    assert(t[0] == 'C');
    assert(t[6] == 'V');
    reveal_strlit("PlayerCount");
    lemma_parts_from(t, "PlayerCount"@, 0);
    reveal_strlit("TargetedObjects");
    lemma_parts_from(t, "TargetedObjects"@, 0);
    reveal_strlit("Count$xPaid");
    lemma_parts_from(t, "Count$xPaid"@, 6);
    reveal_strlit("Count$XPaid");
    lemma_parts_from(t, "Count$XPaid"@, 6);
    reveal_strlit("Count$CastTotalManaSpent ");
    lemma_parts_from(t, "Count$CastTotalManaSpent "@, 6);
    reveal_strlit("Count$CastTotalManaSpent");
    lemma_parts_from(t, "Count$CastTotalManaSpent"@, 6);
    reveal_strlit("Count$TriggerRememberAmount");
    lemma_parts_from(t, "Count$TriggerRememberAmount"@, 6);
    reveal_strlit("Count$OptionalKeywordAmount");
    lemma_parts_from(t, "Count$OptionalKeywordAmount"@, 6);
    reveal_strlit("Count$ChosenNumber");
    lemma_parts_from(t, "Count$ChosenNumber"@, 6);
    reveal_strlit("TriggerCount$Result");
    lemma_parts_from(t, "TriggerCount$Result"@, 0);
    reveal_strlit("TriggerCountMax$Result");
    lemma_parts_from(t, "TriggerCountMax$Result"@, 0);
    reveal_strlit("Count$Converge");
    lemma_parts_from(t, "Count$Converge"@, 6);
    reveal_strlit("Count$Sunburst");
    lemma_parts_from(t, "Count$Sunburst"@, 6);
    reveal_strlit("Count$Adamant");
    lemma_parts_from(t, "Count$Adamant"@, 6);
    reveal_strlit("Count$FinalChapterNr");
    lemma_parts_from(t, "Count$FinalChapterNr"@, 6);
    reveal_strlit("Count$YourSpeed");
    lemma_parts_from(t, "Count$YourSpeed"@, 6);
    reveal_strlit("Count$DomainActivePlayer");
    lemma_parts_from(t, "Count$DomainActivePlayer"@, 6);
    reveal_strlit("Count$Domain");
    lemma_parts_from(t, "Count$Domain"@, 6);
    reveal_strlit("Count$Party");
    lemma_parts_from(t, "Count$Party"@, 6);
    reveal_strlit("Count$YourLifeTotal");
    lemma_parts_from(t, "Count$YourLifeTotal"@, 6);
    reveal_strlit("Count$YouDrewThisTurn");
    lemma_parts_from(t, "Count$YouDrewThisTurn"@, 6);
    reveal_strlit("Count$OppGreatestLifeTotal");
    lemma_parts_from(t, "Count$OppGreatestLifeTotal"@, 6);
    reveal_strlit("Count$Metalcraft.");
    lemma_parts_from(t, "Count$Metalcraft."@, 6);
    reveal_strlit("Count$MaxSpeed.");
    lemma_parts_from(t, "Count$MaxSpeed."@, 6);
    reveal_strlit("Count$AttackersDeclared");
    lemma_parts_from(t, "Count$AttackersDeclared"@, 6);
    reveal_strlit("Count$TopOfLibraryCMC");
    lemma_parts_from(t, "Count$TopOfLibraryCMC"@, 6);
    reveal_strlit("Count$OptionalGenericCostPaid.");
    lemma_parts_from(t, "Count$OptionalGenericCostPaid."@, 6);
    reveal_strlit("Count$KickedCount");
    lemma_parts_from(t, "Count$KickedCount"@, 6);
    reveal_strlit("Count$Kicked.");
    lemma_parts_from(t, "Count$Kicked."@, 6);
    reveal_strlit("Count$UrzaLands.");
    lemma_parts_from(t, "Count$UrzaLands."@, 6);
    reveal_strlit("Count$PromisedGift.");
    lemma_parts_from(t, "Count$PromisedGift."@, 6);
    reveal_strlit("Count$PromisedGift");
    lemma_parts_from(t, "Count$PromisedGift"@, 6);
    assert(!rest.contains('/')) by {
        if rest.contains('/') {
            let i = choose|i: int| 0 <= i < rest.len() && rest[i] == '/';
            assert(filter[i - 1] == '/');
        }
    }
    lemma_no_mark(rest, '/');
    lemma_starts(seq![' '], filter);
    lemma_no_mark(filter, '$');
}

// ---- sums and extremes ----

/// A sum grows by what is added, a greatest number is one of the numbers and none is greater, and of
/// different numbers each counts once.
pub proof fn law_folding_numbers(values: Seq<i32>, n: i32, none: i32)
    ensures
        total(Seq::empty()) == 0,
        i32::MIN <= total(values) + n <= i32::MAX ==> total(values.push(n)) == total(values) + n,
        greatest(values.push(n), none) >= n,
        values.len() > 0 ==> greatest(values.push(n), none) >= greatest(values, none) && (greatest(
            values.push(n),
            none,
        ) == n || greatest(values.push(n), none) == greatest(values, none)),
        least(values.push(n), none) <= n,
        values.len() > 0 ==> least(values.push(n), none) <= least(values, none) && (least(
            values.push(n),
            none,
        ) == n || least(values.push(n), none) == least(values, none)),
        greatest(Seq::empty(), none) == none,
        least(Seq::empty(), none) == none,
        distinct(values).contains(n) ==> distinct(values.push(n)).len() == distinct(values).len(),
        !distinct(values).contains(n) ==> distinct(values.push(n)).len() == distinct(values).len()
            + 1,
{
    assert(values.push(n).drop_last() =~= values);
}

/// What the cards of a list have together grows by what one more has.
pub proof fn law_totals_of_cards(game: GameState, ids: Seq<CardId>, id: CardId)
    requires
        game.card_at(id) is Some,
    ensures
        ({
            let c = game.card_at(id)->0;
            let more = ids.push(id);
            &&& i32::MIN <= aggregated(game, ids, "CardPower"@) + c.power <= i32::MAX ==> aggregated(
                game,
                more,
                "CardPower"@,
            ) == aggregated(game, ids, "CardPower"@) + c.power
            &&& i32::MIN <= aggregated(game, ids, "CardToughness"@) + c.toughness <= i32::MAX
                ==> aggregated(game, more, "CardToughness"@) == aggregated(
                game,
                ids,
                "CardToughness"@,
            ) + c.toughness
            &&& i32::MIN <= aggregated(game, ids, "CardManaCost"@) + c.mana_value <= i32::MAX
                ==> aggregated(game, more, "CardManaCost"@) == aggregated(
                game,
                ids,
                "CardManaCost"@,
            ) + c.mana_value
        }),
{
    lemma_total_of(game, ids, id, "CardPower"@);
    lemma_total_of(game, ids, id, "CardToughness"@);
    lemma_total_of(game, ids, id, "CardManaCost"@);
    lemma_list_words();
}

proof fn lemma_list_words()
    ensures
        "CardToughness"@ != "CardPower"@,
        "CardManaCost"@ != "CardPower"@,
        "CardManaCost"@ != "CardToughness"@,
        "CardManaCost"@ != "CardSumPT"@,
        "CardPower"@ != "CardSumPT"@,
{
    reveal_strlit("CardPower");
    reveal_strlit("CardToughness");
    reveal_strlit("CardManaCost");
    reveal_strlit("CardSumPT");
    assert("CardPower"@[4] == 'P' && "CardToughness"@[4] == 'T' && "CardManaCost"@[4] == 'M'
        && "CardSumPT"@[4] == 'S');
}

proof fn lemma_listed(game: GameState, ids: Seq<CardId>, p: Seq<char>)
    requires
        p == "CardPower"@ || p == "CardToughness"@ || p == "CardManaCost"@,
    ensures
        list_numbers(game, ids, p) is Some,
    decreases ids.len(),
{
    lemma_list_words();
    if ids.len() > 0 {
        lemma_listed(game, ids.drop_last(), p);
    }
}

proof fn lemma_total_of(game: GameState, ids: Seq<CardId>, id: CardId, p: Seq<char>)
    requires
        game.card_at(id) is Some,
        p == "CardPower"@ || p == "CardToughness"@ || p == "CardManaCost"@,
    ensures
        ({
            let n = if p == "CardPower"@ {
                game.card_at(id)->0.power
            } else if p == "CardToughness"@ {
                game.card_at(id)->0.toughness
            } else {
                game.card_at(id)->0.mana_value
            };
            i32::MIN <= aggregated(game, ids, p) + n <= i32::MAX ==> aggregated(
                game,
                ids.push(id),
                p,
            ) == aggregated(game, ids, p) + n
        }),
{
    lemma_list_words();
    lemma_listed(game, ids, p);
    lemma_listed(game, ids.push(id), p);
    assert(ids.push(id).drop_last() =~= ids);
    let values = list_numbers(game, ids, p)->0;
    let more = list_numbers(game, ids.push(id), p)->0;
    assert(more.drop_last() =~= values);
    reveal_strlit("CardPower");
    reveal_strlit("CardToughness");
    reveal_strlit("CardManaCost");
    assert(p[0] == 'C' && p.len() > 8);
    assert(p[4] == 'P' || p[4] == 'T' || p[4] == 'M');
    reveal_strlit("Amount");
    reveal_strlit("GreatestCardManaCost");
    reveal_strlit("CardTypes");
    reveal_strlit("CardTypesPermanent");
    reveal_strlit("Colors");
    reveal_strlit("CreatureType");
    reveal_strlit("DifferentCardNames");
    reveal_strlit("Least");
    reveal_strlit("Greatest");
    reveal_strlit("Different");
    lemma_parts_from(p, "Amount"@, 0);
    lemma_parts_from(p, "GreatestCardManaCost"@, 0);
    lemma_parts_from(p, "CreatureType"@, 1);
    lemma_parts_from(p, "Colors"@, 1);
    lemma_parts_from(p, "DifferentCardNames"@, 0);
    lemma_parts_from(p, "Least"@, 0);
    lemma_parts_from(p, "Greatest"@, 0);
    lemma_parts_from(p, "Different"@, 0);
    assert("CardTypes"@[5] == 'y' && "CardTypesPermanent"@[5] == 'y');
    assert(p[5] == 'o' || p[5] == 'a');
    lemma_parts_from(p, "CardTypes"@, 5);
    lemma_parts_from(p, "CardTypesPermanent"@, 5);
}

proof fn lemma_or_bits(a: u8, b: u8, m: u8)
    ensures
        (a | b) & m != 0 <==> a & m != 0 || b & m != 0,
        0u8 & m == 0,
{
    assert((a | b) & m != 0 <==> a & m != 0 || b & m != 0) by (bit_vector);
    assert(0u8 & m == 0) by (bit_vector);
}

proof fn lemma_or_colors(game: GameState, ids: Seq<CardId>, m: u8)
    ensures
        or_colors(game, ids) & m != 0 <==> exists|i: int|
            0 <= i < ids.len() && (game.card_at(#[trigger] ids[i]) matches Some(c) && c.color & m
                != 0),
    decreases ids.len(),
{
    if ids.len() == 0 {
        lemma_or_bits(0, 0, m);
    } else {
        let short = ids.drop_last();
        lemma_or_colors(game, short, m);
        assert(ids[ids.len() - 1] == ids.last());
        if let Some(c) = game.card_at(ids.last()) {
            lemma_or_bits(or_colors(game, short), c.color, m);
        }
        assert forall|i: int| 0 <= i < short.len() implies #[trigger] short[i] == ids[i] by {}
        if exists|i: int|
            0 <= i < ids.len() && (game.card_at(#[trigger] ids[i]) matches Some(c) && c.color & m
                != 0) {
            let i = choose|i: int|
                0 <= i < ids.len() && (game.card_at(#[trigger] ids[i]) matches Some(c) && c.color
                    & m != 0);
            if i < short.len() {
                assert(short[i] == ids[i]);
            }
        }
        if exists|i: int|
            0 <= i < short.len() && (game.card_at(#[trigger] short[i]) matches Some(c) && c.color
                & m != 0) {
            let i = choose|i: int|
                0 <= i < short.len() && (game.card_at(#[trigger] short[i]) matches Some(c) && c.color
                    & m != 0);
            assert(ids[i] == short[i]);
        }
    }
}

/// Whether a card of a list has a color.
pub open spec fn one_has_color(game: GameState, ids: Seq<CardId>, m: u8) -> bool {
    exists|i: int|
        0 <= i < ids.len() && (game.card_at(#[trigger] ids[i]) matches Some(c) && c.color & m != 0)
}

pub open spec fn once(b: bool) -> int {
    if b {
        1
    } else {
        0
    }
}

/// The colors of the cards of a list are those that one of them has, each counted once.
pub proof fn law_colors_of_cards(game: GameState, ids: Seq<CardId>)
    requires
        !one_has_color(game, ids, 32),
        !one_has_color(game, ids, 64),
        !one_has_color(game, ids, 128),
    ensures
        aggregated(game, ids, "Colors"@) == once(one_has_color(game, ids, 1)) + once(
            one_has_color(game, ids, 2),
        ) + once(one_has_color(game, ids, 4)) + once(one_has_color(game, ids, 8)) + once(
            one_has_color(game, ids, 16),
        ),
{
    let w = "Colors"@;
    reveal_strlit("Colors");
    reveal_strlit("Amount");
    reveal_strlit("GreatestCardManaCost");
    reveal_strlit("CardTypes");
    reveal_strlit("CardTypesPermanent");
    lemma_parts_from(w, "Amount"@, 0);
    lemma_parts_from(w, "GreatestCardManaCost"@, 0);
    lemma_parts_from(w, "CardTypes"@, 1);
    lemma_parts_from(w, "CardTypesPermanent"@, 1);
    lemma_or_colors(game, ids, 1);
    lemma_or_colors(game, ids, 2);
    lemma_or_colors(game, ids, 4);
    lemma_or_colors(game, ids, 8);
    lemma_or_colors(game, ids, 16);
    lemma_or_colors(game, ids, 32);
    lemma_or_colors(game, ids, 64);
    lemma_or_colors(game, ids, 128);
}

/// Of the names of cards each counts once; a card that is face down has none.
pub proof fn law_names_of_cards(game: GameState, ids: Seq<CardId>, id: CardId)
    requires
        game.card_at(id) is Some,
    ensures
        ({
            let c = game.card_at(id)->0;
            let n = names_among(game, ids);
            let m = names_among(game, ids.push(id));
            &&& c.face_down ==> m == n
            &&& !c.face_down && n.contains(c.card_name@) ==> m == n
            &&& !c.face_down && !n.contains(c.card_name@) ==> m == n.push(c.card_name@)
        }),
{
    assert(ids.push(id).drop_last() =~= ids);
    let name = game.card_at(id)->0.card_name@;
    let one = seq![name];
    assert(one.drop_last() =~= Seq::<Seq<char>>::empty());
    let n = names_among(game, ids);
    assert(merged(n, one.drop_last()) == n);
}

/// The basic land types among lands, each counted once; lands that are phased out do not count.
pub proof fn law_domain(game: GameState, ids: Seq<CardId>)
    ensures
        domain(game, ids) == once(land_with(game, ids, "Plains"@)) + once(
            land_with(game, ids, "Island"@),
        ) + once(land_with(game, ids, "Swamp"@)) + once(land_with(game, ids, "Mountain"@)) + once(
            land_with(game, ids, "Forest"@),
        ),
        forall|t: Seq<char>| #[trigger]
            land_with(game, ids, t) ==> exists|i: int|
                0 <= i < ids.len() && (game.card_at(#[trigger] ids[i]) matches Some(c)
                    && c.types.land && !c.phased_out && c.types.is_subtype(t)),
        forall|t: Seq<char>, i: int|
            0 <= i < ids.len() && (game.card_at(#[trigger] ids[i]) matches Some(c) && c.types.land
                && !c.phased_out && c.types.is_subtype(t)) ==> #[trigger] land_with(game, ids, t),
{
}

/// Devotion grows by the symbols of the color in the costs of one more card; each symbol that has it
/// counts once.
pub proof fn law_devotion(
    game: GameState,
    ids: Seq<CardId>,
    id: CardId,
    mask: u16,
    shards: Seq<u16>,
    shard: u16,
)
    requires
        game.card_at(id) is Some,
        game.card_at(id)->0.cost_shards@.len() <= i32::MAX,
        i32::MIN <= devotion(game, ids, mask) + symbols_meeting(
            game.card_at(id)->0.cost_shards@,
            mask,
        ) <= i32::MAX,
        symbols_meeting(game.card_at(id)->0.cost_shards@, mask) <= i32::MAX,
    ensures
        devotion(game, ids.push(id), mask) == devotion(game, ids, mask) + symbols_meeting(
            game.card_at(id)->0.cost_shards@,
            mask,
        ),
        symbols_meeting(shards.push(shard), mask) == symbols_meeting(shards, mask) + once(
            shard & mask != 0,
        ),
        symbols_meeting(Seq::empty(), mask) == 0,
        devotion(game, Seq::empty(), mask) == 0,
{
    assert(ids.push(id).drop_last() =~= ids);
    assert(shards.push(shard).drop_last() =~= shards);
}

/// The longest run of equal rolls: one more roll makes the last run longer where it is equal to the one
/// before, and starts a new one otherwise.
pub proof fn law_runs_of_rolls(rolls: Seq<i32>, roll: i32)
    ensures
        runs(Seq::empty()) == (0int, 0int),
        runs(rolls.push(roll)).1 == (if rolls.len() > 0 && rolls.last() == roll {
            runs(rolls).1 + 1
        } else {
            1
        }),
        runs(rolls.push(roll)).0 >= runs(rolls).0 && runs(rolls.push(roll)).0 >= runs(
            rolls.push(roll),
        ).1,
        runs(rolls.push(roll)).0 == runs(rolls).0 || runs(rolls.push(roll)).0 == runs(
            rolls.push(roll),
        ).1,
{
    assert(rolls.push(roll).drop_last() =~= rolls);
    if rolls.len() > 0 {
        assert(rolls.push(roll)[rolls.len() - 1] == rolls.last());
    }
}

// ---- parties ----

/// Whether a card is of a party: a creature that is a cleric, a rogue, a warrior or a wizard, or of
/// every type.
pub open spec fn is_of_a_party(c: Card) -> bool {
    c.types.creature && (c.keyword("Changeling"@) || c.types.is_subtype("Cleric"@)
        || c.types.is_subtype("Rogue"@) || c.types.is_subtype("Warrior"@) || c.types.is_subtype(
        "Wizard"@,
    ))
}

proof fn lemma_no_party(game: GameState, ids: Seq<CardId>, scan: PartyScan)
    requires
        forall|i: int|
            0 <= i < ids.len() ==> (game.card_at(#[trigger] ids[i]) matches Some(c)
                ==> !is_of_a_party(c)),
    ensures
        scan_from(game, ids, scan) == scan,
    decreases ids.len(),
{
    if ids.len() > 0 && filled_count(scan) < 4 {
        if let Some(c) = game.card_at(ids[0]) {
            assert(!is_of_a_party(c));
            if c.types.creature {
                assert(!has_role(c, 0) && !has_role(c, 1) && !has_role(c, 2) && !has_role(c, 3));
                assert(role_count(c) == 0);
            }
        }
        let rest = ids.skip(1);
        assert forall|i: int| 0 <= i < rest.len() implies (game.card_at(
            #[trigger] rest[i],
        ) matches Some(c) ==> !is_of_a_party(c)) by {
            assert(rest[i] == ids[i + 1]);
        }
        lemma_no_party(game, rest, scan);
    }
}

/// Cards that are of no party make none; one of a party alone makes a party of one.
pub proof fn law_small_parties(game: GameState, ids: Seq<CardId>, id: CardId)
    requires
        game.card_at(id) is Some,
    ensures
        (forall|i: int|
            0 <= i < ids.len() ==> (game.card_at(#[trigger] ids[i]) matches Some(c)
                ==> !is_of_a_party(c))) ==> party_size(game, ids) == 0,
        party_size(game, seq![id]) == once(is_of_a_party(game.card_at(id)->0)),
{
    let none = Seq::new(4, |i: int| false);
    let start = empty_scan();
    assert(filled_count(start) == 0);
    assert(next_role(start, none, 0) is None);
    assert(next_role(start, none, 1) is None);
    assert(next_role(start, none, 2) is None);
    assert(next_role(start, none, 3) is None);
    assert(next_role(start, none, 4) is None);
    assert(given_out(start, none, Seq::empty(), 4) == 0);
    if forall|i: int|
        0 <= i < ids.len() ==> (game.card_at(#[trigger] ids[i]) matches Some(c)
            ==> !is_of_a_party(c)) {
        lemma_no_party(game, ids, start);
    }
    let one = seq![id];
    let c = game.card_at(id)->0;
    if !is_of_a_party(c) {
        lemma_no_party(game, one, start);
    } else {
        let next = scanned(start, id, c);
        assert(one.skip(1) =~= Seq::<CardId>::empty());
        assert(scan_from(game, one.skip(1), next) == next);
        assert(scan_from(game, one, start) == next);
        let n = role_count(c);
        if n == 1 || n == 4 {
            lemma_one_role(start, next, id, c, none);
        } else {
            lemma_more_roles(start, next, id, c, none);
        }
    }
}

proof fn lemma_one_role(
    start: PartyScan,
    next: PartyScan,
    id: CardId,
    c: Card,
    none: Seq<bool>,
)
    requires
        start == empty_scan(),
        next == scanned(start, id, c),
        none == Seq::new(4, |i: int| false),
        c.types.creature,
        role_count(c) == 1 || role_count(c) == 4,
    ensures
        filled_count(next) == 1,
        given_out(next, none, Seq::empty(), 4) == 0,
{
    assert(next.members =~= start.members);
    assert(next_role(next, none, 0) is None);
    assert(next_role(next, none, 1) is None);
    assert(next_role(next, none, 2) is None);
    assert(next_role(next, none, 3) is None);
    assert(next_role(next, none, 4) is None);
}

proof fn lemma_rounds(scan: PartyScan, id: CardId, done: Seq<bool>, rounds: nat)
    requires
        done.len() == 4,
        scan.members.len() == 4,
        forall|r: int|
            0 <= r < 4 ==> (#[trigger] scan.members[r]) == Seq::<CardId>::empty() || scan.members[r]
                == seq![id],
    ensures
        given_out(scan, done, seq![id], rounds) == 0,
    decreases rounds,
{
    if rounds > 0 {
        if let Some(role) = next_role(scan, done, 4) {
            lemma_next_role(scan, done, 4);
            let m = scan.members[role];
            assert(m == seq![id]);
            assert(m.skip(1) =~= Seq::<CardId>::empty());
            assert(seq![id].contains(m[0])) by {
                assert(seq![id][0] == m[0]);
            }
            assert(first_free(m.skip(1), seq![id]) is None);
            assert(first_free(m, seq![id]) is None);
            lemma_rounds(scan, id, done.update(role, true), (rounds - 1) as nat);
        }
    }
}

proof fn lemma_next_role(scan: PartyScan, done: Seq<bool>, upto: nat)
    requires
        upto <= 4,
    ensures
        next_role(scan, done, upto) matches Some(r) ==> 0 <= r < upto && !done[r] && !scan.filled[r]
            && scan.members[r].len() > 0,
        next_role(scan, done, upto) is None ==> forall|r: int|
            0 <= r < upto ==> done[r] || scan.filled[r] || (#[trigger] scan.members[r]).len() == 0,
    decreases upto,
{
    if upto > 0 {
        lemma_next_role(scan, done, (upto - 1) as nat);
    }
}

proof fn lemma_more_roles(
    start: PartyScan,
    next: PartyScan,
    id: CardId,
    c: Card,
    none: Seq<bool>,
)
    requires
        start == empty_scan(),
        next == scanned(start, id, c),
        none == Seq::new(4, |i: int| false),
        is_of_a_party(c),
        role_count(c) != 1 && role_count(c) != 4,
    ensures
        filled_count(next) == 0,
        given_out(next, none, Seq::empty(), 4) == 1,
{
    assert(has_role(c, 0) || has_role(c, 1) || has_role(c, 2) || has_role(c, 3));
    assert(role_count(c) > 0);
    assert forall|r: int| 0 <= r < 4 implies (#[trigger] next.members[r]) == Seq::<CardId>::empty()
        || next.members[r] == seq![id] by {
        assert(start.members[r] =~= Seq::<CardId>::empty());
        if has_role(c, r) {
            assert(next.members[r] =~= seq![id]);
        }
    }
    lemma_next_role(next, none, 4);
    let role = next_role(next, none, 4)->0;
    assert(next_role(next, none, 4) is Some) by {
        if next_role(next, none, 4) is None {
            let r = if has_role(c, 0) {
                0int
            } else if has_role(c, 1) {
                1int
            } else if has_role(c, 2) {
                2int
            } else {
                3int
            };
            assert(next.members[r] =~= seq![id]);
            assert(next.members[r].len() == 1);
        }
    }
    let m = next.members[role];
    assert(m == seq![id]);
    let nobody = Seq::<CardId>::empty();
    assert(!nobody.contains(m[0]));
    assert(first_free(m, nobody) == Some(id));
    assert(nobody.push(id) =~= seq![id]);
    lemma_rounds(next, id, none.update(role, true), 3);
}

// ---- players ----

proof fn lemma_opponents(
    game: GameState,
    ids: Seq<PlayerId>,
    you: PlayerId,
    x: PlayerId,
)
    ensures
        opponents_among(game, ids, you).contains(x) <==> ids.contains(x) && game.are_opponents(you, x),
    decreases ids.len(),
{
    let v = opponents_among(game, ids, you);
    if ids.len() > 0 {
        let short = ids.drop_last();
        let before = opponents_among(game, short, you);
        lemma_opponents(game, short, you, x);
        if ids.contains(x) && x != ids.last() {
            let i = choose|i: int| 0 <= i < ids.len() && ids[i] == x;
            assert(short[i] == x);
        }
        if short.contains(x) {
            let i = choose|i: int| 0 <= i < short.len() && short[i] == x;
            assert(ids[i] == x);
        }
        assert(ids[ids.len() - 1] == ids.last());
        if before.contains(x) {
            let i = choose|i: int| 0 <= i < before.len() && before[i] == x;
            assert(v[i] == x);
        }
        if v.contains(x) {
            let i = choose|i: int| 0 <= i < v.len() && v[i] == x;
            if i < before.len() {
                assert(before[i] == x);
            }
        }
        if v.len() > before.len() {
            assert(v[before.len() as int] == ids.last());
        }
    }
}

proof fn lemma_players_with(
    s: SceneView,
    ids: Seq<PlayerId>,
    property: Seq<char>,
    x: PlayerId,
)
    ensures
        players_with(s, ids, property).contains(x) <==> ids.contains(x) && s.game.facts.matches_player(property, s.source, s.you, x),
    decreases ids.len(),
{
    let v = players_with(s, ids, property);
    if ids.len() > 0 {
        let short = ids.drop_last();
        let before = players_with(s, short, property);
        lemma_players_with(s, short, property, x);
        if ids.contains(x) && x != ids.last() {
            let i = choose|i: int| 0 <= i < ids.len() && ids[i] == x;
            assert(short[i] == x);
        }
        if short.contains(x) {
            let i = choose|i: int| 0 <= i < short.len() && short[i] == x;
            assert(ids[i] == x);
        }
        assert(ids[ids.len() - 1] == ids.last());
        if before.contains(x) {
            let i = choose|i: int| 0 <= i < before.len() && before[i] == x;
            assert(v[i] == x);
        }
        if v.contains(x) {
            let i = choose|i: int| 0 <= i < v.len() && v[i] == x;
            if i < before.len() {
                assert(before[i] == x);
            }
        }
        if v.len() > before.len() {
            assert(v[before.len() as int] == ids.last());
        }
    }
}

proof fn lemma_living(
    players: Seq<Player>,
    ids: Seq<PlayerId>,
    x: PlayerId,
)
    ensures
        living_among(players, ids).contains(x) <==> ids.contains(x) && x.0 < players.len()
            && players[x.0 as int].alive,
    decreases ids.len(),
{
    let v = living_among(players, ids);
    if ids.len() > 0 {
        let short = ids.drop_last();
        let before = living_among(players, short);
        lemma_living(players, short, x);
        if ids.contains(x) && x != ids.last() {
            let i = choose|i: int| 0 <= i < ids.len() && ids[i] == x;
            assert(short[i] == x);
        }
        if short.contains(x) {
            let i = choose|i: int| 0 <= i < short.len() && short[i] == x;
            assert(ids[i] == x);
        }
        assert(ids[ids.len() - 1] == ids.last());
        if before.contains(x) {
            let i = choose|i: int| 0 <= i < before.len() && before[i] == x;
            assert(v[i] == x);
        }
        if v.contains(x) {
            let i = choose|i: int| 0 <= i < v.len() && v[i] == x;
            if i < before.len() {
                assert(before[i] == x);
            }
        }
        if v.len() > before.len() {
            assert(v[before.len() as int] == ids.last());
        }
    }
}

/// The players that are counted: those alive, of them the opponents, who are on another side, or those
/// with a property, or the player alone.
pub proof fn law_players_that_are_counted(s: SceneView, p: PlayerId, property: Seq<char>)
    ensures
        counted_players(s, "Players"@).contains(p) <==> s.game.player_order@.contains(p) && (
        s.game.player_at(p) matches Some(q) && q.alive),
        counted_players(s, "Opponents"@).contains(p) <==> s.game.player_order@.contains(p) && (
        s.game.player_at(p) matches Some(q) && q.alive && (s.game.player_at(s.you) matches Some(me)
            && me.team != q.team)),
        !has_prefix(property, "You"@) ==> (counted_players(s, "Property"@ + property).contains(p)
            <==> s.game.player_order@.contains(p) && (s.game.player_at(p) matches Some(q)
            && q.alive) && s.game.facts.matches_player(property, s.source, s.you, p)),
{
    let w = "Property"@ + property;
    let words = "Players"@;
    let foes = "Opponents"@;
    reveal_strlit("Players");
    reveal_strlit("Opponents");
    reveal_strlit("RegisteredOpponents");
    reveal_strlit("Remembered");
    reveal_strlit("PropertyYou");
    reveal_strlit("Property");
    reveal_strlit("You");
    lemma_parts_from(foes, "Players"@, 0);
    lemma_living(s.game.players@, s.game.player_order@, p);
    lemma_opponents(s.game, s.game.living(), s.you, p);
    lemma_starts("Property"@, property);
    assert(w[1] == 'r' && w[0] == 'P');
    lemma_parts_from(w, "Players"@, 1);
    lemma_parts_from(w, "Opponents"@, 0);
    lemma_parts_from(w, "RegisteredOpponents"@, 0);
    lemma_parts_from(w, "Remembered"@, 0);
    if has_prefix(w, "PropertyYou"@) {
        assert(property.subrange(0, 3) =~= w.subrange(0, 11).subrange(8, 11));
        assert("PropertyYou"@.subrange(8, 11) =~= "You"@);
    }
    lemma_players_with(s, s.game.living(), property, p);
}

/// The numbers that can be asked of a player, by their names.
pub proof fn law_numbers_of_players(
    game: GameState,
    id: PlayerId,
    source: CardId,
    you: PlayerId,
)
    requires
        game.player_at(id) is Some,
    ensures
        player_number(game, id, "StartingLife"@, source, you) == game.player_at(id)->0.starting_life,
        player_number(game, id, "LifeTotal"@, source, you) == game.player_at(id)->0.life,
        player_number(game, id, "LifeLostThisTurn"@, source, you) == game.player_at(id)->0.life_lost_this_turn,
        player_number(game, id, "LifeLostLastTurn"@, source, you) == game.player_at(id)->0.life_lost_last_turn,
        player_number(game, id, "LifeGainedThisTurn"@, source, you) == game.player_at(id)->0.life_gained_this_turn,
        player_number(game, id, "LifeGainedByTeamThisTurn"@, source, you) == game.player_at(id)->0.life_gained_by_team_this_turn,
        player_number(game, id, "LifeStartedThisTurnWith"@, source, you) == game.player_at(id)->0.life_started_this_turn_with,
        player_number(game, id, "Speed"@, source, you) == game.player_at(id)->0.speed,
        player_number(game, id, "LandsPlayed"@, source, you) == game.player_at(id)->0.lands_played_this_turn,
        player_number(game, id, "SpellsCastThisTurn"@, source, you) == game.player_at(id)->0.spells_cast_this_turn,
        player_number(game, id, "CardsDrawn"@, source, you) == game.player_at(id)->0.drawn_this_turn,
        player_number(game, id, "CardsDiscardedThisTurn"@, source, you) == game.player_at(id)->0.discarded_this_turn,
        player_number(game, id, "ExploredThisTurn"@, source, you) == game.player_at(id)->0.explored_this_turn,
        player_number(game, id, "DamageToOppsThisTurn"@, source, you) == game.player_at(id)->0.opponents_assigned_damage_this_turn,
        player_number(game, id, "PoisonCounters"@, source, you) == game.player_at(id)->0.poison_counters,
        player_number(game, id, "EnergyCounters"@, source, you) == game.player_at(id)->0.energy_counters,
        player_number(game, id, "CardsInHand"@, source, you) == game.in_zone(
            ZoneType::Hand,
            id,
        ).len() as i32,
        player_number(game, id, "CardsInLibrary"@, source, you) == game.in_zone(
            ZoneType::Library,
            id,
        ).len() as i32,
        player_number(game, id, "CardsInGraveyard"@, source, you) == game.in_zone(
            ZoneType::Graveyard,
            id,
        ).len() as i32,
        player_number(game, id, "CardsInPlay"@, source, you) == game.in_zone(
            ZoneType::Battlefield,
            id,
        ).len() as i32,
{
    lemma_player_field_0(game, id, source, you);
    lemma_player_field_1(game, id, source, you);
    lemma_player_field_2(game, id, source, you);
    lemma_player_field_3(game, id, source, you);
    lemma_player_field_4(game, id, source, you);
    lemma_player_field_5(game, id, source, you);
    lemma_player_field_6(game, id, source, you);
    lemma_player_field_7(game, id, source, you);
    lemma_player_field_8(game, id, source, you);
    lemma_player_field_9(game, id, source, you);
    lemma_player_field_10(game, id, source, you);
    lemma_player_field_11(game, id, source, you);
    lemma_player_field_12(game, id, source, you);
    lemma_player_field_13(game, id, source, you);
    lemma_player_field_14(game, id, source, you);
    lemma_player_field_15(game, id, source, you);
    lemma_player_zone_0(game, id, source, you);
    lemma_player_zone_1(game, id, source, you);
    lemma_player_zone_2(game, id, source, you);
    lemma_player_zone_3(game, id, source, you);
}

proof fn lemma_player_field_0(
    game: GameState,
    id: PlayerId,
    source: CardId,
    you: PlayerId,
)
    requires
        game.player_at(id) is Some,
    ensures
        player_number(game, id, "StartingLife"@, source, you) == game.player_at(id)->0.starting_life,
{
    let t = "StartingLife"@;
    reveal_strlit("StartingLife");
    reveal_strlit("SacrificedThisTurn");
    lemma_parts_from(t, "SacrificedThisTurn"@, 1);
    reveal_strlit("Valid");
    lemma_parts_from(t, "Valid"@, 0);
    reveal_strlit("CardsInHand");
    lemma_parts_from(t, "CardsInHand"@, 0);
    reveal_strlit("CardsInLibrary");
    lemma_parts_from(t, "CardsInLibrary"@, 0);
    reveal_strlit("CardsInGraveyard");
    lemma_parts_from(t, "CardsInGraveyard"@, 0);
    reveal_strlit("CardsInPlay");
    lemma_parts_from(t, "CardsInPlay"@, 0);
    reveal_strlit("CreaturesInPlay");
    lemma_parts_from(t, "CreaturesInPlay"@, 0);
}

proof fn lemma_player_field_1(
    game: GameState,
    id: PlayerId,
    source: CardId,
    you: PlayerId,
)
    requires
        game.player_at(id) is Some,
    ensures
        player_number(game, id, "LifeTotal"@, source, you) == game.player_at(id)->0.life,
{
    let t = "LifeTotal"@;
    reveal_strlit("LifeTotal");
    reveal_strlit("SacrificedThisTurn");
    lemma_parts_from(t, "SacrificedThisTurn"@, 0);
    reveal_strlit("Valid");
    lemma_parts_from(t, "Valid"@, 0);
    reveal_strlit("CardsInHand");
    lemma_parts_from(t, "CardsInHand"@, 0);
    reveal_strlit("CardsInLibrary");
    lemma_parts_from(t, "CardsInLibrary"@, 0);
    reveal_strlit("CardsInGraveyard");
    lemma_parts_from(t, "CardsInGraveyard"@, 0);
    reveal_strlit("CardsInPlay");
    lemma_parts_from(t, "CardsInPlay"@, 0);
    reveal_strlit("CreaturesInPlay");
    lemma_parts_from(t, "CreaturesInPlay"@, 0);
    reveal_strlit("StartingLife");
    lemma_parts_from(t, "StartingLife"@, 0);
}

proof fn lemma_player_field_2(
    game: GameState,
    id: PlayerId,
    source: CardId,
    you: PlayerId,
)
    requires
        game.player_at(id) is Some,
    ensures
        player_number(game, id, "LifeLostThisTurn"@, source, you) == game.player_at(id)->0.life_lost_this_turn,
{
    let t = "LifeLostThisTurn"@;
    reveal_strlit("LifeLostThisTurn");
    reveal_strlit("SacrificedThisTurn");
    lemma_parts_from(t, "SacrificedThisTurn"@, 0);
    reveal_strlit("Valid");
    lemma_parts_from(t, "Valid"@, 0);
    reveal_strlit("CardsInHand");
    lemma_parts_from(t, "CardsInHand"@, 0);
    reveal_strlit("CardsInLibrary");
    lemma_parts_from(t, "CardsInLibrary"@, 0);
    reveal_strlit("CardsInGraveyard");
    lemma_parts_from(t, "CardsInGraveyard"@, 0);
    reveal_strlit("CardsInPlay");
    lemma_parts_from(t, "CardsInPlay"@, 0);
    reveal_strlit("CreaturesInPlay");
    lemma_parts_from(t, "CreaturesInPlay"@, 0);
    reveal_strlit("StartingLife");
    lemma_parts_from(t, "StartingLife"@, 0);
    reveal_strlit("LifeTotal");
    lemma_parts_from(t, "LifeTotal"@, 4);
}

proof fn lemma_player_field_3(
    game: GameState,
    id: PlayerId,
    source: CardId,
    you: PlayerId,
)
    requires
        game.player_at(id) is Some,
    ensures
        player_number(game, id, "LifeLostLastTurn"@, source, you) == game.player_at(id)->0.life_lost_last_turn,
{
    let t = "LifeLostLastTurn"@;
    reveal_strlit("LifeLostLastTurn");
    reveal_strlit("SacrificedThisTurn");
    lemma_parts_from(t, "SacrificedThisTurn"@, 0);
    reveal_strlit("Valid");
    lemma_parts_from(t, "Valid"@, 0);
    reveal_strlit("CardsInHand");
    lemma_parts_from(t, "CardsInHand"@, 0);
    reveal_strlit("CardsInLibrary");
    lemma_parts_from(t, "CardsInLibrary"@, 0);
    reveal_strlit("CardsInGraveyard");
    lemma_parts_from(t, "CardsInGraveyard"@, 0);
    reveal_strlit("CardsInPlay");
    lemma_parts_from(t, "CardsInPlay"@, 0);
    reveal_strlit("CreaturesInPlay");
    lemma_parts_from(t, "CreaturesInPlay"@, 0);
    reveal_strlit("StartingLife");
    lemma_parts_from(t, "StartingLife"@, 0);
    reveal_strlit("LifeTotal");
    lemma_parts_from(t, "LifeTotal"@, 4);
    reveal_strlit("LifeLostThisTurn");
    lemma_parts_from(t, "LifeLostThisTurn"@, 8);
}

proof fn lemma_player_field_4(
    game: GameState,
    id: PlayerId,
    source: CardId,
    you: PlayerId,
)
    requires
        game.player_at(id) is Some,
    ensures
        player_number(game, id, "LifeGainedThisTurn"@, source, you) == game.player_at(id)->0.life_gained_this_turn,
{
    let t = "LifeGainedThisTurn"@;
    reveal_strlit("LifeGainedThisTurn");
    reveal_strlit("SacrificedThisTurn");
    lemma_parts_from(t, "SacrificedThisTurn"@, 0);
    reveal_strlit("Valid");
    lemma_parts_from(t, "Valid"@, 0);
    reveal_strlit("CardsInHand");
    lemma_parts_from(t, "CardsInHand"@, 0);
    reveal_strlit("CardsInLibrary");
    lemma_parts_from(t, "CardsInLibrary"@, 0);
    reveal_strlit("CardsInGraveyard");
    lemma_parts_from(t, "CardsInGraveyard"@, 0);
    reveal_strlit("CardsInPlay");
    lemma_parts_from(t, "CardsInPlay"@, 0);
    reveal_strlit("CreaturesInPlay");
    lemma_parts_from(t, "CreaturesInPlay"@, 0);
    reveal_strlit("StartingLife");
    lemma_parts_from(t, "StartingLife"@, 0);
    reveal_strlit("LifeTotal");
    lemma_parts_from(t, "LifeTotal"@, 4);
    reveal_strlit("LifeLostThisTurn");
    lemma_parts_from(t, "LifeLostThisTurn"@, 4);
    reveal_strlit("LifeLostLastTurn");
    lemma_parts_from(t, "LifeLostLastTurn"@, 4);
}

proof fn lemma_player_field_5(
    game: GameState,
    id: PlayerId,
    source: CardId,
    you: PlayerId,
)
    requires
        game.player_at(id) is Some,
    ensures
        player_number(game, id, "LifeGainedByTeamThisTurn"@, source, you) == game.player_at(id)->0.life_gained_by_team_this_turn,
{
    let t = "LifeGainedByTeamThisTurn"@;
    reveal_strlit("LifeGainedByTeamThisTurn");
    reveal_strlit("SacrificedThisTurn");
    lemma_parts_from(t, "SacrificedThisTurn"@, 0);
    reveal_strlit("Valid");
    lemma_parts_from(t, "Valid"@, 0);
    reveal_strlit("CardsInHand");
    lemma_parts_from(t, "CardsInHand"@, 0);
    reveal_strlit("CardsInLibrary");
    lemma_parts_from(t, "CardsInLibrary"@, 0);
    reveal_strlit("CardsInGraveyard");
    lemma_parts_from(t, "CardsInGraveyard"@, 0);
    reveal_strlit("CardsInPlay");
    lemma_parts_from(t, "CardsInPlay"@, 0);
    reveal_strlit("CreaturesInPlay");
    lemma_parts_from(t, "CreaturesInPlay"@, 0);
    reveal_strlit("StartingLife");
    lemma_parts_from(t, "StartingLife"@, 0);
    reveal_strlit("LifeTotal");
    lemma_parts_from(t, "LifeTotal"@, 4);
    reveal_strlit("LifeLostThisTurn");
    lemma_parts_from(t, "LifeLostThisTurn"@, 4);
    reveal_strlit("LifeLostLastTurn");
    lemma_parts_from(t, "LifeLostLastTurn"@, 4);
    reveal_strlit("LifeGainedThisTurn");
    lemma_parts_from(t, "LifeGainedThisTurn"@, 10);
}

proof fn lemma_player_field_6(
    game: GameState,
    id: PlayerId,
    source: CardId,
    you: PlayerId,
)
    requires
        game.player_at(id) is Some,
    ensures
        player_number(game, id, "LifeStartedThisTurnWith"@, source, you) == game.player_at(id)->0.life_started_this_turn_with,
{
    let t = "LifeStartedThisTurnWith"@;
    reveal_strlit("LifeStartedThisTurnWith");
    reveal_strlit("SacrificedThisTurn");
    lemma_parts_from(t, "SacrificedThisTurn"@, 0);
    reveal_strlit("Valid");
    lemma_parts_from(t, "Valid"@, 0);
    reveal_strlit("CardsInHand");
    lemma_parts_from(t, "CardsInHand"@, 0);
    reveal_strlit("CardsInLibrary");
    lemma_parts_from(t, "CardsInLibrary"@, 0);
    reveal_strlit("CardsInGraveyard");
    lemma_parts_from(t, "CardsInGraveyard"@, 0);
    reveal_strlit("CardsInPlay");
    lemma_parts_from(t, "CardsInPlay"@, 0);
    reveal_strlit("CreaturesInPlay");
    lemma_parts_from(t, "CreaturesInPlay"@, 0);
    reveal_strlit("StartingLife");
    lemma_parts_from(t, "StartingLife"@, 0);
    reveal_strlit("LifeTotal");
    lemma_parts_from(t, "LifeTotal"@, 4);
    reveal_strlit("LifeLostThisTurn");
    lemma_parts_from(t, "LifeLostThisTurn"@, 4);
    reveal_strlit("LifeLostLastTurn");
    lemma_parts_from(t, "LifeLostLastTurn"@, 4);
    reveal_strlit("LifeGainedThisTurn");
    lemma_parts_from(t, "LifeGainedThisTurn"@, 4);
    reveal_strlit("LifeGainedByTeamThisTurn");
    lemma_parts_from(t, "LifeGainedByTeamThisTurn"@, 4);
}

proof fn lemma_player_field_7(
    game: GameState,
    id: PlayerId,
    source: CardId,
    you: PlayerId,
)
    requires
        game.player_at(id) is Some,
    ensures
        player_number(game, id, "Speed"@, source, you) == game.player_at(id)->0.speed,
{
    let t = "Speed"@;
    reveal_strlit("Speed");
    reveal_strlit("SacrificedThisTurn");
    lemma_parts_from(t, "SacrificedThisTurn"@, 1);
    reveal_strlit("Valid");
    lemma_parts_from(t, "Valid"@, 0);
    reveal_strlit("CardsInHand");
    lemma_parts_from(t, "CardsInHand"@, 0);
    reveal_strlit("CardsInLibrary");
    lemma_parts_from(t, "CardsInLibrary"@, 0);
    reveal_strlit("CardsInGraveyard");
    lemma_parts_from(t, "CardsInGraveyard"@, 0);
    reveal_strlit("CardsInPlay");
    lemma_parts_from(t, "CardsInPlay"@, 0);
    reveal_strlit("CreaturesInPlay");
    lemma_parts_from(t, "CreaturesInPlay"@, 0);
    reveal_strlit("StartingLife");
    lemma_parts_from(t, "StartingLife"@, 1);
    reveal_strlit("LifeTotal");
    lemma_parts_from(t, "LifeTotal"@, 0);
    reveal_strlit("LifeLostThisTurn");
    lemma_parts_from(t, "LifeLostThisTurn"@, 0);
    reveal_strlit("LifeLostLastTurn");
    lemma_parts_from(t, "LifeLostLastTurn"@, 0);
    reveal_strlit("LifeGainedThisTurn");
    lemma_parts_from(t, "LifeGainedThisTurn"@, 0);
    reveal_strlit("LifeGainedByTeamThisTurn");
    lemma_parts_from(t, "LifeGainedByTeamThisTurn"@, 0);
    reveal_strlit("LifeStartedThisTurnWith");
    lemma_parts_from(t, "LifeStartedThisTurnWith"@, 0);
}

proof fn lemma_player_field_8(
    game: GameState,
    id: PlayerId,
    source: CardId,
    you: PlayerId,
)
    requires
        game.player_at(id) is Some,
    ensures
        player_number(game, id, "LandsPlayed"@, source, you) == game.player_at(id)->0.lands_played_this_turn,
{
    let t = "LandsPlayed"@;
    reveal_strlit("LandsPlayed");
    reveal_strlit("SacrificedThisTurn");
    lemma_parts_from(t, "SacrificedThisTurn"@, 0);
    reveal_strlit("Valid");
    lemma_parts_from(t, "Valid"@, 0);
    reveal_strlit("CardsInHand");
    lemma_parts_from(t, "CardsInHand"@, 0);
    reveal_strlit("CardsInLibrary");
    lemma_parts_from(t, "CardsInLibrary"@, 0);
    reveal_strlit("CardsInGraveyard");
    lemma_parts_from(t, "CardsInGraveyard"@, 0);
    reveal_strlit("CardsInPlay");
    lemma_parts_from(t, "CardsInPlay"@, 0);
    reveal_strlit("CreaturesInPlay");
    lemma_parts_from(t, "CreaturesInPlay"@, 0);
    reveal_strlit("StartingLife");
    lemma_parts_from(t, "StartingLife"@, 0);
    reveal_strlit("LifeTotal");
    lemma_parts_from(t, "LifeTotal"@, 1);
    reveal_strlit("LifeLostThisTurn");
    lemma_parts_from(t, "LifeLostThisTurn"@, 1);
    reveal_strlit("LifeLostLastTurn");
    lemma_parts_from(t, "LifeLostLastTurn"@, 1);
    reveal_strlit("LifeGainedThisTurn");
    lemma_parts_from(t, "LifeGainedThisTurn"@, 1);
    reveal_strlit("LifeGainedByTeamThisTurn");
    lemma_parts_from(t, "LifeGainedByTeamThisTurn"@, 1);
    reveal_strlit("LifeStartedThisTurnWith");
    lemma_parts_from(t, "LifeStartedThisTurnWith"@, 1);
    reveal_strlit("Speed");
    lemma_parts_from(t, "Speed"@, 0);
}

proof fn lemma_player_field_9(
    game: GameState,
    id: PlayerId,
    source: CardId,
    you: PlayerId,
)
    requires
        game.player_at(id) is Some,
    ensures
        player_number(game, id, "SpellsCastThisTurn"@, source, you) == game.player_at(id)->0.spells_cast_this_turn,
{
    let t = "SpellsCastThisTurn"@;
    reveal_strlit("SpellsCastThisTurn");
    reveal_strlit("SacrificedThisTurn");
    lemma_parts_from(t, "SacrificedThisTurn"@, 1);
    reveal_strlit("Valid");
    lemma_parts_from(t, "Valid"@, 0);
    reveal_strlit("CardsInHand");
    lemma_parts_from(t, "CardsInHand"@, 0);
    reveal_strlit("CardsInLibrary");
    lemma_parts_from(t, "CardsInLibrary"@, 0);
    reveal_strlit("CardsInGraveyard");
    lemma_parts_from(t, "CardsInGraveyard"@, 0);
    reveal_strlit("CardsInPlay");
    lemma_parts_from(t, "CardsInPlay"@, 0);
    reveal_strlit("CreaturesInPlay");
    lemma_parts_from(t, "CreaturesInPlay"@, 0);
    reveal_strlit("StartingLife");
    lemma_parts_from(t, "StartingLife"@, 1);
    reveal_strlit("LifeTotal");
    lemma_parts_from(t, "LifeTotal"@, 0);
    reveal_strlit("LifeLostThisTurn");
    lemma_parts_from(t, "LifeLostThisTurn"@, 0);
    reveal_strlit("LifeLostLastTurn");
    lemma_parts_from(t, "LifeLostLastTurn"@, 0);
    reveal_strlit("LifeGainedThisTurn");
    lemma_parts_from(t, "LifeGainedThisTurn"@, 0);
    reveal_strlit("LifeGainedByTeamThisTurn");
    lemma_parts_from(t, "LifeGainedByTeamThisTurn"@, 0);
    reveal_strlit("LifeStartedThisTurnWith");
    lemma_parts_from(t, "LifeStartedThisTurnWith"@, 0);
    reveal_strlit("Speed");
    lemma_parts_from(t, "Speed"@, 3);
    reveal_strlit("LandsPlayed");
    lemma_parts_from(t, "LandsPlayed"@, 0);
}

proof fn lemma_player_field_10(
    game: GameState,
    id: PlayerId,
    source: CardId,
    you: PlayerId,
)
    requires
        game.player_at(id) is Some,
    ensures
        player_number(game, id, "CardsDrawn"@, source, you) == game.player_at(id)->0.drawn_this_turn,
{
    let t = "CardsDrawn"@;
    reveal_strlit("CardsDrawn");
    reveal_strlit("SacrificedThisTurn");
    lemma_parts_from(t, "SacrificedThisTurn"@, 0);
    reveal_strlit("Valid");
    lemma_parts_from(t, "Valid"@, 0);
    reveal_strlit("CardsInHand");
    lemma_parts_from(t, "CardsInHand"@, 5);
    reveal_strlit("CardsInLibrary");
    lemma_parts_from(t, "CardsInLibrary"@, 5);
    reveal_strlit("CardsInGraveyard");
    lemma_parts_from(t, "CardsInGraveyard"@, 5);
    reveal_strlit("CardsInPlay");
    lemma_parts_from(t, "CardsInPlay"@, 5);
    reveal_strlit("CreaturesInPlay");
    lemma_parts_from(t, "CreaturesInPlay"@, 1);
    reveal_strlit("StartingLife");
    lemma_parts_from(t, "StartingLife"@, 0);
    reveal_strlit("LifeTotal");
    lemma_parts_from(t, "LifeTotal"@, 0);
    reveal_strlit("LifeLostThisTurn");
    lemma_parts_from(t, "LifeLostThisTurn"@, 0);
    reveal_strlit("LifeLostLastTurn");
    lemma_parts_from(t, "LifeLostLastTurn"@, 0);
    reveal_strlit("LifeGainedThisTurn");
    lemma_parts_from(t, "LifeGainedThisTurn"@, 0);
    reveal_strlit("LifeGainedByTeamThisTurn");
    lemma_parts_from(t, "LifeGainedByTeamThisTurn"@, 0);
    reveal_strlit("LifeStartedThisTurnWith");
    lemma_parts_from(t, "LifeStartedThisTurnWith"@, 0);
    reveal_strlit("Speed");
    lemma_parts_from(t, "Speed"@, 0);
    reveal_strlit("LandsPlayed");
    lemma_parts_from(t, "LandsPlayed"@, 0);
    reveal_strlit("SpellsCastThisTurn");
    lemma_parts_from(t, "SpellsCastThisTurn"@, 0);
}

proof fn lemma_player_field_11(
    game: GameState,
    id: PlayerId,
    source: CardId,
    you: PlayerId,
)
    requires
        game.player_at(id) is Some,
    ensures
        player_number(game, id, "CardsDiscardedThisTurn"@, source, you) == game.player_at(id)->0.discarded_this_turn,
{
    let t = "CardsDiscardedThisTurn"@;
    reveal_strlit("CardsDiscardedThisTurn");
    reveal_strlit("SacrificedThisTurn");
    lemma_parts_from(t, "SacrificedThisTurn"@, 0);
    reveal_strlit("Valid");
    lemma_parts_from(t, "Valid"@, 0);
    reveal_strlit("CardsInHand");
    lemma_parts_from(t, "CardsInHand"@, 5);
    reveal_strlit("CardsInLibrary");
    lemma_parts_from(t, "CardsInLibrary"@, 5);
    reveal_strlit("CardsInGraveyard");
    lemma_parts_from(t, "CardsInGraveyard"@, 5);
    reveal_strlit("CardsInPlay");
    lemma_parts_from(t, "CardsInPlay"@, 5);
    reveal_strlit("CreaturesInPlay");
    lemma_parts_from(t, "CreaturesInPlay"@, 1);
    reveal_strlit("StartingLife");
    lemma_parts_from(t, "StartingLife"@, 0);
    reveal_strlit("LifeTotal");
    lemma_parts_from(t, "LifeTotal"@, 0);
    reveal_strlit("LifeLostThisTurn");
    lemma_parts_from(t, "LifeLostThisTurn"@, 0);
    reveal_strlit("LifeLostLastTurn");
    lemma_parts_from(t, "LifeLostLastTurn"@, 0);
    reveal_strlit("LifeGainedThisTurn");
    lemma_parts_from(t, "LifeGainedThisTurn"@, 0);
    reveal_strlit("LifeGainedByTeamThisTurn");
    lemma_parts_from(t, "LifeGainedByTeamThisTurn"@, 0);
    reveal_strlit("LifeStartedThisTurnWith");
    lemma_parts_from(t, "LifeStartedThisTurnWith"@, 0);
    reveal_strlit("Speed");
    lemma_parts_from(t, "Speed"@, 0);
    reveal_strlit("LandsPlayed");
    lemma_parts_from(t, "LandsPlayed"@, 0);
    reveal_strlit("SpellsCastThisTurn");
    lemma_parts_from(t, "SpellsCastThisTurn"@, 0);
    reveal_strlit("CardsDrawn");
    lemma_parts_from(t, "CardsDrawn"@, 6);
}

proof fn lemma_player_field_12(
    game: GameState,
    id: PlayerId,
    source: CardId,
    you: PlayerId,
)
    requires
        game.player_at(id) is Some,
    ensures
        player_number(game, id, "ExploredThisTurn"@, source, you) == game.player_at(id)->0.explored_this_turn,
{
    let t = "ExploredThisTurn"@;
    reveal_strlit("ExploredThisTurn");
    reveal_strlit("SacrificedThisTurn");
    lemma_parts_from(t, "SacrificedThisTurn"@, 0);
    reveal_strlit("Valid");
    lemma_parts_from(t, "Valid"@, 0);
    reveal_strlit("CardsInHand");
    lemma_parts_from(t, "CardsInHand"@, 0);
    reveal_strlit("CardsInLibrary");
    lemma_parts_from(t, "CardsInLibrary"@, 0);
    reveal_strlit("CardsInGraveyard");
    lemma_parts_from(t, "CardsInGraveyard"@, 0);
    reveal_strlit("CardsInPlay");
    lemma_parts_from(t, "CardsInPlay"@, 0);
    reveal_strlit("CreaturesInPlay");
    lemma_parts_from(t, "CreaturesInPlay"@, 0);
    reveal_strlit("StartingLife");
    lemma_parts_from(t, "StartingLife"@, 0);
    reveal_strlit("LifeTotal");
    lemma_parts_from(t, "LifeTotal"@, 0);
    reveal_strlit("LifeLostThisTurn");
    lemma_parts_from(t, "LifeLostThisTurn"@, 0);
    reveal_strlit("LifeLostLastTurn");
    lemma_parts_from(t, "LifeLostLastTurn"@, 0);
    reveal_strlit("LifeGainedThisTurn");
    lemma_parts_from(t, "LifeGainedThisTurn"@, 0);
    reveal_strlit("LifeGainedByTeamThisTurn");
    lemma_parts_from(t, "LifeGainedByTeamThisTurn"@, 0);
    reveal_strlit("LifeStartedThisTurnWith");
    lemma_parts_from(t, "LifeStartedThisTurnWith"@, 0);
    reveal_strlit("Speed");
    lemma_parts_from(t, "Speed"@, 0);
    reveal_strlit("LandsPlayed");
    lemma_parts_from(t, "LandsPlayed"@, 0);
    reveal_strlit("SpellsCastThisTurn");
    lemma_parts_from(t, "SpellsCastThisTurn"@, 0);
    reveal_strlit("CardsDrawn");
    lemma_parts_from(t, "CardsDrawn"@, 0);
    reveal_strlit("CardsDiscardedThisTurn");
    lemma_parts_from(t, "CardsDiscardedThisTurn"@, 0);
}

proof fn lemma_player_field_13(
    game: GameState,
    id: PlayerId,
    source: CardId,
    you: PlayerId,
)
    requires
        game.player_at(id) is Some,
    ensures
        player_number(game, id, "DamageToOppsThisTurn"@, source, you) == game.player_at(id)->0.opponents_assigned_damage_this_turn,
{
    let t = "DamageToOppsThisTurn"@;
    reveal_strlit("DamageToOppsThisTurn");
    reveal_strlit("SacrificedThisTurn");
    lemma_parts_from(t, "SacrificedThisTurn"@, 0);
    reveal_strlit("Valid");
    lemma_parts_from(t, "Valid"@, 0);
    reveal_strlit("CardsInHand");
    lemma_parts_from(t, "CardsInHand"@, 0);
    reveal_strlit("CardsInLibrary");
    lemma_parts_from(t, "CardsInLibrary"@, 0);
    reveal_strlit("CardsInGraveyard");
    lemma_parts_from(t, "CardsInGraveyard"@, 0);
    reveal_strlit("CardsInPlay");
    lemma_parts_from(t, "CardsInPlay"@, 0);
    reveal_strlit("CreaturesInPlay");
    lemma_parts_from(t, "CreaturesInPlay"@, 0);
    reveal_strlit("StartingLife");
    lemma_parts_from(t, "StartingLife"@, 0);
    reveal_strlit("LifeTotal");
    lemma_parts_from(t, "LifeTotal"@, 0);
    reveal_strlit("LifeLostThisTurn");
    lemma_parts_from(t, "LifeLostThisTurn"@, 0);
    reveal_strlit("LifeLostLastTurn");
    lemma_parts_from(t, "LifeLostLastTurn"@, 0);
    reveal_strlit("LifeGainedThisTurn");
    lemma_parts_from(t, "LifeGainedThisTurn"@, 0);
    reveal_strlit("LifeGainedByTeamThisTurn");
    lemma_parts_from(t, "LifeGainedByTeamThisTurn"@, 0);
    reveal_strlit("LifeStartedThisTurnWith");
    lemma_parts_from(t, "LifeStartedThisTurnWith"@, 0);
    reveal_strlit("Speed");
    lemma_parts_from(t, "Speed"@, 0);
    reveal_strlit("LandsPlayed");
    lemma_parts_from(t, "LandsPlayed"@, 0);
    reveal_strlit("SpellsCastThisTurn");
    lemma_parts_from(t, "SpellsCastThisTurn"@, 0);
    reveal_strlit("CardsDrawn");
    lemma_parts_from(t, "CardsDrawn"@, 0);
    reveal_strlit("CardsDiscardedThisTurn");
    lemma_parts_from(t, "CardsDiscardedThisTurn"@, 0);
    reveal_strlit("ExploredThisTurn");
    lemma_parts_from(t, "ExploredThisTurn"@, 0);
}

proof fn lemma_player_field_14(
    game: GameState,
    id: PlayerId,
    source: CardId,
    you: PlayerId,
)
    requires
        game.player_at(id) is Some,
    ensures
        player_number(game, id, "PoisonCounters"@, source, you) == game.player_at(id)->0.poison_counters,
{
    let t = "PoisonCounters"@;
    reveal_strlit("PoisonCounters");
    reveal_strlit("SacrificedThisTurn");
    lemma_parts_from(t, "SacrificedThisTurn"@, 0);
    reveal_strlit("Valid");
    lemma_parts_from(t, "Valid"@, 0);
    reveal_strlit("CardsInHand");
    lemma_parts_from(t, "CardsInHand"@, 0);
    reveal_strlit("CardsInLibrary");
    lemma_parts_from(t, "CardsInLibrary"@, 0);
    reveal_strlit("CardsInGraveyard");
    lemma_parts_from(t, "CardsInGraveyard"@, 0);
    reveal_strlit("CardsInPlay");
    lemma_parts_from(t, "CardsInPlay"@, 0);
    reveal_strlit("CreaturesInPlay");
    lemma_parts_from(t, "CreaturesInPlay"@, 0);
    reveal_strlit("StartingLife");
    lemma_parts_from(t, "StartingLife"@, 0);
    reveal_strlit("LifeTotal");
    lemma_parts_from(t, "LifeTotal"@, 0);
    reveal_strlit("LifeLostThisTurn");
    lemma_parts_from(t, "LifeLostThisTurn"@, 0);
    reveal_strlit("LifeLostLastTurn");
    lemma_parts_from(t, "LifeLostLastTurn"@, 0);
    reveal_strlit("LifeGainedThisTurn");
    lemma_parts_from(t, "LifeGainedThisTurn"@, 0);
    reveal_strlit("LifeGainedByTeamThisTurn");
    lemma_parts_from(t, "LifeGainedByTeamThisTurn"@, 0);
    reveal_strlit("LifeStartedThisTurnWith");
    lemma_parts_from(t, "LifeStartedThisTurnWith"@, 0);
    reveal_strlit("Speed");
    lemma_parts_from(t, "Speed"@, 0);
    reveal_strlit("LandsPlayed");
    lemma_parts_from(t, "LandsPlayed"@, 0);
    reveal_strlit("SpellsCastThisTurn");
    lemma_parts_from(t, "SpellsCastThisTurn"@, 0);
    reveal_strlit("CardsDrawn");
    lemma_parts_from(t, "CardsDrawn"@, 0);
    reveal_strlit("CardsDiscardedThisTurn");
    lemma_parts_from(t, "CardsDiscardedThisTurn"@, 0);
    reveal_strlit("ExploredThisTurn");
    lemma_parts_from(t, "ExploredThisTurn"@, 0);
    reveal_strlit("DamageToOppsThisTurn");
    lemma_parts_from(t, "DamageToOppsThisTurn"@, 0);
}

proof fn lemma_player_field_15(
    game: GameState,
    id: PlayerId,
    source: CardId,
    you: PlayerId,
)
    requires
        game.player_at(id) is Some,
    ensures
        player_number(game, id, "EnergyCounters"@, source, you) == game.player_at(id)->0.energy_counters,
{
    let t = "EnergyCounters"@;
    reveal_strlit("EnergyCounters");
    reveal_strlit("SacrificedThisTurn");
    lemma_parts_from(t, "SacrificedThisTurn"@, 0);
    reveal_strlit("Valid");
    lemma_parts_from(t, "Valid"@, 0);
    reveal_strlit("CardsInHand");
    lemma_parts_from(t, "CardsInHand"@, 0);
    reveal_strlit("CardsInLibrary");
    lemma_parts_from(t, "CardsInLibrary"@, 0);
    reveal_strlit("CardsInGraveyard");
    lemma_parts_from(t, "CardsInGraveyard"@, 0);
    reveal_strlit("CardsInPlay");
    lemma_parts_from(t, "CardsInPlay"@, 0);
    reveal_strlit("CreaturesInPlay");
    lemma_parts_from(t, "CreaturesInPlay"@, 0);
    reveal_strlit("StartingLife");
    lemma_parts_from(t, "StartingLife"@, 0);
    reveal_strlit("LifeTotal");
    lemma_parts_from(t, "LifeTotal"@, 0);
    reveal_strlit("LifeLostThisTurn");
    lemma_parts_from(t, "LifeLostThisTurn"@, 0);
    reveal_strlit("LifeLostLastTurn");
    lemma_parts_from(t, "LifeLostLastTurn"@, 0);
    reveal_strlit("LifeGainedThisTurn");
    lemma_parts_from(t, "LifeGainedThisTurn"@, 0);
    reveal_strlit("LifeGainedByTeamThisTurn");
    lemma_parts_from(t, "LifeGainedByTeamThisTurn"@, 0);
    reveal_strlit("LifeStartedThisTurnWith");
    lemma_parts_from(t, "LifeStartedThisTurnWith"@, 0);
    reveal_strlit("Speed");
    lemma_parts_from(t, "Speed"@, 0);
    reveal_strlit("LandsPlayed");
    lemma_parts_from(t, "LandsPlayed"@, 0);
    reveal_strlit("SpellsCastThisTurn");
    lemma_parts_from(t, "SpellsCastThisTurn"@, 0);
    reveal_strlit("CardsDrawn");
    lemma_parts_from(t, "CardsDrawn"@, 0);
    reveal_strlit("CardsDiscardedThisTurn");
    lemma_parts_from(t, "CardsDiscardedThisTurn"@, 0);
    reveal_strlit("ExploredThisTurn");
    lemma_parts_from(t, "ExploredThisTurn"@, 1);
    reveal_strlit("DamageToOppsThisTurn");
    lemma_parts_from(t, "DamageToOppsThisTurn"@, 0);
    reveal_strlit("PoisonCounters");
    lemma_parts_from(t, "PoisonCounters"@, 0);
}

proof fn lemma_player_zone_0(
    game: GameState,
    id: PlayerId,
    source: CardId,
    you: PlayerId,
)
    requires
        game.player_at(id) is Some,
    ensures
        player_number(game, id, "CardsInHand"@, source, you) == game.in_zone(
            ZoneType::Hand,
            id,
        ).len() as i32,
{
    let t = "CardsInHand"@;
    reveal_strlit("CardsInHand");
    reveal_strlit("SacrificedThisTurn");
    lemma_parts_from(t, "SacrificedThisTurn"@, 0);
    reveal_strlit("Valid");
    lemma_parts_from(t, "Valid"@, 0);
}

proof fn lemma_player_zone_1(
    game: GameState,
    id: PlayerId,
    source: CardId,
    you: PlayerId,
)
    requires
        game.player_at(id) is Some,
    ensures
        player_number(game, id, "CardsInLibrary"@, source, you) == game.in_zone(
            ZoneType::Library,
            id,
        ).len() as i32,
{
    let t = "CardsInLibrary"@;
    reveal_strlit("CardsInLibrary");
    reveal_strlit("SacrificedThisTurn");
    lemma_parts_from(t, "SacrificedThisTurn"@, 0);
    reveal_strlit("Valid");
    lemma_parts_from(t, "Valid"@, 0);
    reveal_strlit("CardsInHand");
    lemma_parts_from(t, "CardsInHand"@, 7);
}

proof fn lemma_player_zone_2(
    game: GameState,
    id: PlayerId,
    source: CardId,
    you: PlayerId,
)
    requires
        game.player_at(id) is Some,
    ensures
        player_number(game, id, "CardsInGraveyard"@, source, you) == game.in_zone(
            ZoneType::Graveyard,
            id,
        ).len() as i32,
{
    let t = "CardsInGraveyard"@;
    reveal_strlit("CardsInGraveyard");
    reveal_strlit("SacrificedThisTurn");
    lemma_parts_from(t, "SacrificedThisTurn"@, 0);
    reveal_strlit("Valid");
    lemma_parts_from(t, "Valid"@, 0);
    reveal_strlit("CardsInHand");
    lemma_parts_from(t, "CardsInHand"@, 7);
    reveal_strlit("CardsInLibrary");
    lemma_parts_from(t, "CardsInLibrary"@, 7);
}

proof fn lemma_player_zone_3(
    game: GameState,
    id: PlayerId,
    source: CardId,
    you: PlayerId,
)
    requires
        game.player_at(id) is Some,
    ensures
        player_number(game, id, "CardsInPlay"@, source, you) == game.in_zone(
            ZoneType::Battlefield,
            id,
        ).len() as i32,
{
    let t = "CardsInPlay"@;
    reveal_strlit("CardsInPlay");
    reveal_strlit("SacrificedThisTurn");
    lemma_parts_from(t, "SacrificedThisTurn"@, 0);
    reveal_strlit("Valid");
    lemma_parts_from(t, "Valid"@, 0);
    reveal_strlit("CardsInHand");
    lemma_parts_from(t, "CardsInHand"@, 7);
    reveal_strlit("CardsInLibrary");
    lemma_parts_from(t, "CardsInLibrary"@, 7);
    reveal_strlit("CardsInGraveyard");
    lemma_parts_from(t, "CardsInGraveyard"@, 7);
}

/// The numbers that can be asked of a card in play, by their names.
pub proof fn law_numbers_of_cards(c: Card, x_paid: u32)
    requires
        c.zone == ZoneType::Battlefield,
    ensures
        card_number(c, "CardPower"@, x_paid) == c.power,
        card_number(c, "CardToughness"@, x_paid) == c.toughness,
        card_number(c, "CastTotalManaSpent"@, x_paid) == c.paying_mana_to_cast@.len() as i32,
        c.base_power is Some ==> card_number(c, "CardBasePower"@, x_paid) == c.base_power->0,
        i32::MIN <= c.power + c.toughness <= i32::MAX ==> card_number(c, "CardSumPT"@, x_paid)
            == c.power + c.toughness,
        card_number(c, "ManaCost"@, x_paid) == c.mana_value,
        card_number(c, "Amount"@, x_paid) == 1,
{
    reveal_strlit("CardPower");
    reveal_strlit("CastTotalManaSpent");
    reveal_strlit("CardNumColors");
    reveal_strlit("CardBasePower");
    reveal_strlit("CardToughness");
    reveal_strlit("CardBaseToughness");
    reveal_strlit("CardSumPT");
    reveal_strlit("ManaCost");
    reveal_strlit("Amount");
    reveal_strlit("CardManaCost");
    reveal_strlit("LKI");
    reveal_strlit("Count");
    reveal_strlit("CardPower");
    lemma_parts_from("CardToughness"@, "CardPower"@, 4);
    reveal_strlit("CastTotalManaSpent");
    lemma_parts_from("CardToughness"@, "CastTotalManaSpent"@, 2);
    reveal_strlit("CardNumColors");
    lemma_parts_from("CardToughness"@, "CardNumColors"@, 4);
    reveal_strlit("CardBasePower");
    lemma_parts_from("CardToughness"@, "CardBasePower"@, 4);
    reveal_strlit("CardPower");
    lemma_parts_from("CastTotalManaSpent"@, "CardPower"@, 2);
    reveal_strlit("CardPower");
    lemma_parts_from("CardBasePower"@, "CardPower"@, 4);
    reveal_strlit("CastTotalManaSpent");
    lemma_parts_from("CardBasePower"@, "CastTotalManaSpent"@, 2);
    reveal_strlit("CardNumColors");
    lemma_parts_from("CardBasePower"@, "CardNumColors"@, 4);
    reveal_strlit("CardPower");
    lemma_parts_from("CardSumPT"@, "CardPower"@, 4);
    reveal_strlit("CastTotalManaSpent");
    lemma_parts_from("CardSumPT"@, "CastTotalManaSpent"@, 2);
    reveal_strlit("CardNumColors");
    lemma_parts_from("CardSumPT"@, "CardNumColors"@, 4);
    reveal_strlit("CardBasePower");
    lemma_parts_from("CardSumPT"@, "CardBasePower"@, 4);
    reveal_strlit("CardToughness");
    lemma_parts_from("CardSumPT"@, "CardToughness"@, 4);
    reveal_strlit("CardBaseToughness");
    lemma_parts_from("CardSumPT"@, "CardBaseToughness"@, 4);
    reveal_strlit("CardPower");
    lemma_parts_from("ManaCost"@, "CardPower"@, 0);
    reveal_strlit("CastTotalManaSpent");
    lemma_parts_from("ManaCost"@, "CastTotalManaSpent"@, 0);
    reveal_strlit("CardNumColors");
    lemma_parts_from("ManaCost"@, "CardNumColors"@, 0);
    reveal_strlit("CardBasePower");
    lemma_parts_from("ManaCost"@, "CardBasePower"@, 0);
    reveal_strlit("CardToughness");
    lemma_parts_from("ManaCost"@, "CardToughness"@, 0);
    reveal_strlit("CardBaseToughness");
    lemma_parts_from("ManaCost"@, "CardBaseToughness"@, 0);
    reveal_strlit("CardSumPT");
    lemma_parts_from("ManaCost"@, "CardSumPT"@, 0);
    reveal_strlit("CardManaCost");
    lemma_parts_from("ManaCost"@, "CardManaCost"@, 0);
    reveal_strlit("CardPower");
    lemma_parts_from("Amount"@, "CardPower"@, 0);
    reveal_strlit("CastTotalManaSpent");
    lemma_parts_from("Amount"@, "CastTotalManaSpent"@, 0);
    reveal_strlit("CardNumColors");
    lemma_parts_from("Amount"@, "CardNumColors"@, 0);
    reveal_strlit("CardBasePower");
    lemma_parts_from("Amount"@, "CardBasePower"@, 0);
    reveal_strlit("CardToughness");
    lemma_parts_from("Amount"@, "CardToughness"@, 0);
    reveal_strlit("CardBaseToughness");
    lemma_parts_from("Amount"@, "CardBaseToughness"@, 0);
    reveal_strlit("CardSumPT");
    lemma_parts_from("Amount"@, "CardSumPT"@, 0);
    reveal_strlit("CardManaCost");
    lemma_parts_from("Amount"@, "CardManaCost"@, 0);
    reveal_strlit("ManaCost");
    lemma_parts_from("Amount"@, "ManaCost"@, 0);
    lemma_lacks("ManaCost"@, "LKI"@, 0);
}

// ---- comparisons ----

/// A choice by a comparison of two numbers comes to the first outcome where it holds, and to the second
/// where it does not.
pub proof fn law_compared_numbers(
    s: SceneView,
    depth: u32,
    hops: u32,
    left: Seq<char>,
    op: Seq<char>,
    right: Seq<char>,
    a: Seq<char>,
    b: Seq<char>,
)
    requires
        is_set(s),
        depth > 0,
        int_value(left) is Some,
        int_value(right) is Some,
        int_value(a) is Some,
        int_value(b) is Some,
        op == "GE"@ || op == "LE"@ || op == "GT"@ || op == "LT"@ || op == "EQ"@ || op == "NE"@,
        source_svar(s, left) is None,
        source_svar(s, right) is None,
    ensures
        ({
            let t = "Count$Compare "@ + (left + seq![' '] + ((op + right) + seq!['.'] + (a + seq![
                '.',
            ] + b)));
            let n = int_value(left)->0;
            let m = int_value(right)->0;
            let holds = if op == "GE"@ {
                n >= m
            } else if op == "LE"@ {
                n <= m
            } else if op == "GT"@ {
                n > m
            } else if op == "LT"@ {
                n < m
            } else if op == "EQ"@ {
                n == m
            } else {
                n != m
            };
            count_value(s, depth, hops, t) == if holds {
                int_value(a)->0
            } else {
                int_value(b)->0
            }
        }),
{
    let outcomes = a + seq!['.'] + b;
    let conditions = (op + right) + seq!['.'] + outcomes;
    let rest = left + seq![' '] + conditions;
    let w = "Count$Compare "@;
    let t = w + rest;
    reveal_strlit("Count$Compare ");
    reveal_strlit(" ");
    reveal_strlit(".");
    reveal_strlit("GE");
    reveal_strlit("LE");
    reveal_strlit("GT");
    reveal_strlit("LT");
    reveal_strlit("EQ");
    reveal_strlit("NE");
    assert(" "@ =~= seq![' ']);
    assert("."@ =~= seq!['.']);
    lemma_starts(w, rest);
    lemma_number_chars(left, ' ');
    lemma_number_chars(right, '.');
    lemma_number_chars(a, '.');
    lemma_number_chars(b, '.');
    lemma_mark_between(left, ' ', conditions);
    let condition = op + right;
    assert(!condition.contains('.')) by {
        if condition.contains('.') {
            let i = choose|i: int| 0 <= i < condition.len() && condition[i] == '.';
            if i >= 2 {
                assert(right[i - 2] == '.');
            } else {
                assert(op[i] == '.');
            }
        }
    }
    lemma_mark_between(condition, '.', outcomes);
    lemma_mark_between(a, '.', b);
    assert(condition[0] == op[0] && condition[1] == op[1]);
    assert(two_bytes(condition) == Some(2int));
    assert(condition.take(2) =~= op);
    assert(condition.skip(2) =~= right);
    crate::svar::eval::law_numbers_stand_for_themselves(s, depth, left);
    crate::svar::eval::law_numbers_stand_for_themselves(s, depth, right);
    law_comparisons(int_value(left)->0 as i32, op, int_value(right)->0 as i32);
    assert(t[0] == 'C');
    assert(t[6] == 'C');
    assert(t[7] == 'o');
    assert(t[8] == 'm');
    reveal_strlit("PlayerCount");
    lemma_parts_from(t, "PlayerCount"@, 0);
    reveal_strlit("TargetedObjects");
    lemma_parts_from(t, "TargetedObjects"@, 0);
    reveal_strlit("Count$xPaid");
    lemma_parts_from(t, "Count$xPaid"@, 6);
    reveal_strlit("Count$XPaid");
    lemma_parts_from(t, "Count$XPaid"@, 6);
    reveal_strlit("Count$CastTotalManaSpent ");
    lemma_parts_from(t, "Count$CastTotalManaSpent "@, 7);
    reveal_strlit("Count$CastTotalManaSpent");
    lemma_parts_from(t, "Count$CastTotalManaSpent"@, 7);
    reveal_strlit("Count$TriggerRememberAmount");
    lemma_parts_from(t, "Count$TriggerRememberAmount"@, 6);
    reveal_strlit("Count$OptionalKeywordAmount");
    lemma_parts_from(t, "Count$OptionalKeywordAmount"@, 6);
    reveal_strlit("Count$ChosenNumber");
    lemma_parts_from(t, "Count$ChosenNumber"@, 7);
    reveal_strlit("TriggerCount$Result");
    lemma_parts_from(t, "TriggerCount$Result"@, 0);
    reveal_strlit("TriggerCountMax$Result");
    lemma_parts_from(t, "TriggerCountMax$Result"@, 0);
    reveal_strlit("Count$Converge");
    lemma_parts_from(t, "Count$Converge"@, 8);
    reveal_strlit("Count$Sunburst");
    lemma_parts_from(t, "Count$Sunburst"@, 6);
    reveal_strlit("Count$Adamant");
    lemma_parts_from(t, "Count$Adamant"@, 6);
    reveal_strlit("Count$FinalChapterNr");
    lemma_parts_from(t, "Count$FinalChapterNr"@, 6);
    reveal_strlit("Count$YourSpeed");
    lemma_parts_from(t, "Count$YourSpeed"@, 6);
    reveal_strlit("Count$DomainActivePlayer");
    lemma_parts_from(t, "Count$DomainActivePlayer"@, 6);
    reveal_strlit("Count$Domain");
    lemma_parts_from(t, "Count$Domain"@, 6);
    reveal_strlit("Count$Party");
    lemma_parts_from(t, "Count$Party"@, 6);
    reveal_strlit("Count$YourLifeTotal");
    lemma_parts_from(t, "Count$YourLifeTotal"@, 6);
    reveal_strlit("Count$YouDrewThisTurn");
    lemma_parts_from(t, "Count$YouDrewThisTurn"@, 6);
    reveal_strlit("Count$OppGreatestLifeTotal");
    lemma_parts_from(t, "Count$OppGreatestLifeTotal"@, 6);
    reveal_strlit("Count$Metalcraft.");
    lemma_parts_from(t, "Count$Metalcraft."@, 6);
    reveal_strlit("Count$MaxSpeed.");
    lemma_parts_from(t, "Count$MaxSpeed."@, 6);
    reveal_strlit("Count$AttackersDeclared");
    lemma_parts_from(t, "Count$AttackersDeclared"@, 6);
    reveal_strlit("Count$TopOfLibraryCMC");
    lemma_parts_from(t, "Count$TopOfLibraryCMC"@, 6);
    reveal_strlit("Count$OptionalGenericCostPaid.");
    lemma_parts_from(t, "Count$OptionalGenericCostPaid."@, 6);
    reveal_strlit("Count$KickedCount");
    lemma_parts_from(t, "Count$KickedCount"@, 6);
    reveal_strlit("Count$Kicked.");
    lemma_parts_from(t, "Count$Kicked."@, 6);
    reveal_strlit("Count$UrzaLands.");
    lemma_parts_from(t, "Count$UrzaLands."@, 6);
    reveal_strlit("Count$PromisedGift.");
    lemma_parts_from(t, "Count$PromisedGift."@, 6);
    reveal_strlit("Count$PromisedGift");
    lemma_parts_from(t, "Count$PromisedGift"@, 6);
    reveal_strlit("Count$Valid");
    lemma_parts_from(t, "Count$Valid"@, 6);
    reveal_strlit("Count$Valid ");
    lemma_parts_from(t, "Count$Valid "@, 6);
    reveal_strlit("Count$Devotion.");
    lemma_parts_from(t, "Count$Devotion."@, 6);
}

} // verus!
