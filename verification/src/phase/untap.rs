//! The untap step: phasing, day and night, and untapping.

use vstd::prelude::*;
use crate::game::{Card, GameState};
use crate::lists::has_card;
use crate::text::text_eq;
use crate::types::{CardId, PlayerId, ZoneType};

verus! {

// ---- phasing ----

/// Whether a card is a permanent of a player.
pub open spec fn is_permanent_of(c: Card, player: PlayerId) -> bool {
    c.zone == ZoneType::Battlefield && c.controller == player
}

/// A card after the phasing of a player: their permanents are phased out if they have phasing, and
/// else phased in.
pub open spec fn phased(c: Card, player: PlayerId) -> Card {
    Card {
        phased_out: if is_permanent_of(c, player) {
            c.keyword("Phasing"@)
        } else {
            c.phased_out
        },
        ..c
    }
}

#[verifier::opaque]
pub open spec fn is_phased(c: Card, d: Card, player: PlayerId) -> bool {
    d == phased(c, player)
}

fn phase_card(c: &mut Card, player: PlayerId)
    ensures
        is_phased(*old(c), *final(c), player),
{
    reveal(is_phased);
    if c.zone == ZoneType::Battlefield && c.controller == player {
        c.phased_out = c.has_keyword("Phasing");
    }
}

/// Whether a game differs only in the phasing of a player.
pub open spec fn game_phased(before: GameState, after: GameState, player: PlayerId) -> bool {
    &&& after == (GameState { cards: after.cards, ..before })
    &&& after.cards@.len() == before.cards@.len()
    &&& forall|i: int|
        0 <= i < before.cards@.len() ==> is_phased(
            before.cards@[i],
            #[trigger] after.cards@[i],
            player,
        )
}

/// Phases in the permanents of a player that are phased out, and then phases out those that have
/// phasing.
pub fn do_phasing(game: &mut GameState, turn_player: PlayerId)
    ensures
        game_phased(*old(game), *final(game), turn_player),
{
    let ghost start = *game;
    let mut i: usize = 0;
    while i < game.cards.len()
        invariant
            i <= game.cards@.len(),
            *game == (GameState { cards: game.cards, ..start }),
            game.cards@.len() == start.cards@.len(),
            forall|k: int|
                0 <= k < i ==> is_phased(start.cards@[k], #[trigger] game.cards@[k], turn_player),
            forall|k: int| i <= k < start.cards@.len() ==> #[trigger] game.cards@[k] == start.cards@[k],
        decreases game.cards@.len() - i,
    {
        phase_card(&mut game.cards[i], turn_player);
        i = i + 1;
    }
}

proof fn lemma_phased(c: Card, d: Card, player: PlayerId)
    requires
        is_phased(c, d, player),
    ensures
        d == (Card { phased_out: d.phased_out, ..c }),
        d.phased_out == (if is_permanent_of(c, player) {
            c.keyword("Phasing"@)
        } else {
            c.phased_out
        }),
{
    reveal(is_phased);
}

/// Phasing changes nothing but who is phased out, and only for permanents of the player: those
/// without phasing are in, those with it are out.
pub proof fn law_phasing(before: GameState, after: GameState, player: PlayerId, i: int)
    requires
        game_phased(before, after, player),
        0 <= i < before.cards@.len(),
    ensures
        after.cards@[i] == (Card { phased_out: after.cards@[i].phased_out, ..before.cards@[i] }),
        after.cards@[i].phased_out == (if is_permanent_of(before.cards@[i], player) {
            before.cards@[i].keyword("Phasing"@)
        } else {
            before.cards@[i].phased_out
        }),
{
    lemma_phased(before.cards@[i], after.cards@[i], player);
}

/// To phase twice in a row is to phase once.
pub proof fn law_phasing_twice(c: Card, player: PlayerId)
    ensures
        phased(phased(c, player), player) == phased(c, player),
{
}

// ---- day and night ----

/// How many spells of a list a player controls.
pub open spec fn cast_by_player(game: GameState, ids: Seq<CardId>, player: PlayerId) -> nat
    decreases ids.len(),
{
    if ids.len() == 0 {
        0
    } else {
        cast_by_player(game, ids.drop_last(), player) + (if game.card_at(ids.last()) matches Some(c)
            && c.controller == player {
            1nat
        } else {
            0
        })
    }
}

/// What the day becomes: night when the player before cast nothing, day when they cast two or more.
pub open spec fn next_day_time(game: GameState, previous: Option<PlayerId>) -> Option<bool> {
    match previous {
        Some(p) => {
            let casted = cast_by_player(game, game.cast_last_turn@, p);
            if game.is_day && casted == 0 {
                Some(true)
            } else if game.is_night && casted > 1 {
                Some(false)
            } else {
                None
            }
        },
        None => None,
    }
}

/// Changes day to night or night to day at the start of a turn, and says which it has become: night
/// or not. Nothing is said where nothing changes.
pub fn do_day_time(game: &mut GameState, previous: Option<PlayerId>) -> (r: Option<bool>)
    ensures
        r == next_day_time(*old(game), previous),
        match r {
            Some(night) => *final(game) == (GameState {
                is_night: night,
                is_day: !night,
                ..*old(game)
            }),
            None => *final(game) == *old(game),
        },
{
    let ghost start = *game;
    let player = match previous {
        Some(p) => p,
        None => {
            return None;
        },
    };
    let ghost all = game.cast_last_turn@;
    let mut casted: usize = 0;
    let mut i: usize = 0;
    while i < game.cast_last_turn.len()
        invariant
            *game == start,
            i <= all.len(),
            all == game.cast_last_turn@,
            casted <= i,
            casted == cast_by_player(*game, all.take(i as int), player),
        decreases all.len() - i,
    {
        assert(all.take(i + 1).drop_last() =~= all.take(i as int));
        if let Some(c) = game.card(game.cast_last_turn[i]) {
            if c.controller == player {
                casted = casted + 1;
            }
        }
        i = i + 1;
    }
    assert(all.take(i as int) =~= all);
    if game.is_day && casted == 0 {
        game.is_night = true;
        game.is_day = false;
        Some(true)
    } else if game.is_night && casted > 1 {
        game.is_night = false;
        game.is_day = true;
        Some(false)
    } else {
        None
    }
}

/// One spell of the player before changes nothing.
pub proof fn law_one_spell_keeps_day_time(game: GameState, previous: PlayerId)
    requires
        cast_by_player(game, game.cast_last_turn@, previous) == 1,
    ensures
        next_day_time(game, Some(previous)) is None,
{
}

// ---- untapping ----

pub open spec fn never_untaps(c: Card) -> bool {
    c.keyword("CARDNAME doesn't untap during your untap step."@)
}

pub open spec fn skips_next(c: Card) -> bool {
    c.keyword("This card doesn't untap during your next untap step."@)
}

/// Whether a card untaps in the untap step of its controller.
pub open spec fn untaps(c: Card) -> bool {
    c.tapped && !never_untaps(c) && !c.exerted && !skips_next(c)
}

/// Whether a card loses what keeps it from untapping this once.
pub open spec fn uses_skip(c: Card) -> bool {
    c.tapped && !never_untaps(c) && !c.exerted && skips_next(c)
}

/// Texts without those that say a thing.
pub open spec fn texts_without(v: Seq<String>, t: Seq<char>) -> Seq<String>
    decreases v.len(),
{
    if v.len() == 0 {
        Seq::empty()
    } else if v[0]@ == t {
        texts_without(v.skip(1), t)
    } else {
        seq![v[0]] + texts_without(v.skip(1), t)
    }
}

fn remove_text(v: &mut Vec<String>, t: &str)
    ensures
        final(v)@ == texts_without(old(v)@, t@),
{
    let ghost start = v@;
    let mut i: usize = v.len();
    assert(start.skip(start.len() as int) =~= Seq::<String>::empty());
    assert(v@ =~= start.take(i as int) + texts_without(start.skip(i as int), t@));
    while i > 0
        invariant
            i <= start.len(),
            v@ == start.take(i as int) + texts_without(start.skip(i as int), t@),
        decreases i,
    {
        i = i - 1;
        let ghost rest = texts_without(start.skip(i + 1), t@);
        assert(start.skip(i as int).skip(1) =~= start.skip(i + 1));
        assert(v@[i as int] == start[i as int]);
        if text_eq(v[i].as_str(), t) {
            v.remove(i);
            assert(v@ =~= start.take(i as int) + rest);
        } else {
            assert(v@ =~= start.take(i as int) + (seq![start[i as int]] + rest));
        }
    }
    assert(start.skip(0) =~= start);
    assert(v@ =~= texts_without(start, t@));
}

/// Whether a card differs only in its tapping, exertion and keywords.
#[verifier::opaque]
pub open spec fn differs_by(
    c: Card,
    d: Card,
    tapped: bool,
    exerted: bool,
    keywords: Vec<String>,
) -> bool {
    d == (Card { tapped, exerted, keywords, ..c })
}

proof fn lemma_fields(c: Card, d: Card, tapped: bool, exerted: bool, keywords: Vec<String>)
    requires
        differs_by(c, d, tapped, exerted, keywords),
    ensures
        d.tapped == tapped,
        d.exerted == exerted,
        d.keywords == keywords,
        d.zone == c.zone,
        d.phased_out == c.phased_out,
{
    reveal(differs_by);
}

proof fn lemma_both(c: Card, m: Card, d: Card, tapped: bool, exerted: bool, keywords: Vec<String>)
    requires
        differs_by(c, m, tapped, exerted, c.keywords),
        differs_by(m, d, tapped, exerted, keywords),
    ensures
        differs_by(c, d, tapped, exerted, keywords),
{
    reveal(differs_by);
}

/// Whether a card differs only as the untap step says. `own` says whether it is a permanent of the
/// player whose step it is.
pub open spec fn card_untapped(c: Card, d: Card, own: bool) -> bool {
    &&& differs_by(
        c,
        d,
        c.tapped && !(own && untaps(c)),
        c.exerted && c.zone != ZoneType::Battlefield,
        d.keywords,
    )
    &&& d.keywords@ == if own && uses_skip(c) {
        texts_without(c.keywords@, "This card doesn't untap during your next untap step."@)
    } else {
        c.keywords@
    }
    &&& !(own && uses_skip(c)) ==> d.keywords == c.keywords
}

fn check_untaps(c: &Card) -> (r: bool)
    ensures
        r == untaps(*c),
{
    c.tapped && !c.has_keyword("CARDNAME doesn't untap during your untap step.") && !c.exerted
        && !c.has_keyword("This card doesn't untap during your next untap step.")
}

fn check_uses_skip(c: &Card) -> (r: bool)
    ensures
        r == uses_skip(*c),
{
    c.tapped && !c.has_keyword("CARDNAME doesn't untap during your untap step.") && !c.exerted
        && c.has_keyword("This card doesn't untap during your next untap step.")
}

fn set_state(c: &mut Card, tapped: bool, exerted: bool)
    ensures
        differs_by(*old(c), *final(c), tapped, exerted, old(c).keywords),
{
    reveal(differs_by);
    c.tapped = tapped;
    c.exerted = exerted;
}

fn drop_skip(c: &mut Card)
    ensures
        differs_by(*old(c), *final(c), old(c).tapped, old(c).exerted, final(c).keywords),
        final(c).keywords@ == texts_without(
            old(c).keywords@,
            "This card doesn't untap during your next untap step."@,
        ),
{
    reveal(differs_by);
    remove_text(&mut c.keywords, "This card doesn't untap during your next untap step.");
}

fn untap_card(c: &mut Card, own: bool)
    ensures
        card_untapped(*old(c), *final(c), own),
{
    let ghost start = *c;
    let now = own && check_untaps(c);
    let skip = own && check_uses_skip(c);
    set_state(c, c.tapped && !now, c.exerted && c.zone != ZoneType::Battlefield);
    let ghost mid = *c;
    let ghost tapped = start.tapped && !now;
    let ghost exerted = start.exerted && start.zone != ZoneType::Battlefield;
    proof {
        lemma_fields(start, mid, tapped, exerted, start.keywords);
    }
    if skip {
        drop_skip(c);
        proof {
            lemma_both(start, mid, *c, tapped, exerted, c.keywords);
        }
    }
}

/// The cards of a list that untap.
pub open spec fn untapping(game: GameState, ids: Seq<CardId>) -> Seq<CardId>
    decreases ids.len(),
{
    if ids.len() == 0 {
        Seq::empty()
    } else {
        let before = untapping(game, ids.drop_last());
        if game.card_at(ids.last()) matches Some(c) && untaps(c) {
            before.push(ids.last())
        } else {
            before
        }
    }
}

/// Whether a game differs only as the untap step of a player says.
pub open spec fn game_untapped(before: GameState, after: GameState, player: PlayerId) -> bool {
    &&& after == (GameState { cards: after.cards, ..before })
    &&& after.cards@.len() == before.cards@.len()
    &&& forall|i: int|
        0 <= i < before.cards@.len() ==> card_untapped(
            before.cards@[i],
            #[trigger] after.cards@[i],
            before.in_zone(ZoneType::Battlefield, player).contains(CardId(i as u32)),
        )
}

/// Untaps the permanents of a player, but for those that something keeps from untapping, and says
/// which have untapped. What is exerted stays tapped this once.
pub fn do_untap(game: &mut GameState, active: PlayerId) -> (r: Vec<CardId>)
    ensures
        r@ == untapping(*old(game), old(game).in_zone(ZoneType::Battlefield, active)),
        game_untapped(*old(game), *final(game), active),
{
    let ghost start = *game;
    let own = game.cards_in_zone(ZoneType::Battlefield, active);
    let ghost all = own@;
    let mut untapped: Vec<CardId> = Vec::new();
    let mut i: usize = 0;
    while i < own.len()
        invariant
            *game == start,
            i <= all.len(),
            all == own@,
            untapped@ == untapping(start, all.take(i as int)),
        decreases all.len() - i,
    {
        assert(all.take(i + 1).drop_last() =~= all.take(i as int));
        if let Some(c) = game.card(own[i]) {
            if check_untaps(c) {
                untapped.push(own[i]);
            }
        }
        i = i + 1;
    }
    assert(all.take(i as int) =~= all);
    let mut k: usize = 0;
    while k < game.cards.len()
        invariant
            k <= game.cards@.len(),
            all == own@,
            all == start.in_zone(ZoneType::Battlefield, active),
            *game == (GameState { cards: game.cards, ..start }),
            game.cards@.len() == start.cards@.len(),
            forall|j: int|
                0 <= j < k ==> card_untapped(
                    start.cards@[j],
                    #[trigger] game.cards@[j],
                    all.contains(CardId(j as u32)),
                ),
            forall|j: int| k <= j < start.cards@.len() ==> #[trigger] game.cards@[j] == start.cards@[j],
        decreases game.cards@.len() - k,
    {
        let mine = has_card(&own, CardId(k as u32));
        untap_card(&mut game.cards[k], mine);
        k = k + 1;
    }
    untapped
}

/// Nothing becomes tapped in the untap step, and no permanent is exerted after it.
pub proof fn law_untap(before: GameState, after: GameState, player: PlayerId, i: int)
    requires
        game_untapped(before, after, player),
        0 <= i < before.cards@.len(),
    ensures
        after.cards@[i].tapped ==> before.cards@[i].tapped,
        after.cards@[i].zone == before.cards@[i].zone,
        after.cards@[i].phased_out == before.cards@[i].phased_out,
        after.cards@[i].zone == ZoneType::Battlefield ==> !after.cards@[i].exerted,
        before.cards@[i].tapped && never_untaps(before.cards@[i]) ==> after.cards@[i].tapped,
        before.cards@[i].tapped && before.cards@[i].exerted ==> after.cards@[i].tapped,
{
    let c = before.cards@[i];
    let d = after.cards@[i];
    let own = before.in_zone(ZoneType::Battlefield, player).contains(CardId(i as u32));
    assert(card_untapped(c, d, own));
    lemma_fields(
        c,
        d,
        c.tapped && !(own && untaps(c)),
        c.exerted && c.zone != ZoneType::Battlefield,
        d.keywords,
    );
}

} // verus!
