//! Lists of cards that counts are taken over, and the counts that need more than one list.

use vstd::prelude::*;
use crate::game::{Counter, GameState, ZoneEntry};
use crate::lists::has_text_ignoring_case;
use crate::svar::folds::{greatest, max_or, merge_text, merged};
use crate::text::{string_views, text_eq, views};
use crate::types::{CardId, PlayerId, ZoneType};

verus! {

/// The cards that came into a zone, from another one where it is given.
pub open spec fn entered(
    entries: Seq<ZoneEntry>,
    destination: ZoneType,
    origin: Option<ZoneType>,
) -> Seq<CardId>
    decreases entries.len(),
{
    if entries.len() == 0 {
        Seq::empty()
    } else {
        let before = entered(entries.drop_last(), destination, origin);
        let e = entries.last();
        if e.destination == destination && (origin is None || origin == Some(e.origin)) {
            before.push(e.card)
        } else {
            before
        }
    }
}

pub fn list_entered(
    entries: &Vec<ZoneEntry>,
    destination: ZoneType,
    origin: Option<ZoneType>,
) -> (r: Vec<CardId>)
    ensures
        r@ == entered(entries@, destination, origin),
{
    let mut out: Vec<CardId> = Vec::new();
    let mut i: usize = 0;
    while i < entries.len()
        invariant
            i <= entries@.len(),
            out@ == entered(entries@.take(i as int), destination, origin),
        decreases entries@.len() - i,
    {
        assert(entries@.take(i + 1).drop_last() =~= entries@.take(i as int));
        let e = &entries[i];
        let from = match origin {
            Some(z) => z == e.origin,
            None => true,
        };
        if e.destination == destination && from {
            out.push(e.card);
        }
        i = i + 1;
    }
    assert(entries@.take(i as int) =~= entries@);
    out
}

/// Whether a card matches one of the restrictions of a list.
pub open spec fn matches_any(
    game: GameState,
    restrictions: Seq<Seq<char>>,
    source: CardId,
    you: PlayerId,
    id: CardId,
) -> bool {
    exists|i: int|
        0 <= i < restrictions.len() && game.facts.matches_card(
            #[trigger] restrictions[i],
            source,
            you,
            id,
        )
}

/// The mana sources of a list that match one of the restrictions.
pub open spec fn sources_matching(
    game: GameState,
    ids: Seq<CardId>,
    restrictions: Seq<Seq<char>>,
    source: CardId,
    you: PlayerId,
) -> Seq<CardId>
    decreases ids.len(),
{
    if ids.len() == 0 {
        Seq::empty()
    } else {
        let before = sources_matching(game, ids.drop_last(), restrictions, source, you);
        if matches_any(game, restrictions, source, you, ids.last()) {
            before.push(ids.last())
        } else {
            before
        }
    }
}

pub fn list_sources_matching(
    game: &GameState,
    ids: &Vec<CardId>,
    restrictions: &Vec<&str>,
    source: CardId,
    you: PlayerId,
) -> (r: Vec<CardId>)
    ensures
        r@ == sources_matching(*game, ids@, views(restrictions@), source, you),
{
    let ghost texts = views(restrictions@);
    let mut out: Vec<CardId> = Vec::new();
    let mut i: usize = 0;
    while i < ids.len()
        invariant
            i <= ids@.len(),
            texts == views(restrictions@),
            out@ == sources_matching(*game, ids@.take(i as int), texts, source, you),
        decreases ids@.len() - i,
    {
        assert(ids@.take(i + 1).drop_last() =~= ids@.take(i as int));
        let mut any = false;
        let mut j: usize = 0;
        while j < restrictions.len()
            invariant
                i < ids@.len(),
                j <= restrictions@.len(),
                texts == views(restrictions@),
                any == exists|k: int|
                    0 <= k < j && game.facts.matches_card(
                        #[trigger] texts[k],
                        source,
                        you,
                        ids@[i as int],
                    ),
            decreases restrictions@.len() - j,
        {
            let ghost any_before = any;
            assert(texts[j as int] == restrictions@[j as int]@);
            if game.facts.card_matches_selector(restrictions[j], source, you, ids[i]) {
                any = true;
                assert(game.facts.matches_card(texts[j as int], source, you, ids@[i as int]));
            }
            j = j + 1;
        }
        assert(any == matches_any(*game, texts, source, you, ids@[i as int]));
        if any {
            out.push(ids[i]);
        }
        i = i + 1;
    }
    assert(ids@.take(i as int) =~= ids@);
    out
}

/// Whether a land among the cards that is not phased out has a subtype.
pub open spec fn land_with(game: GameState, ids: Seq<CardId>, subtype: Seq<char>) -> bool {
    exists|i: int|
        0 <= i < ids.len() && (game.card_at(#[trigger] ids[i]) matches Some(c) && c.types.land
            && !c.phased_out && c.types.is_subtype(subtype))
}

pub fn has_land_with(game: &GameState, ids: &Vec<CardId>, subtype: &str) -> (r: bool)
    ensures
        r == land_with(*game, ids@, subtype@),
{
    let mut i: usize = 0;
    while i < ids.len()
        invariant
            i <= ids@.len(),
            forall|k: int|
                0 <= k < i ==> !(game.card_at(#[trigger] ids@[k]) matches Some(c) && c.types.land
                    && !c.phased_out && c.types.is_subtype(subtype@)),
        decreases ids@.len() - i,
    {
        if let Some(c) = game.card(ids[i]) {
            if c.types.land && !c.phased_out && c.types.has_subtype(subtype) {
                assert(game.card_at(ids@[i as int]) == Some(*c));
                return true;
            }
        }
        i = i + 1;
    }
    false
}

/// How many basic land types there are among a player's lands.
pub open spec fn domain(game: GameState, ids: Seq<CardId>) -> i32 {
    let b = |t: Seq<char>| if land_with(game, ids, t) { 1int } else { 0int };
    (b("Plains"@) + b("Island"@) + b("Swamp"@) + b("Mountain"@) + b("Forest"@)) as i32
}

pub fn count_domain(game: &GameState, ids: &Vec<CardId>) -> (r: i32)
    ensures
        r == domain(*game, ids@),
{
    (if has_land_with(game, ids, "Plains") { 1i32 } else { 0 }) + (if has_land_with(
        game,
        ids,
        "Island",
    ) { 1i32 } else { 0 }) + (if has_land_with(game, ids, "Swamp") { 1i32 } else { 0 })
        + (if has_land_with(game, ids, "Mountain") { 1i32 } else { 0 }) + (if has_land_with(
        game,
        ids,
        "Forest",
    ) { 1i32 } else { 0 })
}

/// The life totals of a player's living opponents.
pub open spec fn opponent_lives(game: GameState, ids: Seq<PlayerId>, you: PlayerId) -> Seq<i32>
    decreases ids.len(),
{
    if ids.len() == 0 {
        Seq::empty()
    } else {
        let before = opponent_lives(game, ids.drop_last(), you);
        match game.player_at(ids.last()) {
            Some(p) if game.are_opponents(you, ids.last()) => before.push(p.life),
            _ => before,
        }
    }
}

pub fn list_opponent_lives(game: &GameState, ids: &Vec<PlayerId>, you: PlayerId) -> (r: Vec<i32>)
    ensures
        r@ == opponent_lives(*game, ids@, you),
{
    let mut out: Vec<i32> = Vec::new();
    let mut i: usize = 0;
    while i < ids.len()
        invariant
            i <= ids@.len(),
            out@ == opponent_lives(*game, ids@.take(i as int), you),
        decreases ids@.len() - i,
    {
        assert(ids@.take(i + 1).drop_last() =~= ids@.take(i as int));
        if let Some(p) = game.player(ids[i]) {
            if game.is_opponent_of(you, ids[i]) {
                out.push(p.life);
            }
        }
        i = i + 1;
    }
    assert(ids@.take(i as int) =~= ids@);
    out
}

/// The life that each opponent of a player lost this turn.
pub open spec fn opponent_losses(game: GameState, ids: Seq<PlayerId>, you: PlayerId) -> Seq<i32>
    decreases ids.len(),
{
    if ids.len() == 0 {
        Seq::empty()
    } else {
        let before = opponent_losses(game, ids.drop_last(), you);
        match game.player_at(ids.last()) {
            Some(p) if game.are_opponents(you, ids.last()) => before.push(p.life_lost_this_turn),
            _ => before,
        }
    }
}

pub fn list_opponent_losses(game: &GameState, ids: &Vec<PlayerId>, you: PlayerId) -> (r: Vec<i32>)
    ensures
        r@ == opponent_losses(*game, ids@, you),
{
    let mut out: Vec<i32> = Vec::new();
    let mut i: usize = 0;
    while i < ids.len()
        invariant
            i <= ids@.len(),
            out@ == opponent_losses(*game, ids@.take(i as int), you),
        decreases ids@.len() - i,
    {
        assert(ids@.take(i + 1).drop_last() =~= ids@.take(i as int));
        if let Some(p) = game.player(ids[i]) {
            if game.is_opponent_of(you, ids[i]) {
                out.push(p.life_lost_this_turn);
            }
        }
        i = i + 1;
    }
    assert(ids@.take(i as int) =~= ids@);
    out
}

/// How many mana symbols of a cost meet a mask.
pub open spec fn symbols_meeting(shards: Seq<u16>, mask: u16) -> nat
    decreases shards.len(),
{
    if shards.len() == 0 {
        0
    } else {
        symbols_meeting(shards.drop_last(), mask) + if shards.last() & mask != 0 {
            1nat
        } else {
            0nat
        }
    }
}

pub fn count_symbols(shards: &Vec<u16>, mask: u16) -> (r: usize)
    ensures
        r == symbols_meeting(shards@, mask),
        r <= shards@.len(),
{
    let mut n: usize = 0;
    let mut i: usize = 0;
    while i < shards.len()
        invariant
            i <= shards@.len(),
            n <= i,
            n == symbols_meeting(shards@.take(i as int), mask),
        decreases shards@.len() - i,
    {
        assert(shards@.take(i + 1).drop_last() =~= shards@.take(i as int));
        if shards[i] & mask != 0 {
            n = n + 1;
        }
        i = i + 1;
    }
    assert(shards@.take(i as int) =~= shards@);
    n
}

/// Mana symbols of a colour among the costs of cards.
pub open spec fn devotion(game: GameState, ids: Seq<CardId>, mask: u16) -> i32
    decreases ids.len(),
{
    if ids.len() == 0 {
        0
    } else {
        let before = devotion(game, ids.drop_last(), mask);
        match game.card_at(ids.last()) {
            Some(c) => before.wrapping_add(symbols_meeting(c.cost_shards@, mask) as i32),
            None => before,
        }
    }
}

pub fn count_devotion(game: &GameState, ids: &Vec<CardId>, mask: u16) -> (r: i32)
    ensures
        r == devotion(*game, ids@, mask),
{
    let mut n: i32 = 0;
    let mut i: usize = 0;
    while i < ids.len()
        invariant
            i <= ids@.len(),
            n == devotion(*game, ids@.take(i as int), mask),
        decreases ids@.len() - i,
    {
        assert(ids@.take(i + 1).drop_last() =~= ids@.take(i as int));
        if let Some(c) = game.card(ids[i]) {
            n = n.wrapping_add(count_symbols(&c.cost_shards, mask) as i32);
        }
        i = i + 1;
    }
    assert(ids@.take(i as int) =~= ids@);
    n
}

/// The longest run of equal neighbours, with the run that ends the list.
pub open spec fn runs(rolls: Seq<i32>) -> (int, int)
    decreases rolls.len(),
{
    if rolls.len() == 0 {
        (0, 0)
    } else {
        let (best, last) = runs(rolls.drop_last());
        let n = rolls.len() as int;
        let now = if n > 1 && rolls[n - 2] == rolls[n - 1] { last + 1 } else { 1 };
        (if now > best { now } else { best }, now)
    }
}

proof fn lemma_runs_bound(rolls: Seq<i32>)
    ensures
        0 <= runs(rolls).0 <= rolls.len(),
        0 <= runs(rolls).1 <= rolls.len(),
    decreases rolls.len(),
{
    if rolls.len() > 0 {
        lemma_runs_bound(rolls.drop_last());
    }
}

pub fn longest_run(rolls: &Vec<i32>) -> (r: usize)
    ensures
        r == runs(rolls@).0,
{
    let mut best: usize = 0;
    let mut last: usize = 0;
    let mut i: usize = 0;
    while i < rolls.len()
        invariant
            i <= rolls@.len(),
            best == runs(rolls@.take(i as int)).0,
            last == runs(rolls@.take(i as int)).1,
        decreases rolls@.len() - i,
    {
        proof {
            lemma_runs_bound(rolls@.take(i as int));
            assert(rolls@.take(i + 1).drop_last() =~= rolls@.take(i as int));
        }
        if i > 0 && rolls[i - 1] == rolls[i] {
            last = last + 1;
        } else {
            last = 1;
        }
        if last > best {
            best = last;
        }
        i = i + 1;
    }
    assert(rolls@.take(i as int) =~= rolls@);
    best
}

/// Rooms that are unlocked among the rooms of a list.
pub open spec fn unlocked_doors(game: GameState, ids: Seq<CardId>) -> i32
    decreases ids.len(),
{
    if ids.len() == 0 {
        0
    } else {
        let before = unlocked_doors(game, ids.drop_last());
        match game.card_at(ids.last()) {
            Some(c) if c.types.is_subtype("Room"@) => before.wrapping_add(c.unlocked_rooms),
            _ => before,
        }
    }
}

pub fn count_unlocked_doors(game: &GameState, ids: &Vec<CardId>) -> (r: i32)
    ensures
        r == unlocked_doors(*game, ids@),
{
    let mut n: i32 = 0;
    let mut i: usize = 0;
    while i < ids.len()
        invariant
            i <= ids@.len(),
            n == unlocked_doors(*game, ids@.take(i as int)),
        decreases ids@.len() - i,
    {
        assert(ids@.take(i + 1).drop_last() =~= ids@.take(i as int));
        if let Some(c) = game.card(ids[i]) {
            if c.types.has_subtype("Room") {
                n = n.wrapping_add(c.unlocked_rooms);
            }
        }
        i = i + 1;
    }
    assert(ids@.take(i as int) =~= ids@);
    n
}

/// The combat damage that each player received this turn.
pub open spec fn combat_damages(game: GameState) -> Seq<i32> {
    game.players@.map_values(|p: crate::game::Player| p.combat_damage_received_this_turn)
}

pub fn greatest_combat_damage(game: &GameState) -> (r: i32)
    ensures
        r == greatest(combat_damages(*game), 0),
{
    let mut out: Vec<i32> = Vec::new();
    let mut i: usize = 0;
    while i < game.players.len()
        invariant
            i <= game.players@.len(),
            out@ == combat_damages(*game).take(i as int),
        decreases game.players@.len() - i,
    {
        out.push(game.players[i].combat_damage_received_this_turn);
        i = i + 1;
        assert(out@ =~= combat_damages(*game).take(i as int));
    }
    assert(out@ =~= combat_damages(*game));
    max_or(&out, 0)
}

/// The creature types of cards that are no changelings, as often as they occur.
pub open spec fn type_occurrences(game: GameState, ids: Seq<CardId>) -> Seq<Seq<char>>
    decreases ids.len(),
{
    if ids.len() == 0 {
        Seq::empty()
    } else {
        let before = type_occurrences(game, ids.drop_last());
        match game.card_at(ids.last()) {
            Some(c) if !c.keyword("Changeling"@) => before
                + crate::svar::folds::creature_types_of(game, c.types.subtypes@),
            _ => before,
        }
    }
}

pub open spec fn changelings(game: GameState, ids: Seq<CardId>) -> i32
    decreases ids.len(),
{
    if ids.len() == 0 {
        0
    } else {
        let before = changelings(game, ids.drop_last());
        match game.card_at(ids.last()) {
            Some(c) if c.keyword("Changeling"@) => before.wrapping_add(1),
            _ => before,
        }
    }
}

pub open spec fn occurrences(texts: Seq<Seq<char>>, t: Seq<char>) -> i32
    decreases texts.len(),
{
    if texts.len() == 0 {
        0
    } else {
        let before = occurrences(texts.drop_last(), t);
        if texts.last() == t {
            before.wrapping_add(1)
        } else {
            before
        }
    }
}

/// How often each text of a list occurs in it.
pub open spec fn frequencies(texts: Seq<Seq<char>>) -> Seq<i32> {
    texts.map_values(|t: Seq<char>| occurrences(texts, t))
}

/// How many cards share the most frequent creature type.
pub open spec fn most_prominent_type(game: GameState, ids: Seq<CardId>) -> i32 {
    greatest(frequencies(type_occurrences(game, ids)), 0).wrapping_add(changelings(game, ids))
}

fn count_occurrences(texts: &Vec<String>, t: &str) -> (r: i32)
    ensures
        r == occurrences(string_views(texts@), t@),
{
    let ghost all = string_views(texts@);
    let mut n: i32 = 0;
    let mut i: usize = 0;
    while i < texts.len()
        invariant
            i <= texts@.len(),
            all == string_views(texts@),
            n == occurrences(all.take(i as int), t@),
        decreases texts@.len() - i,
    {
        assert(all.take(i + 1).drop_last() =~= all.take(i as int));
        assert(all.take(i + 1).last() == texts@[i as int]@);
        if text_eq(texts[i].as_str(), t) {
            n = n.wrapping_add(1);
        }
        i = i + 1;
    }
    assert(all.take(i as int) =~= all);
    n
}

pub fn count_most_prominent_type(game: &GameState, ids: &Vec<CardId>) -> (r: i32)
    ensures
        r == most_prominent_type(*game, ids@),
{
    let mut types: Vec<String> = Vec::new();
    let mut wild: i32 = 0;
    let mut i: usize = 0;
    assert(string_views(types@) =~= type_occurrences(*game, ids@.take(0)));
    while i < ids.len()
        invariant
            i <= ids@.len(),
            string_views(types@) == type_occurrences(*game, ids@.take(i as int)),
            wild == changelings(*game, ids@.take(i as int)),
        decreases ids@.len() - i,
    {
        assert(ids@.take(i + 1).drop_last() =~= ids@.take(i as int));
        if let Some(c) = game.card(ids[i]) {
            if c.has_keyword("Changeling") {
                wild = wild.wrapping_add(1);
            } else {
                let subtypes = &c.types.subtypes;
                let ghost shown = string_views(types@);
                let mut j: usize = 0;
                assert(shown =~= shown + crate::svar::folds::creature_types_of(
                    *game,
                    subtypes@.take(0),
                ));
                while j < subtypes.len()
                    invariant
                        j <= subtypes@.len(),
                        string_views(types@) == shown + crate::svar::folds::creature_types_of(
                            *game,
                            subtypes@.take(j as int),
                        ),
                    decreases subtypes@.len() - j,
                {
                    let ghost before = string_views(types@);
                    let ghost so_far = crate::svar::folds::creature_types_of(
                        *game,
                        subtypes@.take(j as int),
                    );
                    assert(subtypes@.take(j + 1).drop_last() =~= subtypes@.take(j as int));
                    if has_text_ignoring_case(&game.facts.creature_types, subtypes[j].as_str()) {
                        types.push(subtypes[j].clone());
                        assert(string_views(types@) =~= before.push(subtypes@[j as int]@));
                        assert(before.push(subtypes@[j as int]@) =~= shown + so_far.push(
                            subtypes@[j as int]@,
                        ));
                    }
                    j = j + 1;
                }
                assert(subtypes@.take(j as int) =~= subtypes@);
            }
        }
        i = i + 1;
    }
    assert(ids@.take(i as int) =~= ids@);
    let ghost all = string_views(types@);
    let mut counts: Vec<i32> = Vec::new();
    let mut k: usize = 0;
    while k < types.len()
        invariant
            k <= types@.len(),
            all == string_views(types@),
            counts@ == frequencies(all).take(k as int),
        decreases types@.len() - k,
    {
        assert(all[k as int] == types@[k as int]@);
        counts.push(count_occurrences(&types, types[k].as_str()));
        k = k + 1;
        assert(counts@ =~= frequencies(all).take(k as int));
    }
    assert(counts@ =~= frequencies(all));
    max_or(&counts, 0).wrapping_add(wild)
}

/// The kinds of which there are counters.
pub open spec fn kinds_of(counters: Seq<Counter>) -> Seq<Seq<char>>
    decreases counters.len(),
{
    if counters.len() == 0 {
        Seq::empty()
    } else {
        let before = kinds_of(counters.drop_last());
        if counters.last().count > 0 {
            before.push(counters.last().kind@)
        } else {
            before
        }
    }
}

/// The kinds of counters on the cards of a list, each once.
pub open spec fn counter_kinds(game: GameState, ids: Seq<CardId>) -> Seq<Seq<char>>
    decreases ids.len(),
{
    if ids.len() == 0 {
        Seq::empty()
    } else {
        let before = counter_kinds(game, ids.drop_last());
        match game.card_at(ids.last()) {
            Some(c) => merged(before, kinds_of(c.counters@)),
            None => before,
        }
    }
}

pub fn count_counter_kinds(game: &GameState, ids: &Vec<CardId>) -> (r: i32)
    ensures
        r == counter_kinds(*game, ids@).len() as i32,
{
    let mut seen: Vec<String> = Vec::new();
    let mut i: usize = 0;
    assert(string_views(seen@) =~= counter_kinds(*game, ids@.take(0)));
    while i < ids.len()
        invariant
            i <= ids@.len(),
            string_views(seen@) == counter_kinds(*game, ids@.take(i as int)),
        decreases ids@.len() - i,
    {
        assert(ids@.take(i + 1).drop_last() =~= ids@.take(i as int));
        if let Some(c) = game.card(ids[i]) {
            let counters = &c.counters;
            let ghost start = string_views(seen@);
            let mut j: usize = 0;
            while j < counters.len()
                invariant
                    j <= counters@.len(),
                    string_views(seen@) == merged(start, kinds_of(counters@.take(j as int))),
                decreases counters@.len() - j,
            {
                let ghost shown = string_views(seen@);
                let ghost so_far = kinds_of(counters@.take(j as int));
                assert(counters@.take(j + 1).drop_last() =~= counters@.take(j as int));
                if counters[j].count > 0 {
                    merge_text(&mut seen, counters[j].kind.as_str());
                    proof {
                        let t = counters@[j as int].kind@;
                        assert(so_far.push(t).drop_last() =~= so_far);
                        assert(seq![t].drop_last() =~= Seq::<Seq<char>>::empty());
                        assert(merged(shown, seq![t].drop_last()) == shown);
                    }
                }
                j = j + 1;
            }
            assert(counters@.take(j as int) =~= counters@);
        }
        i = i + 1;
    }
    assert(ids@.take(i as int) =~= ids@);
    assert(string_views(seen@).len() == seen@.len());
    seen.len() as i32
}

} // verus!
