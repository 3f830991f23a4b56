//! Whether a player could pay a cost: sources are used one after the other on paper, and nothing
//! is tapped.

use vstd::prelude::*;
use indexmap::IndexMap;
use crate::game::{svar_value, Card, GameState};
use crate::mana::ability::{
    ability_used, mana_ability_of, ref_views, CostPart, ManaAbilityRef, RefView,
};
use crate::mana::ai_sources::{
    ai_sources, converge_colors, get_ai_available_mana_sources, get_sources_for_shards,
    lacked_colors, probe_map, probe_refs,
};
use crate::mana::atoms::{
    append_atoms, atoms_as_mana_string, atoms_text, copy_atoms, has_bits, mono_color_shard,
    mono_shard, ManaCostShard, BLACK, SHARD_GENERIC, SHARD_X,
};
use crate::mana::candidates::{
    atom_for, candidates, choose_atom_for_shard, choose_candidate,
    collect_sorted_candidates_with_pref, next_candidate,
};
use crate::mana::cost::{
    after_atoms, cmc_left, count_left, decreased, first_phyrexian, generic_shard, increased, needs,
    only_phyrexian, phyrexian_life, unpaid_of, ManaCost, ManaCostBeingPaid, Unpaid,
};
use crate::mana::cost_parts::PayScene;
use crate::mana::paying::{nothing_paid, Paying};
use crate::mana::pool::{read_mana, spent_from, text_atoms, ManaPool, ManaView};
use crate::mana::probe_choice::{
    auto_pay_base_amount, choose_mana_ability_to_pay, find_repeats, is_generic_or_x,
    law_source_is_listed, placed_amount, repeats_for, same_index, scene_of_probe, source_taken,
    Probe, ProbeScene,
};
use crate::mana::produce::{
    add_taps_for_mana_trigger_mana, read_word_atom, auto_pay_base_atoms, base_atoms, made_entries,
    word_atom, production_params, trigger_mana,
};
use crate::mana::shards::{get_next_shard_to_pay, listed_under, next_shard};
use crate::mana::sources::{
    all_refs, available_sources, find_replaced_mana, group_sources_by_mana_color, replaced_mana,
    ManaPaymentContext,
};
use crate::ordered_map::{
    entries_of, entry_at, lemma_place, list_under, map_len, new_map, place_of, set_list_at,
    values_under,
};
use crate::parsing::params::string_of;
use crate::text::{has_prefix, int_value, parse_i32, pieces, split, strip_prefix, text_eq};
use crate::types::{CardId, PlayerId, ZoneType};

verus! {

// ---- mana with its replacements ----

/// Atoms with each replaced by what comes in its place.
pub open spec fn all_replaced(game: GameState, player: PlayerId, source: CardId, atoms: Seq<u16>) -> Seq<
    u16,
>
    decreases atoms.len(),
{
    if atoms.len() == 0 {
        Seq::empty()
    } else {
        all_replaced(game, player, source, atoms.drop_last()) + replaced_mana(
            game.facts.mana_replacements@,
            source,
            player,
            atoms.last(),
        )
    }
}

fn replace_all(game: &GameState, player: PlayerId, source: CardId, atoms: &Vec<u16>) -> (r: Vec<u16>)
    ensures
        r@ == all_replaced(*game, player, source, atoms@),
{
    let ghost all = atoms@;
    let mut out: Vec<u16> = Vec::new();
    let mut i: usize = 0;
    while i < atoms.len()
        invariant
            i <= all.len(),
            all == atoms@,
            out@ == all_replaced(*game, player, source, all.take(i as int)),
        decreases all.len() - i,
    {
        assert(all.take(i + 1).drop_last() =~= all.take(i as int));
        append_atoms(&mut out, &find_replaced_mana(&game.facts, source, player, atoms[i]));
        i = i + 1;
    }
    assert(all.take(i as int) =~= all);
    out
}

/// Atoms with each of them some times in a row.
pub open spec fn each_repeated(atoms: Seq<u16>, n: nat) -> Seq<u16>
    decreases atoms.len(),
{
    if atoms.len() == 0 {
        Seq::empty()
    } else {
        each_repeated(atoms.drop_last(), n) + Seq::new(n, |i: int| atoms.last())
    }
}

fn repeat_each(atoms: &Vec<u16>, n: usize) -> (r: Vec<u16>)
    ensures
        r@ == each_repeated(atoms@, n as nat),
{
    let ghost all = atoms@;
    let mut out: Vec<u16> = Vec::new();
    let mut i: usize = 0;
    while i < atoms.len()
        invariant
            i <= all.len(),
            all == atoms@,
            out@ == each_repeated(all.take(i as int), n as nat),
        decreases all.len() - i,
    {
        assert(all.take(i + 1).drop_last() =~= all.take(i as int));
        let more = crate::mana::pool::repeat_atom(atoms[i], n);
        assert(more@ =~= Seq::new(n as nat, |k: int| all[i as int]));
        append_atoms(&mut out, &more);
        i = i + 1;
    }
    assert(all.take(i as int) =~= all);
    out
}

/// A fixed output some times over, with what comes in place of each atom.
pub fn replacement_adjusted_atoms_for_payment(
    game: &GameState,
    player: PlayerId,
    source: CardId,
    atoms: &Vec<u16>,
    repeats: usize,
) -> (r: Vec<u16>)
    ensures
        r@ == all_replaced(*game, player, source, each_repeated(atoms@, repeats as nat)),
{
    replace_all(game, player, source, &repeat_each(atoms, repeats))
}

/// The mana that a source makes, with what replaces it and what triggers add.
pub open spec fn predicted(
    game: GameState,
    player: PlayerId,
    m: RefView,
    generated: Seq<u16>,
    shard: ManaCostShard,
) -> Seq<u16> {
    let adjusted = all_replaced(game, player, m.card_id, generated);
    let made = if adjusted.len() == 0 {
        generated
    } else {
        adjusted
    };
    if made.len() == 0 {
        made
    } else {
        made + trigger_mana(game, player, m, atoms_text(made), false, shard, Seq::empty()).1
    }
}

pub fn predict_mana(
    game: &GameState,
    player: PlayerId,
    m: &ManaAbilityRef,
    generated: &Vec<u16>,
    shard: ManaCostShard,
) -> (r: Vec<u16>)
    ensures
        r@ == predicted(*game, player, m@, generated@, shard),
{
    let adjusted = replace_all(game, player, m.card_id, generated);
    let mut made = if adjusted.len() == 0 {
        copy_atoms(generated)
    } else {
        adjusted
    };
    if made.len() == 0 {
        return made;
    }
    let mut pool = ManaPool::new();
    let none: Vec<u16> = Vec::new();
    assert(none@ =~= Seq::<u16>::empty());
    let text = atoms_as_mana_string(&made);
    let more = add_taps_for_mana_trigger_mana(
        game,
        &mut pool,
        player,
        m,
        text.as_str(),
        false,
        shard,
        &none,
    );
    append_atoms(&mut made, &more);
    made
}

// ---- rules of single cards ----

/// A cost with the colors that its spell should be paid with to do no harm.
pub open spec fn harmless_cost(u: Unpaid, parts: Seq<Seq<char>>) -> Unpaid
    decreases parts.len(),
{
    if parts.len() == 0 {
        u
    } else {
        let before = harmless_cost(u, parts.drop_last());
        let part = parts.last();
        let color = word_atom(part);
        if part.len() == 0 || needs(before.left, color) || count_left(before.left, generic_shard())
            <= 0 {
            before
        } else {
            Unpaid {
                left: decreased(
                    increased(before.left, mono_shard(color), 1),
                    generic_shard(),
                    1,
                ),
                ..before
            }
        }
    }
}

pub open spec fn adjusted_cost(u: Unpaid, spell: Card) -> Unpaid {
    match svar_value(spell.svars@, "ManaNeededToAvoidNegativeEffect"@) {
        Some(text) => harmless_cost(u, pieces(text, ","@)),
        None => u,
    }
}

pub fn adjust_mana_cost_to_avoid_neg_effects(unpaid: &mut ManaCostBeingPaid, spell: &Card)
    ensures
        final(unpaid)@ == adjusted_cost(old(unpaid)@, *spell),
{
    let ghost start = unpaid@;
    if let Some(text) = spell.get_s_var("ManaNeededToAvoidNegativeEffect") {
        proof {
            reveal_strlit(",");
        }
        let parts = split(text, ",");
        let ghost all = crate::text::views(parts@);
        let mut i: usize = 0;
        while i < parts.len()
            invariant
                i <= parts@.len(),
                all == crate::text::views(parts@),
                unpaid@ == harmless_cost(start, all.take(i as int)),
            decreases parts@.len() - i,
        {
            assert(all.take(i + 1).drop_last() =~= all.take(i as int));
            assert(all[i as int] == parts@[i as int]@);
            let part = parts[i];
            let color: u16 = read_word_atom(part);
            if part.unicode_len() > 0 && !unpaid.needs_color(color)
                && unpaid.get_generic_mana_amount() > 0 {
                unpaid.increase_shard(mono_color_shard(color), 1);
                unpaid.decrease_shard(ManaCostShard { mask: SHARD_GENERIC }, 1);
            }
            i = i + 1;
        }
        assert(all.take(i as int) =~= all);
    }
}

/// How many cards a player brought have a mana value in a range.
pub open spec fn owned_between(cards: Seq<Card>, player: PlayerId, low: int, high: int) -> nat
    decreases cards.len(),
{
    if cards.len() == 0 {
        0
    } else {
        owned_between(cards.drop_last(), player, low, high) + (if is_owned_spell(
            cards.last(),
            player,
        ) && low <= cards.last().cmc <= high {
            1nat
        } else {
            0
        })
    }
}

pub open spec fn is_owned_spell(c: Card, player: PlayerId) -> bool {
    c.owner == player && c.zone != ZoneType::Nowhere && !c.is_token && !c.types.land
}

fn count_owned_between(cards: &Vec<Card>, player: PlayerId, low: i32, high: i32) -> (r: usize)
    ensures
        r == owned_between(cards@, player, low as int, high as int),
{
    let ghost all = cards@;
    let mut n: usize = 0;
    let mut i: usize = 0;
    while i < cards.len()
        invariant
            i <= all.len(),
            all == cards@,
            n <= i,
            n == owned_between(all.take(i as int), player, low as int, high as int),
        decreases all.len() - i,
    {
        assert(all.take(i + 1).drop_last() =~= all.take(i as int));
        let c = &cards[i];
        if c.owner == player && c.zone != ZoneType::Nowhere && !c.is_token && !c.types.land && low
            <= c.cmc && c.cmc <= high {
            n = n + 1;
        }
        i = i + 1;
    }
    assert(all.take(i as int) =~= all);
    n
}

/// Whether what is left of a cost is worth a source that is used up.
pub open spec fn worth_a_lotus(game: GameState, player: PlayerId, u: Unpaid) -> bool {
    let high = owned_between(game.cards@, player, 5, i32::MAX as int);
    let low = owned_between(game.cards@, player, i32::MIN as int, 3);
    let least = if high <= 6 && low >= 25 {
        3int
    } else {
        4
    };
    let left = cmc_left(u.left);
    left >= least || (left == 3 && ai_sources(game, player).len() < 3)
}

pub fn special_card_ai_black_lotus_consider(
    game: &GameState,
    player: PlayerId,
    unpaid: &ManaCostBeingPaid,
) -> (r: bool)
    ensures
        r == worth_a_lotus(*game, player, unpaid@),
{
    let sources: usize = get_ai_available_mana_sources(game, player).len();
    let high: usize = count_owned_between(&game.cards, player, 5, i32::MAX);
    let low: usize = count_owned_between(&game.cards, player, i32::MIN, 3);
    let least: i32 = if high <= 6 && low >= 25 {
        3
    } else {
        4
    };
    let left: i32 = unpaid.cmc();
    left >= least || (left == 3 && sources < 3)
}

/// Whether a cost asks for the card itself as a sacrifice.
pub open spec fn sacrifices_itself(cost: Seq<CostPart>) -> bool {
    exists|i: int|
        0 <= i < cost.len() && ((#[trigger] cost[i]) matches CostPart::Sacrifice {
            type_filter,
            ..
        } && (type_filter@ == "CARDNAME"@ || type_filter@ == "NICKNAME"@))
}

fn check_sacrifices_itself(cost: &Vec<CostPart>) -> (r: bool)
    ensures
        r == sacrifices_itself(cost@),
{
    let mut i: usize = 0;
    while i < cost.len()
        invariant
            i <= cost@.len(),
            forall|k: int|
                0 <= k < i ==> !((#[trigger] cost@[k]) matches CostPart::Sacrifice {
                    type_filter,
                    ..
                } && (type_filter@ == "CARDNAME"@ || type_filter@ == "NICKNAME"@)),
        decreases cost@.len() - i,
    {
        if let CostPart::Sacrifice { type_filter, .. } = &cost[i] {
            if text_eq(type_filter.as_str(), "CARDNAME") || text_eq(
                type_filter.as_str(),
                "NICKNAME",
            ) {
                assert(cost@[i as int] matches CostPart::Sacrifice { type_filter, .. } && (
                type_filter@ == "CARDNAME"@ || type_filter@ == "NICKNAME"@));
                return true;
            }
        }
        i = i + 1;
    }
    false
}

/// Whether a probe passes over an ability.
pub open spec fn passed_over(p: Probe, targeted: Seq<CardId>, u: Unpaid, m: RefView) -> bool {
    match ability_used(p.game, m.card_id, m.ability_index) {
        Some(ab) => (targeted.contains(m.card_id) && sacrifices_itself(ab.cost@)) || (string_of(
            ab.ai_logic,
        ) == Some("BlackLotus"@) && !worth_a_lotus(p.game, p.player, u)),
        None => false,
    }
}

fn check_passed_over(
    p: &ProbeScene<'_>,
    targeted: &Vec<CardId>,
    unpaid: &ManaCostBeingPaid,
    m: &ManaAbilityRef,
) -> (r: bool)
    ensures
        r == passed_over(p@, targeted@, unpaid@, m@),
{
    match mana_ability_of(p.game, m.card_id, m.ability_index) {
        Some(ab) => {
            let lotus = match &ab.ai_logic {
                Some(t) => text_eq(t.as_str(), "BlackLotus"),
                None => false,
            };
            (crate::lists::has_card(targeted, m.card_id) && check_sacrifices_itself(&ab.cost)) || (
            lotus && !special_card_ai_black_lotus_consider(p.game, p.player, unpaid))
        },
        None => false,
    }
}

/// The energy that a cost takes.
pub open spec fn energy_in(cost: Seq<CostPart>) -> i32
    decreases cost.len(),
{
    if cost.len() == 0 {
        0
    } else {
        match cost.last() {
            CostPart::PayEnergy(n) => energy_in(cost.drop_last()).wrapping_add(n),
            _ => energy_in(cost.drop_last()),
        }
    }
}

fn add_energy(cost: &Vec<CostPart>) -> (r: i32)
    ensures
        r == energy_in(cost@),
{
    let ghost all = cost@;
    let mut n: i32 = 0;
    let mut i: usize = 0;
    while i < cost.len()
        invariant
            i <= all.len(),
            all == cost@,
            n == energy_in(all.take(i as int)),
        decreases all.len() - i,
    {
        assert(all.take(i + 1).drop_last() =~= all.take(i as int));
        if let CostPart::PayEnergy(k) = &cost[i] {
            n = n.wrapping_add(*k);
        }
        i = i + 1;
    }
    assert(all.take(i as int) =~= all);
    n
}

pub open spec fn energy_for(game: GameState, m: RefView) -> i32 {
    match ability_used(game, m.card_id, m.ability_index) {
        Some(ab) => energy_in(ab.cost@),
        None => 0,
    }
}

fn find_energy_for(game: &GameState, m: &ManaAbilityRef) -> (r: i32)
    ensures
        r == energy_for(*game, m@),
{
    match mana_ability_of(game, m.card_id, m.ability_index) {
        Some(ab) => add_energy(&ab.cost),
        None => 0,
    }
}

// ---- sources that are used up ----

/// What leaves the lists: all ways of a card, or one ability of it.
pub open spec fn leaves(refs: Seq<RefView>, i: usize, gone: RefView, whole_card: bool) -> bool {
    i < refs.len() && refs[i as int].card_id == gone.card_id && (whole_card
        || refs[i as int].ability_index == gone.ability_index)
}

pub open spec fn list_without(
    refs: Seq<RefView>,
    list: Seq<usize>,
    gone: RefView,
    whole_card: bool,
) -> Seq<usize>
    decreases list.len(),
{
    if list.len() == 0 {
        Seq::empty()
    } else {
        let before = list_without(refs, list.drop_last(), gone, whole_card);
        if leaves(refs, list.last(), gone, whole_card) {
            before
        } else {
            before.push(list.last())
        }
    }
}

pub open spec fn map_without(
    refs: Seq<RefView>,
    map: Seq<(i32, Seq<usize>)>,
    gone: RefView,
    whole_card: bool,
) -> Seq<(i32, Seq<usize>)> {
    Seq::new(
        map.len(),
        |i: int| (map[i].0, list_without(refs, map[i].1, gone, whole_card)),
    )
}

fn drop_from_list(
    refs: &Vec<ManaAbilityRef>,
    list: &Vec<usize>,
    gone: &ManaAbilityRef,
    whole_card: bool,
) -> (r: Vec<usize>)
    ensures
        r@ == list_without(ref_views(refs@), list@, gone@, whole_card),
{
    let ghost all = list@;
    let mut out: Vec<usize> = Vec::new();
    let mut i: usize = 0;
    while i < list.len()
        invariant
            i <= all.len(),
            all == list@,
            out@ == list_without(ref_views(refs@), all.take(i as int), gone@, whole_card),
        decreases all.len() - i,
    {
        assert(all.take(i + 1).drop_last() =~= all.take(i as int));
        let k: usize = list[i];
        let goes = if k < refs.len() {
            assert(ref_views(refs@)[k as int] == refs@[k as int]@);
            refs[k].card_id == gone.card_id && (whole_card || same_index(
                refs[k].ability_index,
                gone.ability_index,
            ))
        } else {
            false
        };
        if !goes {
            out.push(k);
        }
        i = i + 1;
    }
    assert(all.take(i as int) =~= all);
    out
}

fn drop_from_map(
    refs: &Vec<ManaAbilityRef>,
    map: &mut IndexMap<i32, Vec<usize>>,
    gone: &ManaAbilityRef,
    whole_card: bool,
)
    ensures
        entries_of(*final(map)) == map_without(
            ref_views(refs@),
            entries_of(*old(map)),
            gone@,
            whole_card,
        ),
{
    let ghost start = entries_of(*map);
    let n: usize = map_len(map);
    let mut i: usize = 0;
    while i < n
        invariant
            i <= n,
            n == start.len(),
            entries_of(*map).len() == n,
            forall|k: int|
                0 <= k < i ==> #[trigger] entries_of(*map)[k] == map_without(
                    ref_views(refs@),
                    start,
                    gone@,
                    whole_card,
                )[k],
            forall|k: int| i <= k < n ==> #[trigger] entries_of(*map)[k] == start[k],
        decreases n - i,
    {
        let list = drop_from_list(refs, entry_at(map, i).1, gone, whole_card);
        set_list_at(map, i, list);
        i = i + 1;
    }
    assert(entries_of(*map) =~= map_without(ref_views(refs@), start, gone@, whole_card));
}

/// How many places all lists have together.
pub open spec fn places(map: Seq<(i32, Seq<usize>)>) -> nat
    decreases map.len(),
{
    if map.len() == 0 {
        0
    } else {
        places(map.drop_last()) + map.last().1.len()
    }
}

proof fn lemma_list_without(refs: Seq<RefView>, list: Seq<usize>, gone: RefView, whole_card: bool)
    ensures
        list_without(refs, list, gone, whole_card).len() <= list.len(),
        (exists|i: int| 0 <= i < list.len() && leaves(refs, #[trigger] list[i], gone, whole_card))
            ==> list_without(refs, list, gone, whole_card).len() < list.len(),
    decreases list.len(),
{
    if list.len() > 0 {
        let before = list.drop_last();
        lemma_list_without(refs, before, gone, whole_card);
        if exists|i: int| 0 <= i < list.len() && leaves(refs, #[trigger] list[i], gone, whole_card) {
            let i = choose|i: int|
                0 <= i < list.len() && leaves(refs, #[trigger] list[i], gone, whole_card);
            if i < list.len() - 1 {
                assert(before[i] == list[i]);
            }
        }
    }
}

proof fn lemma_map_without(
    refs: Seq<RefView>,
    map: Seq<(i32, Seq<usize>)>,
    gone: RefView,
    whole_card: bool,
)
    ensures
        places(map_without(refs, map, gone, whole_card)) <= places(map),
        (exists|i: int|
            0 <= i < map.len() && list_without(refs, (#[trigger] map[i]).1, gone, whole_card).len()
                < map[i].1.len()) ==> places(map_without(refs, map, gone, whole_card)) < places(
            map,
        ),
    decreases map.len(),
{
    if map.len() > 0 {
        let before = map.drop_last();
        let r = map_without(refs, map, gone, whole_card);
        lemma_map_without(refs, before, gone, whole_card);
        lemma_list_without(refs, map.last().1, gone, whole_card);
        assert(r.drop_last() =~= map_without(refs, before, gone, whole_card));
        if exists|i: int|
            0 <= i < map.len() && list_without(refs, (#[trigger] map[i]).1, gone, whole_card).len()
                < map[i].1.len() {
            let i = choose|i: int|
                0 <= i < map.len() && list_without(
                    refs,
                    (#[trigger] map[i]).1,
                    gone,
                    whole_card,
                ).len() < map[i].1.len();
            if i < map.len() - 1 {
                assert(before[i] == map[i]);
            }
        }
    }
}

/// Each time a source is used or passed over, fewer places are left.
pub proof fn law_sources_run_out(
    refs: Seq<RefView>,
    map: Seq<(i32, Seq<usize>)>,
    key: i32,
    k: usize,
    whole_card: bool,
)
    requires
        k < refs.len(),
        listed_under(map, key).contains(k),
    ensures
        places(map_without(refs, map, refs[k as int], whole_card)) < places(map),
{
    let gone = refs[k as int];
    lemma_place(map, key);
    let list = listed_under(map, key);
    let at = place_of(map, key)->0;
    assert(values_under(map, key) is Some);
    assert(map[at].1 == list);
    let j = choose|j: int| 0 <= j < list.len() && list[j] == k;
    assert(leaves(refs, list[j], gone, whole_card));
    lemma_list_without(refs, list, gone, whole_card);
    lemma_map_without(refs, map, gone, whole_card);
}

// ---- life in place of mana ----

/// Whether a player can pay life.
pub open spec fn can_pay_life(game: GameState, player: PlayerId, n: int) -> bool {
    game.player_at(player) matches Some(p) && !p.cant_pay_life && p.life >= n
}

/// Whether a player who pays life would lose by it.
pub open spec fn dies_by_paying(game: GameState, player: PlayerId, n: int) -> bool {
    game.player_at(player) matches Some(p) && p.life <= n && !p.survives_zero_life
}

/// Whether all other players have more life than a number.
pub open spec fn others_above(game: GameState, order: Seq<PlayerId>, player: PlayerId, n: i32) -> bool {
    forall|i: int|
        0 <= i < order.len() && #[trigger] order[i] != player ==> (game.player_at(
            order[i],
        ) matches Some(p) ==> p.life > n)
}

fn check_others_above(game: &GameState, player: PlayerId, n: i32) -> (r: bool)
    ensures
        r == others_above(*game, game.player_order@, player, n),
{
    let mut i: usize = 0;
    while i < game.player_order.len()
        invariant
            i <= game.player_order@.len(),
            forall|k: int|
                0 <= k < i && #[trigger] game.player_order@[k] != player ==> (game.player_at(
                    game.player_order@[k],
                ) matches Some(p) ==> p.life > n),
        decreases game.player_order@.len() - i,
    {
        if game.player_order[i] != player {
            if let Some(p) = game.player(game.player_order[i]) {
                if p.life <= n {
                    assert(game.player_order@[i as int] != player);
                    return false;
                }
            }
        }
        i = i + 1;
    }
    true
}

/// Whether a spell forbids to pay life for it now.
pub open spec fn policy_forbids(game: GameState, player: PlayerId, policy: Option<Seq<char>>) -> bool {
    match policy {
        Some(t) => t == "Never"@ || (has_prefix(t, "OnFatalDamage."@) && (match int_value(
            t.skip("OnFatalDamage."@.len() as int),
        ) {
            Some(n) => others_above(game, game.player_order@, player, n as i32),
            None => false,
        })),
        None => false,
    }
}

fn check_policy(game: &GameState, player: PlayerId, policy: &Option<String>) -> (r: bool)
    ensures
        r == policy_forbids(*game, player, string_of(*policy)),
{
    match policy {
        Some(t) => {
            if text_eq(t.as_str(), "Never") {
                return true;
            }
            match strip_prefix(t.as_str(), "OnFatalDamage.") {
                Some(rest) => match parse_i32(rest) {
                    Some(n) => check_others_above(game, player, n),
                    None => false,
                },
                None => false,
            }
        },
        None => false,
    }
}

pub open spec fn pays_life_for_black(game: GameState, player: PlayerId, shard: ManaCostShard) -> bool {
    has_bits(shard.colors(), BLACK) && (game.player_at(player) matches Some(p)
        && crate::lists::texts_have(p.keywords@, "PayLifeInsteadOf:B"@))
}

fn check_life_for_black(game: &GameState, player: PlayerId, shard: ManaCostShard) -> (r: bool)
    ensures
        r == pays_life_for_black(*game, player, shard),
{
    shard.color_mask() & BLACK != 0 && (match game.player(player) {
        Some(p) => crate::lists::has_text(&p.keywords, "PayLifeInsteadOf:B"),
        None => false,
    })
}

/// What is left of a cost once life paid for a symbol, where that can be done.
pub open spec fn after_life(p: Probe, spell: Card, u: Unpaid, shard: ManaCostShard, life: int) -> Option<
    Unpaid,
> {
    if !shard.phyrexian() && !pays_life_for_black(p.game, p.player, shard) {
        None
    } else if !can_pay_life(p.game, p.player, life) || dies_by_paying(p.game, p.player, life) {
        None
    } else if policy_forbids(p.game, p.player, string_of(spell.ai_phyrexian_payment)) {
        None
    } else if shard.phyrexian() {
        match first_phyrexian(u.left) {
            Some(s) => Some(Unpaid { left: decreased(u.left, s, 1), ..u }),
            None => Some(u),
        }
    } else {
        Some(Unpaid { left: decreased(u.left, mono_shard(BLACK), 1), ..u })
    }
}

fn pay_life_for(
    p: &ProbeScene<'_>,
    spell: &Card,
    unpaid: &mut ManaCostBeingPaid,
    shard: ManaCostShard,
    life: i64,
) -> (r: bool)
    ensures
        match after_life(p@, *spell, old(unpaid)@, shard, life as int) {
            Some(u) => r && final(unpaid)@ == u,
            None => !r && final(unpaid)@ == old(unpaid)@,
        },
{
    let black = check_life_for_black(p.game, p.player, shard);
    if !shard.is_phyrexian() && !black {
        return false;
    }
    match p.game.player(p.player) {
        Some(q) => {
            if q.cant_pay_life || (q.life as i64) < life || (q.life as i64 <= life
                && !q.survives_zero_life) {
                return false;
            }
        },
        None => {
            return false;
        },
    }
    if check_policy(p.game, p.player, &spell.ai_phyrexian_payment) {
        return false;
    }
    if shard.is_phyrexian() {
        unpaid.pay_phyrexian();
    } else {
        unpaid.decrease_shard(ManaCostShard { mask: BLACK }, 1);
    }
    true
}

// ---- the probe ----

/// How far a probe has come.
pub ghost struct ProbeState {
    pub unpaid: Unpaid,
    pub pool: Seq<ManaView>,
    pub map: Seq<(i32, Seq<usize>)>,
    pub life: int,
    pub energy: int,
    pub converge: bool,
}

/// The first lacked color that a source is listed for.
pub open spec fn first_lacked(map: Seq<(i32, Seq<usize>)>, colors: Seq<u16>) -> Option<ManaCostShard>
    decreases colors.len(),
{
    if colors.len() == 0 {
        None
    } else if listed_under(map, mono_shard(colors[0]).mask as i32).len() > 0 {
        Some(mono_shard(colors[0]))
    } else {
        first_lacked(map, colors.skip(1))
    }
}

fn find_first_lacked(map: &IndexMap<i32, Vec<usize>>, colors: &Vec<u16>) -> (r: Option<
    ManaCostShard,
>)
    ensures
        r == first_lacked(entries_of(*map), colors@),
{
    let mut i: usize = 0;
    assert(colors@.skip(0) =~= colors@);
    while i < colors.len()
        invariant
            i <= colors@.len(),
            first_lacked(entries_of(*map), colors@) == first_lacked(
                entries_of(*map),
                colors@.skip(i as int),
            ),
        decreases colors@.len() - i,
    {
        assert(colors@.skip(i as int).skip(1) =~= colors@.skip(i + 1));
        let shard = mono_color_shard(colors[i]);
        if let Some(list) = list_under(map, shard.mask as i32) {
            if list.len() > 0 {
                return Some(shard);
            }
        }
        i = i + 1;
    }
    None
}

/// The symbol that is paid next, and whether the colors still count.
pub open spec fn symbol_paid(
    u: Unpaid,
    map: Seq<(i32, Seq<usize>)>,
    converge: bool,
    shard: ManaCostShard,
) -> (ManaCostShard, bool) {
    if converge && is_generic_or_x(shard) {
        match first_lacked(map, lacked_colors(u)) {
            Some(s) => (s, true),
            None => (shard, false),
        }
    } else {
        (shard, converge)
    }
}

/// A probe after one more symbol, or nothing where it ends.
pub open spec fn probe_step(
    p: Probe,
    spell: Card,
    refs: Seq<RefView>,
    targeted: Seq<CardId>,
    blocked: bool,
    s: ProbeState,
) -> Option<ProbeState> {
    let u = s.unpaid;
    match next_shard(u.left, s.map) {
        Some(next) if u.left.len() > 0 && !blocked => {
            let (shard, converge) = symbol_paid(u, s.map, s.converge, next);
            let list = listed_under(s.map, shard.mask as i32);
            match source_taken(p, u, shard, refs, list) {
                None => match after_life(p, spell, u, shard, s.life) {
                    Some(left) => Some(
                        ProbeState { unpaid: left, life: s.life + 2, converge, ..s },
                    ),
                    None => None,
                },
                Some((k, generated)) => {
                    let m = refs[k as int];
                    let energy = energy_for(p.game, m);
                    if passed_over(p, targeted, u, m) {
                        Some(
                            ProbeState { map: map_without(refs, s.map, m, false), converge, ..s },
                        )
                    } else if energy > 0 && s.energy < energy {
                        None
                    } else {
                        Some(
                            ProbeState {
                                unpaid: after_atoms(
                                    u,
                                    predicted(p.game, p.player, m, generated, shard),
                                ),
                                map: map_without(refs, s.map, m, true),
                                energy: if energy > 0 {
                                    s.energy - energy
                                } else {
                                    s.energy
                                },
                                converge,
                                ..s
                            },
                        )
                    }
                },
            }
        },
        _ => None,
    }
}

/// A probe once the pool has paid what it can.
pub open spec fn after_pool(p: Probe, s: ProbeState) -> ProbeState {
    let (u, rest, _) = spent_from(s.unpaid, s.pool, Some(p.ctx), false, Seq::empty(), 0);
    ProbeState { unpaid: u, pool: rest, ..s }
}

/// The most life that can be at stake.
pub open spec fn life_room(life: int) -> int {
    if life <= i32::MAX {
        i32::MAX + 1 - life
    } else {
        0
    }
}

/// What is left of the cost when a probe ends.
pub open spec fn probe_end(
    p: Probe,
    spell: Card,
    refs: Seq<RefView>,
    targeted: Seq<CardId>,
    blocked: bool,
    s: ProbeState,
) -> Unpaid
    decreases places(s.map), life_room(s.life),
{
    let paid = after_pool(p, s);
    match probe_step(p, spell, refs, targeted, blocked, paid) {
        Some(next) => {
            proof {
                lemma_probe_goes_on(p, spell, refs, targeted, blocked, paid);
            }
            probe_end(p, spell, refs, targeted, blocked, next)
        },
        None => paid.unpaid,
    }
}

pub proof fn lemma_probe_goes_on(
    p: Probe,
    spell: Card,
    refs: Seq<RefView>,
    targeted: Seq<CardId>,
    blocked: bool,
    s: ProbeState,
)
    ensures
        probe_step(p, spell, refs, targeted, blocked, s) matches Some(next) ==> places(next.map)
            < places(s.map) || (next.map == s.map && 0 <= life_room(next.life) < life_room(s.life)),
{
    let u = s.unpaid;
    if let Some(next) = next_shard(u.left, s.map) {
        let (shard, converge) = symbol_paid(u, s.map, s.converge, next);
        let key = shard.mask as i32;
        let list = listed_under(s.map, key);
        law_source_is_listed(p, u, shard, refs, list);
        if let Some((k, _)) = source_taken(p, u, shard, refs, list) {
            law_sources_run_out(refs, s.map, key, k, false);
            law_sources_run_out(refs, s.map, key, k, true);
        }
    }
}

/// The cost of a spell before any source is used.
pub open spec fn probe_cost(p: Probe, spell: Card, generic: i32, shards: Seq<ManaCostShard>) -> Unpaid {
    adjusted_cost(unpaid_of(generic, shards), spell)
}

/// Whether a player could pay a cost.
pub open spec fn is_payable(
    p: Probe,
    generic: i32,
    shards: Seq<ManaCostShard>,
    pool: Seq<ManaView>,
    targeted: Seq<CardId>,
) -> bool {
    match p.game.card_at(p.spell) {
        Some(spell) => {
            let (u, rest, _) = spent_from(
                probe_cost(p, spell, generic, shards),
                pool,
                Some(p.ctx),
                false,
                Seq::empty(),
                0,
            );
            let refs = probe_refs(p.game, p.player);
            let some = refs.len() > 0;
            u.left.len() == 0 || probe_end(
                p,
                spell,
                refs,
                targeted,
                !some && !only_phyrexian(u.left),
                ProbeState {
                    unpaid: u,
                    pool: rest,
                    map: if some {
                        probe_map(p.game, p.player, p.spell, u, spell.has_converge)
                    } else {
                        Seq::empty()
                    },
                    life: 2,
                    energy: match p.game.player_at(p.player) {
                        Some(q) => q.energy_counters as int,
                        None => 0,
                    },
                    converge: spell.has_converge,
                },
            ).left.len() == 0
        },
        None => false,
    }
}

/// A probe that is under way.
pub struct ProbeRun {
    pub unpaid: ManaCostBeingPaid,
    pub pool: ManaPool,
    pub map: IndexMap<i32, Vec<usize>>,
    pub life: i64,
    pub energy: i64,
    pub converge: bool,
}

impl View for ProbeRun {
    type V = ProbeState;

    open spec fn view(&self) -> ProbeState {
        ProbeState {
            unpaid: self.unpaid@,
            pool: self.pool@,
            map: entries_of(self.map),
            life: self.life as int,
            energy: self.energy as int,
            converge: self.converge,
        }
    }
}

fn places_under(map: &IndexMap<i32, Vec<usize>>, key: i32) -> (r: Vec<usize>)
    ensures
        r@ == listed_under(entries_of(*map), key),
{
    let mut out: Vec<usize> = Vec::new();
    if let Some(list) = list_under(map, key) {
        let mut i: usize = 0;
        while i < list.len()
            invariant
                i <= list@.len(),
                out@ == list@.take(i as int),
            decreases list@.len() - i,
        {
            assert(list@.take(i + 1) =~= list@.take(i as int).push(list@[i as int]));
            out.push(list[i]);
            i = i + 1;
        }
        assert(list@.take(i as int) =~= list@);
    }
    assert(out@ =~= listed_under(entries_of(*map), key));
    out
}

impl ProbeRun {
    fn pay_from_pool(&mut self, p: &ProbeScene<'_>)
        ensures
            final(self)@ == after_pool(p@, old(self)@),
    {
        let none: Vec<usize> = Vec::new();
        assert(none@ =~= Seq::<usize>::empty());
        let mut spent = ManaPool::new();
        self.pool.pay_mana_cost_from_pool(&mut self.unpaid, Some(p.ctx), false, &none, &mut spent);
    }

    /// Pays for one more symbol; says whether the probe goes on.
    fn step(
        &mut self,
        p: &ProbeScene<'_>,
        spell: &Card,
        refs: &Vec<ManaAbilityRef>,
        targeted: &Vec<CardId>,
        blocked: bool,
    ) -> (r: bool)
        requires
            0 <= old(self).life <= i32::MAX + 2,
            i32::MIN <= old(self).energy <= i32::MAX,
        ensures
            match probe_step(p@, *spell, ref_views(refs@), targeted@, blocked, old(self)@) {
                Some(next) => r && final(self)@ == next,
                None => !r && final(self).unpaid@ == old(self).unpaid@,
            },
            0 <= final(self).life <= i32::MAX + 2,
            i32::MIN <= final(self).energy <= i32::MAX,
    {
        let ghost start = self@;
        if self.unpaid.is_paid() || blocked {
            return false;
        }
        let next = match get_next_shard_to_pay(&self.unpaid, &self.map) {
            Some(s) => s,
            None => {
                return false;
            },
        };
        let mut shard = next;
        let mut converge = self.converge;
        if converge && (next.mask == SHARD_GENERIC || next.mask == SHARD_X) {
            let lacked = converge_colors(&self.unpaid);
            match find_first_lacked(&self.map, &lacked) {
                Some(s) => {
                    shard = s;
                },
                None => {
                    converge = false;
                },
            }
        }
        assert((shard, converge) == symbol_paid(start.unpaid, start.map, start.converge, next));
        let list = places_under(&self.map, shard.mask as i32);
        match choose_mana_ability_to_pay(p, &self.unpaid, shard, refs, &list) {
            None => {
                if !pay_life_for(p, spell, &mut self.unpaid, shard, self.life) {
                    return false;
                }
                self.life = self.life + 2;
                self.converge = converge;
                true
            },
            Some((k, generated)) => {
                let m = &refs[k];
                assert(ref_views(refs@)[k as int] == m@);
                if check_passed_over(p, targeted, &self.unpaid, m) {
                    drop_from_map(refs, &mut self.map, m, false);
                    self.converge = converge;
                    return true;
                }
                let energy: i32 = find_energy_for(p.game, m);
                if energy > 0 && self.energy < energy as i64 {
                    return false;
                }
                if energy > 0 {
                    self.energy = self.energy - energy as i64;
                }
                let mana = predict_mana(p.game, p.player, m, &generated, shard);
                self.unpaid.pay_atoms(&mana);
                drop_from_map(refs, &mut self.map, m, true);
                self.converge = converge;
                true
            },
        }
    }
}

/// Whether a player could pay a cost, by the sources that are left and by life.
pub fn can_pay_mana_cost(
    game: &GameState,
    pool: &ManaPool,
    player: PlayerId,
    current_spell: CardId,
    cost: &ManaCost,
    payment_ctx: &ManaPaymentContext,
    targeted: &Vec<CardId>,
) -> (r: bool)
    ensures
        r == is_payable(
            (Probe { game: *game, player, spell: current_spell, ctx: *payment_ctx }),
            cost.generic,
            cost.shards@,
            pool@,
            targeted@,
        ),
{
    let p = ProbeScene { game, player, spell: current_spell, ctx: payment_ctx };
    let ghost probe = p@;
    let spell = match game.card(current_spell) {
        Some(c) => c,
        None => {
            return false;
        },
    };
    let mut unpaid = ManaCostBeingPaid::from_mana_cost(cost);
    adjust_mana_cost_to_avoid_neg_effects(&mut unpaid, spell);
    let mut left_in_pool = pool.copy();
    let none: Vec<usize> = Vec::new();
    assert(none@ =~= Seq::<usize>::empty());
    let mut spent = ManaPool::new();
    left_in_pool.pay_mana_cost_from_pool(
        &mut unpaid,
        Some(payment_ctx),
        false,
        &none,
        &mut spent,
    );
    if unpaid.is_paid() {
        return true;
    }
    let pure_phyrexian = unpaid.contains_only_phyrexian_mana();
    let (refs, map, some) = match get_sources_for_shards(
        game,
        player,
        current_spell,
        &unpaid,
        spell.has_converge,
    ) {
        Some((refs, map)) => (refs, map, true),
        None => (Vec::new(), new_map(), false),
    };
    let ghost views = ref_views(refs@);
    assert(views =~= probe_refs(*game, player));
    let blocked = !some && !pure_phyrexian;
    let energy: i32 = match game.player(player) {
        Some(q) => q.energy_counters,
        None => 0,
    };
    let mut run = ProbeRun {
        unpaid,
        pool: left_in_pool,
        map,
        life: 2,
        energy: energy as i64,
        converge: spell.has_converge,
    };
    let ghost start = run@;
    let mut go = true;
    while go
        invariant
            0 <= run.life <= i32::MAX + 2,
            i32::MIN <= run.energy <= i32::MAX,
            views == ref_views(refs@),
            go ==> probe_end(p@, *spell, views, targeted@, blocked, start) == probe_end(
                p@,
                *spell,
                views,
                targeted@,
                blocked,
                run@,
            ),
            !go ==> probe_end(p@, *spell, views, targeted@, blocked, start) == run.unpaid@,
        decreases
                (if go {
                    1int
                } else {
                    0int
                }),
                places(run@.map),
                life_room(run@.life),
    {
        let ghost before = run@;
        run.pay_from_pool(&p);
        proof {
            lemma_probe_goes_on(p@, *spell, views, targeted@, blocked, run@);
        }
        go = run.step(&p, spell, &refs, targeted, blocked);
    }
    run.unpaid.is_paid()
}

pub fn can_pay_ability_mana_cost_for_action_space(
    game: &GameState,
    pool: &ManaPool,
    player: PlayerId,
    host: CardId,
    cost: &ManaCost,
    payment_ctx: &ManaPaymentContext,
    targeted: &Vec<CardId>,
) -> (r: bool)
    ensures
        r == is_payable(
            (Probe { game: *game, player, spell: host, ctx: *payment_ctx }),
            cost.generic,
            cost.shards@,
            pool@,
            targeted@,
        ),
{
    can_pay_mana_cost(game, pool, player, host, cost, payment_ctx, targeted)
}

// ---- the plain probe of a spell ----

/// The text of the mana that a source makes.
pub open spec fn made_for_probe(
    game: GameState,
    player: PlayerId,
    m: RefView,
    atom: u16,
) -> Seq<char> {
    match m.fixed_output() {
        Some(fixed) => atoms_text(
            all_replaced(
                game,
                player,
                m.card_id,
                each_repeated(fixed, repeats_for(m.amount, fixed.len())),
            ),
        ),
        None => {
            let text = atoms_text(base_atoms(m, placed_amount(game, player, m), atom));
            let adjusted = all_replaced(game, player, m.card_id, text_atoms(text));
            if adjusted.len() == 0 {
                text
            } else {
                atoms_text(adjusted)
            }
        },
    }
}

fn make_for_probe(game: &GameState, player: PlayerId, m: &ManaAbilityRef, atom: u16) -> (r: String)
    ensures
        r@ == made_for_probe(*game, player, m@, atom),
{
    match m.find_fixed_output() {
        Some(fixed) => {
            let adjusted = replacement_adjusted_atoms_for_payment(
                game,
                player,
                m.card_id,
                fixed,
                find_repeats(m.amount, fixed.len()),
            );
            atoms_as_mana_string(&adjusted)
        },
        None => {
            let base = auto_pay_base_atoms(m, auto_pay_base_amount(game, player, m), atom);
            let text = atoms_as_mana_string(&base);
            let read = read_mana(text.as_str());
            let adjusted = replace_all(game, player, m.card_id, &read);
            if adjusted.len() == 0 {
                text
            } else {
                atoms_as_mana_string(&adjusted)
            }
        },
    }
}

/// The places of sources that were not used yet and are not the spell itself.
pub open spec fn unused(refs: Seq<RefView>, list: Seq<usize>, spell: CardId, used: Seq<CardId>) -> Seq<
    usize,
>
    decreases list.len(),
{
    if list.len() == 0 {
        Seq::empty()
    } else {
        let before = unused(refs, list.drop_last(), spell, used);
        if is_unused(refs, list.last(), spell, used) {
            before.push(list.last())
        } else {
            before
        }
    }
}

pub open spec fn is_unused(refs: Seq<RefView>, i: usize, spell: CardId, used: Seq<CardId>) -> bool {
    i < refs.len() && refs[i as int].card_id != spell && !used.contains(refs[i as int].card_id)
}

fn list_unused(
    refs: &Vec<ManaAbilityRef>,
    list: &Vec<usize>,
    spell: CardId,
    used: &Vec<CardId>,
) -> (r: Vec<usize>)
    ensures
        r@ == unused(ref_views(refs@), list@, spell, used@),
{
    let ghost all = list@;
    let mut out: Vec<usize> = Vec::new();
    let mut i: usize = 0;
    while i < list.len()
        invariant
            i <= all.len(),
            all == list@,
            out@ == unused(ref_views(refs@), all.take(i as int), spell, used@),
        decreases all.len() - i,
    {
        assert(all.take(i + 1).drop_last() =~= all.take(i as int));
        let k: usize = list[i];
        if k < refs.len() {
            assert(ref_views(refs@)[k as int] == refs@[k as int]@);
            if refs[k].card_id != spell && !crate::lists::has_card(used, refs[k].card_id) {
                out.push(k);
            }
        }
        i = i + 1;
    }
    assert(all.take(i as int) =~= all);
    out
}

/// How far the plain probe has come.
pub ghost struct PlainState {
    pub unpaid: Unpaid,
    pub pool: Seq<ManaView>,
    pub used: Seq<CardId>,
}

/// The plain probe once the pool has paid what it can.
pub open spec fn plain_after_pool(ctx: ManaPaymentContext, s: PlainState) -> PlainState {
    let (u, rest, _) = spent_from(s.unpaid, s.pool, Some(ctx), false, Seq::empty(), 0);
    PlainState { unpaid: u, pool: rest, ..s }
}

/// The plain probe with one more source, or nothing where it ends.
pub open spec fn plain_step(p: Probe, refs: Seq<RefView>, list: Seq<usize>, s: PlainState) -> Option<
    PlainState,
> {
    let left = unused(refs, list, p.spell, s.used);
    if s.unpaid.left.len() == 0 || left.len() == 0 {
        None
    } else {
        match next_candidate(scene_of_probe(p), nothing_paid(), refs, left, s.unpaid.left) {
            Some((i, shard)) => {
                let m = refs[i as int];
                match atom_for(m, shard) {
                    Some(atom) => {
                        let text = made_for_probe(p.game, p.player, m, atom);
                        let more = trigger_mana(
                            p.game,
                            p.player,
                            m,
                            text,
                            false,
                            shard,
                            Seq::empty(),
                        ).0;
                        Some(
                            plain_after_pool(
                                p.ctx,
                                PlainState {
                                    unpaid: s.unpaid,
                                    pool: s.pool + made_entries(
                                        p.game,
                                        m,
                                        false,
                                        text_atoms(text),
                                    ) + more,
                                    used: s.used.push(m.card_id),
                                },
                            ),
                        )
                    },
                    None => None,
                }
            },
            None => None,
        }
    }
}

/// The most sources that the plain probe uses.
pub const MAX_PROBE_USES: u32 = 128;

/// What is left of the cost when the plain probe ends.
pub open spec fn plain_end(p: Probe, refs: Seq<RefView>, list: Seq<usize>, s: PlainState, n: nat) -> Unpaid
    decreases MAX_PROBE_USES - n,
{
    if n >= MAX_PROBE_USES {
        s.unpaid
    } else {
        match plain_step(p, refs, list, s) {
            Some(next) => plain_end(p, refs, list, next, n + 1),
            None => s.unpaid,
        }
    }
}

/// Whether a player could pay for a spell, by the plain probe.
pub open spec fn is_plainly_payable(
    p: Probe,
    generic: i32,
    shards: Seq<ManaCostShard>,
    pool: Seq<ManaView>,
) -> bool {
    let start = plain_after_pool(
        p.ctx,
        PlainState { unpaid: unpaid_of(generic, shards), pool, used: Seq::empty() },
    );
    let refs = all_refs(
        p.game,
        nothing_paid(),
        p.player,
        available_sources(p.game, nothing_paid(), p.player, Seq::empty()),
        Seq::empty(),
        Some(p.ctx),
        true,
    );
    let end = plain_end(p, refs, candidates(p.game, refs, true), start, 0);
    end.left.len() == 0 || (only_phyrexian(end.left) && (p.game.player_at(p.player) matches Some(q)
        && q.life > phyrexian_life(end.left)))
}

/// The plain probe under way.
pub struct PlainRun {
    pub unpaid: ManaCostBeingPaid,
    pub pool: ManaPool,
    pub used: Vec<CardId>,
}

impl View for PlainRun {
    type V = PlainState;

    open spec fn view(&self) -> PlainState {
        PlainState { unpaid: self.unpaid@, pool: self.pool@, used: self.used@ }
    }
}

impl PlainRun {
    fn pay_from_pool(&mut self, ctx: &ManaPaymentContext)
        ensures
            final(self)@ == plain_after_pool(*ctx, old(self)@),
    {
        let none: Vec<usize> = Vec::new();
        assert(none@ =~= Seq::<usize>::empty());
        let mut spent = ManaPool::new();
        self.pool.pay_mana_cost_from_pool(&mut self.unpaid, Some(ctx), false, &none, &mut spent);
    }

    /// Uses one more source; says whether there was one.
    fn step(&mut self, p: &ProbeScene<'_>, refs: &Vec<ManaAbilityRef>, list: &Vec<usize>) -> (r:
        bool)
        ensures
            match plain_step(p@, ref_views(refs@), list@, old(self)@) {
                Some(next) => r && final(self)@ == next,
                None => !r && final(self)@ == old(self)@,
            },
    {
        let left = list_unused(refs, list, p.spell, &self.used);
        if self.unpaid.is_paid() || left.len() == 0 {
            return false;
        }
        let none: Vec<CardId> = Vec::new();
        assert(none@ =~= Seq::<CardId>::empty());
        let scene = PayScene {
            game: p.game,
            player: p.player,
            spell: Some(p.spell),
            reuse: false,
            reserved: &none,
        };
        assert(scene@ == scene_of_probe(p@));
        let st = Paying::new();
        let (i, shard) = match choose_candidate(scene, &st, refs, &left, &self.unpaid) {
            Some(c) => c,
            None => {
                return false;
            },
        };
        let m = &refs[i];
        assert(ref_views(refs@)[i as int] == m@);
        let atom: u16 = match choose_atom_for_shard(m, shard) {
            Some(a) => a,
            None => {
                return false;
            },
        };
        let ghost before = self.pool@;
        let text = make_for_probe(p.game, p.player, m, atom);
        let params = production_params(p.game, m, false);
        let atoms = read_mana(text.as_str());
        self.pool.add_atoms(&atoms, &params);
        assert(self.pool@ =~= before + made_entries(*p.game, m@, false, text_atoms(text@)));
        let no_colors: Vec<u16> = Vec::new();
        assert(no_colors@ =~= Seq::<u16>::empty());
        add_taps_for_mana_trigger_mana(
            p.game,
            &mut self.pool,
            p.player,
            m,
            text.as_str(),
            false,
            shard,
            &no_colors,
        );
        self.used.push(m.card_id);
        self.pay_from_pool(p.ctx);
        true
    }
}

/// Whether a player could pay for a spell, so that it is offered. The game says which probe is
/// asked.
pub fn can_pay_spell_mana_cost_for_action_space(
    game: &GameState,
    pool: &ManaPool,
    player: PlayerId,
    current_spell: CardId,
    cost: &ManaCost,
    payment_ctx: &ManaPaymentContext,
) -> (r: bool)
    ensures
        r == ({
            let p = Probe { game: *game, player, spell: current_spell, ctx: *payment_ctx };
            if game.full_mana_probe {
                is_payable(p, cost.generic, cost.shards@, pool@, Seq::empty())
            } else {
                is_plainly_payable(p, cost.generic, cost.shards@, pool@)
            }
        }),
{
    let none: Vec<CardId> = Vec::new();
    assert(none@ =~= Seq::<CardId>::empty());
    if game.full_mana_probe {
        return can_pay_mana_cost(game, pool, player, current_spell, cost, payment_ctx, &none);
    }
    let p = ProbeScene { game, player, spell: current_spell, ctx: payment_ctx };
    let mut run = PlainRun {
        unpaid: ManaCostBeingPaid::from_mana_cost(cost),
        pool: pool.copy(),
        used: Vec::new(),
    };
    assert(run@ == (PlainState {
        unpaid: unpaid_of(cost.generic, cost.shards@),
        pool: pool@,
        used: Seq::empty(),
    })) by {
        assert(run.used@ =~= Seq::<CardId>::empty());
    }
    run.pay_from_pool(payment_ctx);
    let st = Paying::new();
    let g = group_sources_by_mana_color(game, &st, player, &none, Some(payment_ctx), true);
    let list = collect_sorted_candidates_with_pref(game, &g.refs, true);
    let ghost start = run@;
    let ghost views = ref_views(g.refs@);
    let mut n: u32 = 0;
    let mut go = true;
    while go && n < MAX_PROBE_USES
        invariant
            n <= MAX_PROBE_USES,
            views == ref_views(g.refs@),
            go ==> plain_end(p@, views, list@, start, 0) == plain_end(
                p@,
                views,
                list@,
                run@,
                n as nat,
            ),
            !go ==> plain_end(p@, views, list@, start, 0) == run@.unpaid,
        decreases
                MAX_PROBE_USES - n,
                (if go {
                    1int
                } else {
                    0int
                }),
    {
        if run.step(&p, &g.refs, &list) {
            n = n + 1;
        } else {
            go = false;
        }
    }
    run.unpaid.is_paid() || (run.unpaid.contains_only_phyrexian_mana() && (match game.player(
        player,
    ) {
        Some(q) => q.life > run.unpaid.required_phyrexian_life(),
        None => false,
    }))
}

/// What the pool alone can pay is payable by either probe, whatever the sources are.
pub proof fn law_pool_makes_payable(
    p: Probe,
    spell: Card,
    generic: i32,
    shards: Seq<ManaCostShard>,
    pool: Seq<ManaView>,
    targeted: Seq<CardId>,
)
    requires
        p.game.card_at(p.spell) == Some(spell),
    ensures
        spent_from(
            probe_cost(p, spell, generic, shards),
            pool,
            Some(p.ctx),
            false,
            Seq::empty(),
            0,
        ).0.left.len() == 0 ==> is_payable(p, generic, shards, pool, targeted),
        spent_from(
            unpaid_of(generic, shards),
            pool,
            Some(p.ctx),
            false,
            Seq::empty(),
            0,
        ).0.left.len() == 0 ==> is_plainly_payable(p, generic, shards, pool),
{
}

} // verus!
