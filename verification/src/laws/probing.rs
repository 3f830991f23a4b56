//! Whether a cost can be paid, by what, and what is asked on the way.

use vstd::prelude::*;
use crate::game::GameState;
use crate::mana::ability::{ActivatedAbility, CostPart, RefView};
use crate::mana::atoms::{has_bits, ManaCostShard};
use crate::mana::cost::{first_phyrexian, ShardCount, Unpaid};
use crate::mana::cost_parts::{targets, SceneOfPayment, WantedView};
use crate::mana::masks::{
    best_match, by_meeting, card_masks, cards_masks, colored, masks_pay, matched,
};
use crate::mana::paying::{nothing_paid, PayingView};
use crate::mana::pool::ManaView;
use crate::mana::probe::{after_life, energy_in, policy_forbids, is_unused, passed_over, unused};
use crate::mana::questions::{
    lands_tapped, options_among, payable_places, question, Question,
};
use crate::mana::rank::{by_card_score, card_score, most_pips, ordered_cards};
use crate::mana::probe_choice::Probe;
use crate::mana::sources::{mana_ability_payable, ManaPaymentContext};
use crate::sorting::{is_order, law_sorting, sorted_by};
use crate::text::int_value;
use crate::types::{CardId, PlayerId, ZoneType};

verus! {

// ---- sources as sets of colors ----

proof fn lemma_best_match(masks: Seq<u16>, taken: Seq<usize>, wanted: u16, n: nat)
    requires
        n <= masks.len() <= usize::MAX,
    ensures
        best_match(masks, taken, wanted, n) matches Some(i) ==> i < n && has_bits(
            masks[i as int],
            wanted,
        ) && !taken.contains(i),
        best_match(masks, taken, wanted, n) is None ==> forall|k: int|
            0 <= k < n && has_bits(#[trigger] masks[k], wanted) ==> taken.contains(k as usize),
    decreases n,
{
    if n > 0 {
        lemma_best_match(masks, taken, wanted, (n - 1) as nat);
    }
}

/// A cost of generic mana alone is paid exactly where there are as many sources; one symbol of a color
/// exactly where a source makes a color of it. Nothing is paid with fewer sources than symbols.
pub proof fn law_what_sources_pay(masks: Seq<u16>, wanted: Seq<u16>, color: u16, generic: int)
    requires
        masks.len() <= usize::MAX,
        generic >= 0,
    ensures
        masks_pay(masks, Seq::empty(), generic) <==> masks.len() >= generic,
        masks_pay(masks, seq![color], 0) <==> exists|i: int|
            0 <= i < masks.len() && (#[trigger] masks[i]) & color != 0,
        masks_pay(masks, wanted, generic) ==> masks.len() >= wanted.len() + generic,
{
    let less = by_meeting(masks);
    let none = Seq::<u16>::empty();
    assert(sorted_by(none, less) =~= none);
    let one = seq![color];
    law_sorting(one, less);
    assert(one.drop_last() =~= none);
    assert(sorted_by(one, less) =~= one) by {
        let s = sorted_by(one, less);
        assert(sorted_by(one.drop_last(), less) =~= none);
        one.to_multiset_ensures();
        s.to_multiset_ensures();
        assert(s.len() == 1);
        assert(s.contains(s[0]));
        assert(s.to_multiset().count(s[0]) > 0);
        assert(one.contains(s[0]));
    }
    assert(matched(masks, none) == Some(Seq::<usize>::empty()));
    let nothing = Seq::<usize>::empty();
    lemma_best_match(masks, nothing, color, masks.len());
    if exists|i: int| 0 <= i < masks.len() && (#[trigger] masks[i]) & color != 0 {
        let i = choose|i: int| 0 <= i < masks.len() && (#[trigger] masks[i]) & color != 0;
        assert(has_bits(masks[i], color));
    }
}

/// A source that is left out makes nothing, and one more source adds what it makes.
pub proof fn law_sources_that_are_left_out(
    game: GameState,
    player: PlayerId,
    ids: Seq<CardId>,
    id: CardId,
    excluded: CardId,
    reserved: Seq<CardId>,
    ctx: Option<ManaPaymentContext>,
)
    ensures
        cards_masks(game, player, ids.push(excluded), excluded, reserved, ctx) == cards_masks(
            game,
            player,
            ids,
            excluded,
            reserved,
            ctx,
        ),
        id != excluded ==> cards_masks(game, player, ids.push(id), excluded, reserved, ctx)
            == cards_masks(game, player, ids, excluded, reserved, ctx) + card_masks(
            game,
            player,
            id,
            reserved,
            ctx,
        ),
{
    assert(ids.push(id).drop_last() =~= ids);
    assert(ids.push(excluded).drop_last() =~= ids);
}

/// A land without abilities makes mana exactly where it is untapped, once.
pub proof fn law_lands_make_mana(
    game: GameState,
    player: PlayerId,
    id: CardId,
    reserved: Seq<CardId>,
    ctx: Option<ManaPaymentContext>,
)
    requires
        game.card_at(id) matches Some(c) && c.types.land && !c.types.creature
            && c.activated_abilities@.len() == 0 && c.land_atoms@.len() > 0,
    ensures
        game.card_at(id)->0.tapped ==> card_masks(game, player, id, reserved, ctx).len() == 0,
        !game.card_at(id)->0.tapped ==> card_masks(game, player, id, reserved, ctx).len() == 1,
{
    assert(!nothing_paid().tapped.contains(id));
}

/// The colored symbols of a cost: one more symbol of a color adds its colors, one without adds nothing.
pub proof fn law_colored_symbols(shards: Seq<ManaCostShard>, s: ManaCostShard)
    ensures
        s.mask & 31 != 0 ==> colored(shards.push(s)) == colored(shards).push(s.mask & 31),
        s.mask & 31 == 0 ==> colored(shards.push(s)) == colored(shards),
{
    assert(shards.push(s).drop_last() =~= shards);
}

// ---- life and energy ----

proof fn lemma_first_phyrexian(left: Seq<ShardCount>)
    ensures
        first_phyrexian(left) matches Some(s) ==> s.phyrexian() && exists|i: int|
            0 <= i < left.len() && (#[trigger] left[i]).shard == s,
        first_phyrexian(left) is None ==> forall|i: int|
            0 <= i < left.len() ==> !(#[trigger] left[i]).shard.phyrexian(),
    decreases left.len(),
{
    if left.len() > 0 {
        let rest = left.skip(1);
        lemma_first_phyrexian(rest);
        assert(left[0].shard == left[0].shard);
        if !left[0].shard.phyrexian() {
            if let Some(s) = first_phyrexian(rest) {
                let k = choose|k: int| 0 <= k < rest.len() && (#[trigger] rest[k]).shard == s;
                assert(left[k + 1].shard == s);
            } else {
                assert forall|i: int| 0 <= i < left.len() implies !(
                #[trigger] left[i]).shard.phyrexian() by {
                    if i > 0 {
                        assert(rest[i - 1] == left[i]);
                    }
                }
            }
        }
    }
}

/// Life is counted on for a symbol only where life pays it: one of two life, or a black one for a player
/// who pays those with life. The player must have as much, may pay it, and must not die of it.
pub proof fn law_life_that_is_counted_on(
    p: Probe,
    spell: crate::game::Card,
    u: Unpaid,
    shard: ManaCostShard,
    life: int,
)
    requires
        after_life(p, spell, u, shard, life) is Some,
    ensures
        p.game.player_at(p.player) matches Some(q) && !q.cant_pay_life && q.life >= life && (q.life
            > life || q.survives_zero_life),
        shard.phyrexian() || shard.mask & 4 != 0,
        spell.ai_phyrexian_payment matches Some(t) ==> t@ != "Never"@,
{
    let m = shard.mask;
    assert((m & 31) & 4 == m & 4) by (bit_vector);
}

/// Energy of a cost adds up.
pub proof fn law_energy_adds_up(cost: Seq<CostPart>, part: CostPart)
    ensures
        energy_in(Seq::empty()) == 0,
        part matches CostPart::PayEnergy(n) ==> (i32::MIN <= energy_in(cost) + n <= i32::MAX
            ==> energy_in(cost.push(part)) == energy_in(cost) + n),
        !(part is PayEnergy) ==> energy_in(cost.push(part)) == energy_in(cost),
{
    assert(cost.push(part).drop_last() =~= cost);
}

proof fn lemma_unused(
    refs: Seq<RefView>,
    list: Seq<usize>,
    spell: CardId,
    used: Seq<CardId>,
    i: usize,
)
    ensures
        unused(refs, list, spell, used).contains(i) <==> list.contains(i) && is_unused(
            refs,
            i,
            spell,
            used,
        ),
    decreases list.len(),
{
    let v = unused(refs, list, spell, used);
    if list.len() > 0 {
        let short = list.drop_last();
        let before = unused(refs, short, spell, used);
        lemma_unused(refs, short, spell, used, i);
        if list.contains(i) && i != list.last() {
            let k = choose|k: int| 0 <= k < list.len() && list[k] == i;
            assert(short[k] == i);
        }
        if short.contains(i) {
            let k = choose|k: int| 0 <= k < short.len() && short[k] == i;
            assert(list[k] == i);
        }
        assert(list[list.len() - 1] == list.last());
        if before.contains(i) {
            let k = choose|k: int| 0 <= k < before.len() && before[k] == i;
            assert(v[k] == i);
        }
        if v.contains(i) {
            let k = choose|k: int| 0 <= k < v.len() && v[k] == i;
            if k < before.len() {
                assert(before[k] == i);
            }
        }
        if v.len() > before.len() {
            assert(v[before.len() as int] == list.last());
        }
    }
}

/// A probe uses no card twice, and not the spell itself.
pub proof fn law_probes_use_cards_once(
    refs: Seq<RefView>,
    list: Seq<usize>,
    spell: CardId,
    used: Seq<CardId>,
    i: usize,
)
    ensures
        unused(refs, list, spell, used).contains(i) <==> list.contains(i) && i < refs.len()
            && refs[i as int].card_id != spell && !used.contains(refs[i as int].card_id),
{
    lemma_unused(refs, list, spell, used, i);
}

/// A source that the spell targets is not sacrificed for its own mana.
pub proof fn law_targets_are_not_sacrificed(
    p: Probe,
    targeted: Seq<CardId>,
    u: Unpaid,
    m: RefView,
    ab: ActivatedAbility,
    i: int,
)
    requires
        crate::mana::ability::ability_used(p.game, m.card_id, m.ability_index) == Some(ab),
        targeted.contains(m.card_id),
        0 <= i < ab.cost@.len(),
        ab.cost@[i] matches CostPart::Sacrifice { type_filter, .. } && type_filter@ == "CARDNAME"@,
    ensures
        passed_over(p, targeted, u, m),
{
}

// ---- what is asked ----

/// A player is asked to pay life, to remove counters, and to sacrifice or exile the card itself, exactly
/// where they can.
pub proof fn law_when_costs_are_asked(
    scene: SceneOfPayment,
    st: PayingView,
    source: CardId,
    part: CostPart,
)
    ensures
        part matches CostPart::PayLife(n) ==> question(scene, st, source, part, Seq::empty()) == if st.life_of(
            scene.game,
            scene.player,
        ) >= n {
            Question::PayLife(source)
        } else {
            Question::Nothing
        },
        part matches CostPart::SubCounter { amount, counter_type } ==> question(
            scene,
            st,
            source,
            part,
            Seq::empty(),
        ) == if st.counters_on(scene.game, source, counter_type@) >= amount {
            Question::SubCounter(source)
        } else {
            Question::Nothing
        },
        part matches CostPart::Sacrifice { type_filter, amount } && type_filter@ == "CARDNAME"@
            && amount == 1 ==> question(scene, st, source, part, Seq::empty()) == if st.zone_of(
            scene.game,
            source,
        ) == Some(ZoneType::Battlefield) {
            Question::SelfSacrifice(source)
        } else {
            Question::Nothing
        },
        part matches CostPart::Exile { amount, from, of_source, .. } && of_source && amount == 1
            ==> question(scene, st, source, part, Seq::empty()) == if st.zone_of(
            scene.game,
            source,
        ) == Some(part->Exile_from) {
            Question::SourceExile(source)
        } else {
            Question::Nothing
        },
        part is Tap || part is Mana ==> question(scene, st, source, part, Seq::empty())
            == Question::Nothing,
        part matches CostPart::Exile { amount, from, type_filter, of_source } && !of_source && amount
            > 0 ==> ({
            let valid = targets(
                scene,
                st,
                source,
                WantedView::Exile { filter: part->Exile_type_filter@ },
                part->Exile_from,
            );
            question(scene, st, source, part, Seq::empty()) == if valid.len() >= part->Exile_amount {
                Question::Cards {
                    valid,
                    min: part->Exile_amount as int,
                    max: part->Exile_amount as int,
                }
            } else {
                Question::Nothing
            }
        }),
{
}

/// Lands that are tapped at once are untapped lands of the list, no more than are wanted, and each adds
/// one mana of its own.
pub proof fn law_lands_are_tapped(
    game: GameState,
    pool: Seq<ManaView>,
    sources: Seq<CardId>,
    wanted: int,
    i: int,
)
    ensures
        ({
            let (tapped, left) = lands_tapped(game, pool, sources, wanted);
            &&& wanted >= 0 ==> tapped.len() <= wanted
            &&& left.len() == pool.len() + tapped.len()
            &&& 0 <= i < tapped.len() ==> sources.contains(tapped[i]) && (game.card_at(
                tapped[i],
            ) matches Some(c) && c.types.land && !c.tapped) && left[pool.len() + i].source
                == tapped[i]
            &&& tapped.no_duplicates()
        }),
    decreases sources.len(),
{
    if sources.len() > 0 {
        let short = sources.drop_last();
        law_lands_are_tapped(game, pool, short, wanted, i);
        let (t0, l0) = lands_tapped(game, pool, short, wanted);
        let (tapped, left) = lands_tapped(game, pool, sources, wanted);
        assert(sources[sources.len() - 1] == sources.last());
        if 0 <= i < t0.len() {
            let k = choose|k: int| 0 <= k < short.len() && short[k] == t0[i];
            assert(sources[k] == t0[i]);
            assert(tapped[i] == t0[i]);
            assert(left[pool.len() + i] == l0[pool.len() + i]);
        }
        assert forall|a: int, b: int|
            0 <= a < tapped.len() && 0 <= b < tapped.len() && a != b implies tapped[a]
            != tapped[b] by {
            if a < t0.len() && b < t0.len() {
                assert(t0[a] != t0[b]);
            } else if a < t0.len() {
                assert(t0[a] == tapped[a]);
                assert(t0.contains(t0[a]));
            } else {
                assert(t0[b] == tapped[b]);
                assert(t0.contains(t0[b]));
            }
        }
    }
}

proof fn lemma_payable_places(
    game: GameState,
    player: PlayerId,
    card: CardId,
    abilities: Seq<ActivatedAbility>,
    reserved: Seq<CardId>,
    n: nat,
    place: (CardId, int),
)
    requires
        n <= abilities.len(),
    ensures
        payable_places(game, player, card, abilities, reserved, n).contains(place) <==> place.0
            == card && 0 <= place.1 < n && mana_ability_payable(
            game,
            nothing_paid(),
            player,
            card,
            abilities[place.1],
            reserved,
            None,
        ),
    decreases n,
{
    let v = payable_places(game, player, card, abilities, reserved, n);
    if n > 0 {
        let before = payable_places(game, player, card, abilities, reserved, (n - 1) as nat);
        lemma_payable_places(game, player, card, abilities, reserved, (n - 1) as nat, place);
        if before.contains(place) {
            let k = choose|k: int| 0 <= k < before.len() && before[k] == place;
            assert(v[k] == place);
        }
        if v.contains(place) {
            let k = choose|k: int| 0 <= k < v.len() && v[k] == place;
            if k < before.len() {
                assert(before[k] == place);
            }
        }
        if v.len() > before.len() {
            assert(v[before.len() as int] == (card, n - 1));
        }
    }
}

/// The abilities that a player is shown are exactly those of the sources that can be used.
pub proof fn law_abilities_that_are_shown(
    game: GameState,
    player: PlayerId,
    sources: Seq<CardId>,
    reserved: Seq<CardId>,
    card: CardId,
    k: int,
)
    ensures
        options_among(game, player, sources, reserved).contains((card, k)) <==> sources.contains(card)
            && (game.card_at(card) matches Some(c) && 0 <= k < c.activated_abilities@.len()
            && mana_ability_payable(
            game,
            nothing_paid(),
            player,
            card,
            c.activated_abilities@[k],
            reserved,
            None,
        )),
    decreases sources.len(),
{
    if sources.len() > 0 {
        let short = sources.drop_last();
        law_abilities_that_are_shown(game, player, short, reserved, card, k);
        let a = options_among(game, player, short, reserved);
        let last = sources.last();
        assert(sources[sources.len() - 1] == last);
        if short.contains(card) {
            let i = choose|i: int| 0 <= i < short.len() && short[i] == card;
            assert(sources[i] == card);
        }
        if sources.contains(card) && card != last {
            let i = choose|i: int| 0 <= i < sources.len() && sources[i] == card;
            assert(short[i] == card);
        }
        if let Some(c) = game.card_at(last) {
            let b = payable_places(
                game,
                player,
                last,
                c.activated_abilities@,
                reserved,
                c.activated_abilities@.len(),
            );
            lemma_payable_places(
                game,
                player,
                last,
                c.activated_abilities@,
                reserved,
                c.activated_abilities@.len(),
                (card, k),
            );
            let place = (card, k);
            if a.contains(place) {
                let i = choose|i: int| 0 <= i < a.len() && a[i] == place;
                assert((a + b)[i] == place);
            }
            if b.contains(place) {
                let i = choose|i: int| 0 <= i < b.len() && b[i] == place;
                assert((a + b)[a.len() + i] == place);
            }
            if (a + b).contains(place) {
                let i = choose|i: int| 0 <= i < (a + b).len() && (a + b)[i] == place;
                if i < a.len() {
                    assert(a[i] == place);
                } else {
                    assert(b[i - a.len()] == place);
                }
            }
        }
    }
}

// ---- what is used first ----

/// Cards that can attack or block are worth more, and are used later.
pub proof fn law_worth_of_cards(game: GameState, id: CardId)
    requires
        game.card_at(id) matches Some(c) && c.activated_abilities@.len() == 0 && !c.types.land,
    ensures
        ({
            let c = game.card_at(id)->0;
            &&& !c.can_attack && !c.can_block ==> card_score(game, id) == 0
            &&& c.can_attack != c.can_block ==> card_score(game, id) == 13
            &&& c.can_attack && c.can_block ==> card_score(game, id) == 26
        }),
{
}

/// Cards are used in the order of their worth, the least first.
pub proof fn law_order_of_cards(
    game: GameState,
    refs: Seq<RefView>,
    map: Seq<(i32, Seq<usize>)>,
    i: int,
    j: int,
)
    requires
        0 <= i < j < ordered_cards(game, refs, map).len(),
    ensures
        card_score(game, ordered_cards(game, refs, map)[i]) <= card_score(
            game,
            ordered_cards(game, refs, map)[j],
        ),
{
    let less = by_card_score(game);
    law_sorting(crate::mana::rank::all_cards_met(refs, map), less);
    assert(is_order(less));
    let v = ordered_cards(game, refs, map);
    assert(!less(v[j], v[i]));
}

/// One more card in the hand that is no land raises what a color is needed for at most to its symbols.
pub proof fn law_colors_that_are_needed(
    game: GameState,
    hand: Seq<CardId>,
    id: CardId,
    spell: CardId,
    color: u16,
)
    requires
        game.card_at(id) is Some,
    ensures
        ({
            let c = game.card_at(id)->0;
            let n = most_pips(game, hand, spell, color);
            let m = most_pips(game, hand.push(id), spell, color);
            let own = crate::mana::rank::pips(c.cost_shards@, color);
            &&& id == spell || c.types.land ==> m == n
            &&& id != spell && !c.types.land ==> m >= n && m >= own && (m == n || m == own)
        }),
{
    assert(hand.push(id).drop_last() =~= hand);
}

/// Evidence is asked of all cards in the graveyard that may be exiled, any number of them. Cards to tap
/// are asked by number, or by their power, then one at least.
pub proof fn law_cards_that_are_asked_for(
    scene: SceneOfPayment,
    st: PayingView,
    source: CardId,
    part: CostPart,
)
    ensures
        part is CollectEvidence ==> ({
            let valid = targets(scene, st, source, WantedView::Evidence, ZoneType::Graveyard);
            question(scene, st, source, part, Seq::empty()) == if valid.len() > 0 {
                Question::Cards { valid, min: 0, max: valid.len() as int }
            } else {
                Question::Nothing
            }
        }),
        part matches CostPart::TapType { amount, type_filter, min_total_power, can_tap_source }
            && amount > 0 ==> ({
            let valid = targets(
                scene,
                st,
                source,
                WantedView::Tap {
                    filter: part->TapType_type_filter@,
                    can_tap_source: part->TapType_can_tap_source,
                },
                ZoneType::Battlefield,
            );
            let q = question(scene, st, source, part, Seq::empty());
            &&& part->TapType_min_total_power is Some ==> (q matches Question::Cards { min, max, .. }
                && min == 1 && max == valid.len())
            &&& part->TapType_min_total_power is None && valid.len() >= part->TapType_amount ==> (
            q matches Question::Cards { min, max, .. } && min == part->TapType_amount && max
                == part->TapType_amount)
            &&& part->TapType_min_total_power is None && valid.len() < part->TapType_amount ==> q
                == Question::Nothing
        }),
{
}

/// Life is not counted on where the card says never, or only where the damage would be fatal and another
/// player has more life than that.
pub proof fn law_policies_of_life(
    game: GameState,
    player: PlayerId,
    k: Seq<char>,
    other: PlayerId,
    i: int,
)
    requires
        int_value(k) is Some,
    ensures
        policy_forbids(game, player, Some("Never"@)),
        !policy_forbids(game, player, None),
        0 <= i < game.player_order@.len() && game.player_order@[i] == other && other != player && (
        game.player_at(other) matches Some(p) && p.life <= int_value(k)->0) ==> !policy_forbids(
            game,
            player,
            Some("OnFatalDamage."@ + k),
        ),
        (forall|j: int|
            0 <= j < game.player_order@.len() && #[trigger] game.player_order@[j] != player ==> (
            game.player_at(game.player_order@[j]) matches Some(p) ==> p.life > int_value(k)->0))
            ==> policy_forbids(game, player, Some("OnFatalDamage."@ + k)),
{
    reveal_strlit("Never");
    reveal_strlit("OnFatalDamage.");
    let t = "OnFatalDamage."@ + k;
    crate::laws::numbers::lemma_starts("OnFatalDamage."@, k);
    assert(t[0] == 'O');
    crate::laws::numbers::lemma_parts_from(t, "Never"@, 0);
}

} // verus!
