//! Which cards make mana for a payment, and what their use costs.

use vstd::prelude::*;
use crate::game::GameState;
use crate::laws::convoke::lemma_sorted_holds;
use crate::mana::ability::{ActivatedAbility, CostPart, RefView};
use crate::mana::atoms::ManaCostShard;
use crate::mana::autopay::{life_paid, life_payments, recorded, times_two};
use crate::mana::candidates::{
    all_places, atom_for, candidate_among, candidates, first_paying, first_spare, first_usable,
    is_usable, least_versatile, next_candidate, plain_shards, scarcity, score_relation, shard_order,
    source_score,
};
use crate::mana::cost::{generic_shard, shards_of, ShardCount, Unpaid};
use crate::mana::cost_parts::{
    by_name, by_power, cards_exiled, cards_sacrificed, cmc_sum, enough_evidence, enough_power,
    first_each, part_paid, part_payable, power_sum, sacrifice_targets, tap_choice, targets,
    wanted_among, AnswerView, ByName, SceneOfPayment, WantedView,
};
use crate::mana::paying::PayingView;
use crate::mana::sources::{
    ability_order, ability_ref, all_refs, available_sources, is_source, mana_ability_payable,
    some_payable, sources_among, with_ability_refs, with_land_refs, ManaPaymentContext,
};
use crate::sorting::{law_sorting, relation, sorted_by};
use crate::types::{CardId, PlayerId, ZoneType};

verus! {

// ---- which cards are sources ----

/// Whether a card is free to be tapped: it is untapped, and no creature that came this turn.
pub open spec fn is_ready(game: GameState, st: PayingView, id: CardId) -> bool {
    game.card_at(id) matches Some(c) && !st.tapped.contains(id) && !c.tapped && !(c.types.creature
        && c.summoning_sick)
}

/// An ability that is used for mana is one: it makes mana, costs none, its card is where it works, its
/// requirements are met, and where it taps its card, that is free to be.
pub proof fn law_usable_mana_abilities(
    game: GameState,
    st: PayingView,
    player: PlayerId,
    id: CardId,
    ab: ActivatedAbility,
    reserved: Seq<CardId>,
    ctx: Option<ManaPaymentContext>,
    i: int,
)
    requires
        mana_ability_payable(game, st, player, id, ab, reserved, ctx),
        0 <= i < ab.cost@.len(),
    ensures
        ab.is_mana_ability,
        ab.script_requirements_met,
        ab.other_costs_payable,
        !(ab.cost@[i] is Mana),
        ab.cost@[i] is Tap ==> is_ready(game, st, id),
        st.zone_of(game, id) == Some(ZoneType::Battlefield) || st.zone_of(game, id) == Some(
            ZoneType::Hand,
        ),
        st.zone_of(game, id) == Some(ZoneType::Hand) <==> ab.activation_zone == Some(
            ZoneType::Hand,
        ),
        ab.restrict_valid matches Some(t) ==> (ctx matches Some(c) ==> (!crate::text::has_part(
            t@,
            "ChosenType"@,
        ) ==> crate::lists::texts_have(c.restrictions_met@, t@))),
{
}

/// An ability that only taps its card can be used exactly where the card is free to be tapped and the
/// ability works.
pub proof fn law_tapping_for_mana(
    game: GameState,
    st: PayingView,
    player: PlayerId,
    id: CardId,
    ab: ActivatedAbility,
    reserved: Seq<CardId>,
)
    requires
        ab.is_mana_ability,
        ab.cost@.len() == 1,
        ab.cost@[0] is Tap,
        ab.other_costs_payable,
        ab.script_requirements_met,
        ab.restrict_valid is None,
        ab.activation_zone is None,
    ensures
        mana_ability_payable(game, st, player, id, ab, reserved, None) <==> is_ready(game, st, id)
            && st.zone_of(game, id) == Some(ZoneType::Battlefield),
{
    assert(ab.cost@[0] is Tap);
}

proof fn lemma_sources(
    game: GameState,
    st: PayingView,
    player: PlayerId,
    ids: Seq<CardId>,
    reserved: Seq<CardId>,
    by_ability: bool,
    id: CardId,
)
    ensures
        sources_among(game, st, player, ids, reserved, by_ability).contains(id) <==> ids.contains(id)
            && (some_payable(game, st, player, id, reserved) || (!by_ability && is_source(
            game,
            st,
            player,
            id,
            reserved,
        ))),
    decreases ids.len(),
{
    let v = sources_among(game, st, player, ids, reserved, by_ability);
    if ids.len() > 0 {
        let short = ids.drop_last();
        let before = sources_among(game, st, player, short, reserved, by_ability);
        lemma_sources(game, st, player, short, reserved, by_ability, id);
        if ids.contains(id) && id != ids.last() {
            let i = choose|i: int| 0 <= i < ids.len() && ids[i] == id;
            assert(short[i] == id);
        }
        if short.contains(id) {
            let i = choose|i: int| 0 <= i < short.len() && short[i] == id;
            assert(ids[i] == id);
        }
        assert(ids[ids.len() - 1] == ids.last());
        if before.contains(id) {
            let i = choose|i: int| 0 <= i < before.len() && before[i] == id;
            assert(v[i] == id);
        }
        if v.contains(id) {
            let i = choose|i: int| 0 <= i < v.len() && v[i] == id;
            if i < before.len() {
                assert(before[i] == id);
            }
        }
        if v.len() > before.len() {
            assert(v[before.len() as int] == ids.last());
        }
    }
}

/// Whether a card has an ability that can be used for mana.
pub open spec fn has_usable_ability(
    game: GameState,
    st: PayingView,
    player: PlayerId,
    id: CardId,
    reserved: Seq<CardId>,
) -> bool {
    game.card_at(id) matches Some(c) && exists|i: int|
        0 <= i < c.activated_abilities@.len() && mana_ability_payable(
            game,
            st,
            player,
            id,
            #[trigger] c.activated_abilities@[i],
            reserved,
            None,
        )
}

/// The sources of a player are the cards on the battlefield and in the hand with an ability that can
/// be used for mana, and the lands on the battlefield that are free to be tapped and have mana of
/// their own; all of them, and no others.
pub proof fn law_which_cards_are_sources(
    game: GameState,
    st: PayingView,
    player: PlayerId,
    reserved: Seq<CardId>,
    id: CardId,
)
    ensures
        available_sources(game, st, player, reserved).contains(id) <==> {
            ||| st.in_zone(game, ZoneType::Battlefield, player).contains(id) && (
            has_usable_ability(game, st, player, id, reserved) || (is_ready(game, st, id)
                && game.card_at(id)->0.types.land && game.card_at(id)->0.land_atoms@.len() > 0
                && st.zone_of(game, id) == Some(ZoneType::Battlefield)))
            ||| st.in_zone(game, ZoneType::Hand, player).contains(id) && has_usable_ability(
                game,
                st,
                player,
                id,
                reserved,
            )
        },
{
    let on_field = st.in_zone(game, ZoneType::Battlefield, player);
    let in_hand = st.in_zone(game, ZoneType::Hand, player);
    let a = sources_among(game, st, player, on_field, reserved, false);
    let b = sources_among(game, st, player, in_hand, reserved, true);
    lemma_sources(game, st, player, on_field, reserved, false, id);
    lemma_sources(game, st, player, in_hand, reserved, true, id);
    assert(some_payable(game, st, player, id, reserved) == has_usable_ability(
        game,
        st,
        player,
        id,
        reserved,
    ));
    if a.contains(id) {
        let i = choose|i: int| 0 <= i < a.len() && a[i] == id;
        assert((a + b)[i] == id);
    }
    if b.contains(id) {
        let i = choose|i: int| 0 <= i < b.len() && b[i] == id;
        assert((a + b)[a.len() + i] == id);
    }
    if (a + b).contains(id) {
        let i = choose|i: int| 0 <= i < (a + b).len() && (a + b)[i] == id;
        if i < a.len() {
            assert(a[i] == id);
        } else {
            assert(b[i - a.len()] == id);
        }
    }
}

// ---- the ways to pay ----

/// Whether a way to make mana is that of a land that is untapped, or of an ability that can be used.
pub open spec fn is_a_way(
    game: GameState,
    st: PayingView,
    player: PlayerId,
    reserved: Seq<CardId>,
    ctx: Option<ManaPaymentContext>,
    r: RefView,
) -> bool {
    game.card_at(r.card_id) matches Some(c) && match r.ability_index {
        None => c.types.land && !c.tapped && !st.tapped.contains(r.card_id) && st.zone_of(
            game,
            r.card_id,
        ) == Some(ZoneType::Battlefield) && r.atoms.len() == 1 && c.land_atoms@.contains(r.atoms[0])
            && r.amount >= 1,
        Some(n) => exists|k: int|
            0 <= k < c.activated_abilities@.len() && (#[trigger] c.activated_abilities@[k]).ability_index
                == n && mana_ability_payable(
                game,
                st,
                player,
                r.card_id,
                c.activated_abilities@[k],
                reserved,
                ctx,
            ),
    }
}

proof fn lemma_ability_order(abilities: Seq<ActivatedAbility>, probe: bool, n: nat)
    ensures
        forall|i: int|
            0 <= i < ability_order(abilities, probe, n).len() ==> 0 <= #[trigger] ability_order(
                abilities,
                probe,
                n,
            )[i] < n,
    decreases n,
{
    if n > 0 {
        lemma_ability_order(abilities, probe, (n - 1) as nat);
        let before = ability_order(abilities, probe, (n - 1) as nat);
        let v = ability_order(abilities, probe, n);
        assert forall|i: int| 0 <= i < v.len() implies 0 <= #[trigger] v[i] < n by {
            if v == before.push(n - 1) {
                if i < before.len() {
                    assert(v[i] == before[i]);
                }
            } else if i > 0 {
                assert(v[i] == before[i - 1]);
            }
        }
    }
}

proof fn lemma_ability_ways(
    game: GameState,
    st: PayingView,
    player: PlayerId,
    card: CardId,
    order: Seq<int>,
    reserved: Seq<CardId>,
    ctx: Option<ManaPaymentContext>,
    probe: bool,
    refs: Seq<RefView>,
)
    requires
        game.card_at(card) is Some,
        forall|i: int|
            0 <= i < order.len() ==> 0 <= #[trigger] order[i] < game.card_at(
                card,
            )->0.activated_abilities@.len(),
        forall|i: int|
            0 <= i < refs.len() ==> is_a_way(game, st, player, reserved, ctx, #[trigger] refs[i]),
    ensures
        ({
            let v = with_ability_refs(
                game,
                st,
                player,
                card,
                game.card_at(card)->0.activated_abilities@,
                order,
                reserved,
                ctx,
                probe,
                refs,
            );
            forall|i: int|
                0 <= i < v.len() ==> is_a_way(game, st, player, reserved, ctx, #[trigger] v[i])
        }),
    decreases order.len(),
{
    if order.len() > 0 {
        let abilities = game.card_at(card)->0.activated_abilities@;
        let short = order.drop_last();
        assert forall|i: int| 0 <= i < short.len() implies 0 <= #[trigger] short[i]
            < abilities.len() by {
            assert(order[i] == short[i]);
        }
        lemma_ability_ways(game, st, player, card, short, reserved, ctx, probe, refs);
        let before = with_ability_refs(
            game,
            st,
            player,
            card,
            abilities,
            short,
            reserved,
            ctx,
            probe,
            refs,
        );
        let k = order.last();
        assert(k == order[order.len() - 1]);
        let ab = abilities[k];
        let found = ability_ref(
            game,
            st,
            player,
            card,
            ab,
            reserved,
            ctx,
            probe,
            before.len() as usize,
        );
        if let Some(r) = found {
            assert(r.card_id == card);
            assert(r.ability_index == Some(ab.ability_index));
            assert(is_a_way(game, st, player, reserved, ctx, r)) by {
                assert(abilities[k].ability_index == ab.ability_index);
            }
            let v = before.push(r);
            assert forall|i: int| 0 <= i < v.len() implies is_a_way(
                game,
                st,
                player,
                reserved,
                ctx,
                #[trigger] v[i],
            ) by {
                if i < before.len() {
                    assert(v[i] == before[i]);
                }
            }
        }
    }
}

proof fn lemma_land_ways(
    game: GameState,
    st: PayingView,
    player: PlayerId,
    card: CardId,
    atoms: Seq<u16>,
    reserved: Seq<CardId>,
    ctx: Option<ManaPaymentContext>,
    refs: Seq<RefView>,
)
    requires
        game.card_at(card) matches Some(c) && c.types.land && !c.tapped && forall|i: int|
            0 <= i < atoms.len() ==> c.land_atoms@.contains(#[trigger] atoms[i]),
        !st.tapped.contains(card),
        st.zone_of(game, card) == Some(ZoneType::Battlefield),
        forall|i: int|
            0 <= i < refs.len() ==> is_a_way(game, st, player, reserved, ctx, #[trigger] refs[i]),
    ensures
        ({
            let v = with_land_refs(game, player, card, atoms, refs);
            forall|i: int|
                0 <= i < v.len() ==> is_a_way(game, st, player, reserved, ctx, #[trigger] v[i])
        }),
    decreases atoms.len(),
{
    if atoms.len() > 0 {
        let short = atoms.drop_last();
        let c = game.card_at(card)->0;
        assert forall|i: int| 0 <= i < short.len() implies c.land_atoms@.contains(
            #[trigger] short[i],
        ) by {
            assert(atoms[i] == short[i]);
        }
        lemma_land_ways(game, st, player, card, short, reserved, ctx, refs);
        let before = with_land_refs(game, player, card, short, refs);
        let v = with_land_refs(game, player, card, atoms, refs);
        assert(atoms[atoms.len() - 1] == atoms.last());
        assert forall|i: int| 0 <= i < v.len() implies is_a_way(
            game,
            st,
            player,
            reserved,
            ctx,
            #[trigger] v[i],
        ) by {
            if i < before.len() {
                assert(v[i] == before[i]);
            }
        }
    }
}

proof fn lemma_ways(
    game: GameState,
    st: PayingView,
    player: PlayerId,
    sources: Seq<CardId>,
    reserved: Seq<CardId>,
    ctx: Option<ManaPaymentContext>,
    probe: bool,
)
    ensures
        ({
            let v = all_refs(game, st, player, sources, reserved, ctx, probe);
            forall|i: int|
                0 <= i < v.len() ==> is_a_way(game, st, player, reserved, ctx, #[trigger] v[i])
        }),
    decreases sources.len(),
{
    if sources.len() > 0 {
        lemma_ways(game, st, player, sources.drop_last(), reserved, ctx, probe);
        let before = all_refs(game, st, player, sources.drop_last(), reserved, ctx, probe);
        let card = sources.last();
        if let Some(c) = game.card_at(card) {
            let abilities = c.activated_abilities@;
            let order = ability_order(abilities, probe, abilities.len());
            lemma_ability_order(abilities, probe, abilities.len());
            lemma_ability_ways(game, st, player, card, order, reserved, ctx, probe, before);
            let after = with_ability_refs(
                game,
                st,
                player,
                card,
                abilities,
                order,
                reserved,
                ctx,
                probe,
                before,
            );
            if st.zone_of(game, card) == Some(ZoneType::Battlefield) && c.types.land
                && !st.is_tapped(game, card) {
                assert forall|i: int| 0 <= i < c.land_atoms@.len() implies c.land_atoms@.contains(
                    #[trigger] c.land_atoms@[i],
                ) by {}
                lemma_land_ways(
                    game,
                    st,
                    player,
                    card,
                    c.land_atoms@,
                    reserved,
                    ctx,
                    after,
                );
            }
        }
    }
}

/// Every way to pay that is offered is one: a land that is untapped, with mana of its own, or an
/// ability that can be used.
pub proof fn law_ways_to_pay(
    game: GameState,
    st: PayingView,
    player: PlayerId,
    sources: Seq<CardId>,
    reserved: Seq<CardId>,
    ctx: Option<ManaPaymentContext>,
    probe: bool,
    i: int,
)
    requires
        0 <= i < all_refs(game, st, player, sources, reserved, ctx, probe).len(),
    ensures
        is_a_way(
            game,
            st,
            player,
            reserved,
            ctx,
            all_refs(game, st, player, sources, reserved, ctx, probe)[i],
        ),
{
    lemma_ways(game, st, player, sources, reserved, ctx, probe);
}

// ---- which way is next ----

proof fn lemma_plain_shards(shards: Seq<ManaCostShard>, s: ManaCostShard)
    ensures
        plain_shards(shards).contains(s) <==> shards.contains(s) && !s.variable() && s
            != generic_shard(),
    decreases shards.len(),
{
    let v = plain_shards(shards);
    if shards.len() > 0 {
        let short = shards.drop_last();
        let before = plain_shards(short);
        lemma_plain_shards(short, s);
        if shards.contains(s) && s != shards.last() {
            let i = choose|i: int| 0 <= i < shards.len() && shards[i] == s;
            assert(short[i] == s);
        }
        if short.contains(s) {
            let i = choose|i: int| 0 <= i < short.len() && short[i] == s;
            assert(shards[i] == s);
        }
        assert(shards[shards.len() - 1] == shards.last());
        if before.contains(s) {
            let i = choose|i: int| 0 <= i < before.len() && before[i] == s;
            assert(v[i] == s);
        }
        if v.contains(s) {
            let i = choose|i: int| 0 <= i < v.len() && v[i] == s;
            if i < before.len() {
                assert(before[i] == s);
            }
        }
        if v.len() > before.len() {
            assert(v[before.len() as int] == shards.last());
        }
    }
}

proof fn lemma_shard_order(
    left: Seq<ShardCount>,
    refs: Seq<RefView>,
    list: Seq<usize>,
    s: ManaCostShard,
)
    ensures
        shard_order(left, refs, list).contains(s) <==> shards_of(left).contains(s) && (s
            == generic_shard() || !s.variable()),
{
    let plain = plain_shards(shards_of(left));
    let sorted = sorted_by(plain, scarcity(refs, list));
    lemma_plain_shards(shards_of(left), s);
    lemma_sorted_holds(plain, scarcity(refs, list), s);
    let v = shard_order(left, refs, list);
    if sorted.contains(s) {
        let i = choose|i: int| 0 <= i < sorted.len() && sorted[i] == s;
        assert(v[i] == s);
    }
    if v.contains(s) {
        let i = choose|i: int| 0 <= i < v.len() && v[i] == s;
        if i < sorted.len() {
            assert(sorted[i] == s);
        }
    }
    if v.len() > sorted.len() {
        assert(v[sorted.len() as int] == generic_shard());
    }
}

proof fn lemma_first_usable(
    scene: SceneOfPayment,
    st: PayingView,
    refs: Seq<RefView>,
    list: Seq<usize>,
    shard: ManaCostShard,
)
    ensures
        first_usable(scene, st, refs, list, shard) matches Some(i) ==> list.contains(i) && is_usable(
            scene,
            st,
            refs,
            i,
            shard,
        ),
        first_usable(scene, st, refs, list, shard) is None ==> forall|k: int|
            0 <= k < list.len() ==> !is_usable(scene, st, refs, #[trigger] list[k], shard),
    decreases list.len(),
{
    if list.len() > 0 {
        let rest = list.skip(1);
        lemma_first_usable(scene, st, refs, rest, shard);
        assert(list[0] == list.first());
        if is_usable(scene, st, refs, list[0], shard) {
            assert(list.contains(list[0]));
        } else {
            if let Some(i) = first_usable(scene, st, refs, rest, shard) {
                let k = choose|k: int| 0 <= k < rest.len() && rest[k] == i;
                assert(list[k + 1] == i);
            } else {
                assert forall|k: int| 0 <= k < list.len() implies !is_usable(
                    scene,
                    st,
                    refs,
                    #[trigger] list[k],
                    shard,
                ) by {
                    if k > 0 {
                        assert(rest[k - 1] == list[k]);
                    }
                }
            }
        }
    }
}

proof fn lemma_first_spare(
    scene: SceneOfPayment,
    st: PayingView,
    refs: Seq<RefView>,
    all: Seq<usize>,
    list: Seq<usize>,
    shard: ManaCostShard,
    shards: Seq<ManaCostShard>,
)
    ensures
        first_spare(scene, st, refs, all, list, shard, shards) matches Some(i) ==> list.contains(i)
            && is_usable(scene, st, refs, i, shard),
    decreases list.len(),
{
    if list.len() > 0 {
        let rest = list.skip(1);
        lemma_first_spare(scene, st, refs, all, rest, shard, shards);
        assert(list.contains(list[0]));
        if let Some(i) = first_spare(scene, st, refs, all, rest, shard, shards) {
            let k = choose|k: int| 0 <= k < rest.len() && rest[k] == i;
            assert(list[k + 1] == i);
        }
    }
}

proof fn lemma_candidate(
    scene: SceneOfPayment,
    st: PayingView,
    refs: Seq<RefView>,
    list: Seq<usize>,
    shards: Seq<ManaCostShard>,
    order: Seq<ManaCostShard>,
)
    ensures
        candidate_among(scene, st, refs, list, shards, order) matches Some((i, s)) ==> order.contains(
            s,
        ) && list.contains(i) && is_usable(scene, st, refs, i, s),
        candidate_among(scene, st, refs, list, shards, order) is None ==> forall|j: int, k: int|
            0 <= j < order.len() && 0 <= k < list.len() ==> !is_usable(
                scene,
                st,
                refs,
                #[trigger] list[k],
                #[trigger] order[j],
            ),
    decreases order.len(),
{
    if order.len() > 0 {
        let rest = order.skip(1);
        lemma_candidate(scene, st, refs, list, shards, rest);
        lemma_first_spare(scene, st, refs, list, list, order[0], shards);
        lemma_first_usable(scene, st, refs, list, order[0]);
        assert(order.contains(order[0]));
        match least_versatile(scene, st, refs, list, order[0], shards) {
            Some(_) => {},
            None => {
                if let Some((i, s)) = candidate_among(scene, st, refs, list, shards, rest) {
                    let k = choose|k: int| 0 <= k < rest.len() && rest[k] == s;
                    assert(order[k + 1] == s);
                } else {
                    assert forall|j: int, k: int|
                        0 <= j < order.len() && 0 <= k < list.len() implies !is_usable(
                        scene,
                        st,
                        refs,
                        #[trigger] list[k],
                        #[trigger] order[j],
                    ) by {
                        if j > 0 {
                            assert(rest[j - 1] == order[j]);
                        }
                    }
                }
            },
        }
    }
}

/// The way that a payment uses next pays a symbol that is left, is not the spell itself, and has costs
/// that can be paid. Where there is none, no way pays any symbol that is left.
pub proof fn law_next_way_pays(
    scene: SceneOfPayment,
    st: PayingView,
    refs: Seq<RefView>,
    list: Seq<usize>,
    left: Seq<ShardCount>,
)
    ensures
        next_candidate(scene, st, refs, list, left) matches Some((i, s)) ==> {
            &&& list.contains(i)
            &&& i < refs.len()
            &&& refs[i as int].pays(s)
            &&& scene.spell != Some(refs[i as int].card_id)
            &&& exists|k: int| 0 <= k < left.len() && (#[trigger] left[k]).shard == s
        },
        next_candidate(scene, st, refs, list, left) is None ==> forall|j: int, k: int|
            0 <= j < left.len() && 0 <= k < list.len() && ((#[trigger] left[j]).shard
                == generic_shard() || !left[j].shard.variable()) ==> !is_usable(
                scene,
                st,
                refs,
                #[trigger] list[k],
                left[j].shard,
            ),
{
    let order = shard_order(left, refs, list);
    lemma_candidate(scene, st, refs, list, shards_of(left), order);
    match next_candidate(scene, st, refs, list, left) {
        Some((i, s)) => {
            lemma_shard_order(left, refs, list, s);
            let k = choose|k: int| 0 <= k < shards_of(left).len() && shards_of(left)[k] == s;
            assert(left[k].shard == s);
        },
        None => {
            assert forall|j: int, k: int|
                0 <= j < left.len() && 0 <= k < list.len() && ((#[trigger] left[j]).shard
                    == generic_shard() || !left[j].shard.variable()) implies !is_usable(
                scene,
                st,
                refs,
                #[trigger] list[k],
                left[j].shard,
            ) by {
                let s = left[j].shard;
                lemma_shard_order(left, refs, list, s);
                assert(shards_of(left)[j] == s);
                let q = choose|q: int| 0 <= q < order.len() && order[q] == s;
                assert(order[q] == s);
            }
        },
    }
}

proof fn lemma_first_paying(atoms: Seq<u16>, shard: ManaCostShard)
    ensures
        first_paying(atoms, shard) matches Some(a) ==> atoms.contains(a) && shard.payable_with(a),
        first_paying(atoms, shard) is None ==> forall|i: int|
            0 <= i < atoms.len() ==> !shard.payable_with(#[trigger] atoms[i]),
    decreases atoms.len(),
{
    if atoms.len() > 0 {
        let rest = atoms.skip(1);
        lemma_first_paying(rest, shard);
        assert(atoms.contains(atoms[0]));
        if let Some(a) = first_paying(rest, shard) {
            let k = choose|k: int| 0 <= k < rest.len() && rest[k] == a;
            assert(atoms[k + 1] == a);
        } else if !shard.payable_with(atoms[0]) {
            assert forall|i: int| 0 <= i < atoms.len() implies !shard.payable_with(
                #[trigger] atoms[i],
            ) by {
                if i > 0 {
                    assert(rest[i - 1] == atoms[i]);
                }
            }
        }
    }
}

/// The mana that a source is used for is mana that it makes, and pays the symbol that it is used for;
/// for a symbol of colorless mana it is colorless where the source makes that.
pub proof fn law_mana_that_is_chosen(m: RefView, shard: ManaCostShard)
    requires
        m.atoms.len() > 0,
    ensures
        atom_for(m, shard) matches Some(a) ==> m.atoms.contains(a),
        atom_for(m, shard) matches Some(a) ==> (!shard.generic_like() && !shard.colorless()
            ==> shard.payable_with(a)),
        shard.colorless() && m.atoms.contains(32u16) ==> atom_for(m, shard) == Some(32u16),
        atom_for(m, shard) is None ==> forall|i: int|
            0 <= i < m.atoms.len() ==> !shard.payable_with(#[trigger] m.atoms[i]),
{
    lemma_first_paying(m.atoms, shard);
    assert(m.atoms.contains(m.atoms[0]));
}

/// All ways to pay are candidates, each once.
pub proof fn law_all_ways_are_candidates(
    game: GameState,
    refs: Seq<RefView>,
    prefer_higher: bool,
    i: usize,
)
    requires
        refs.len() <= usize::MAX,
    ensures
        candidates(game, refs, prefer_higher).contains(i) <==> i < refs.len(),
        candidates(game, refs, prefer_higher).len() == refs.len(),
{
    let all = all_places(refs.len());
    law_sorting(all, score_relation(game, refs, prefer_higher));
    lemma_sorted_holds(all, score_relation(game, refs, prefer_higher), i);
    if i < refs.len() {
        assert(all[i as int] == i);
    }
    if all.contains(i) {
        let k = choose|k: int| 0 <= k < all.len() && all[k] == i;
    }
}

/// Creatures are kept for last: a card that is one scores much more than if it were not. A land of
/// colorless mana is used before one of a color.
pub proof fn law_what_is_used_first(game: GameState, other: GameState, m: RefView, n: RefView)
    ensures
        game.card_at(m.card_id) is Some && other.card_at(m.card_id) == Some(
            crate::game::Card {
                types: crate::game::CardTypes {
                    creature: true,
                    ..game.card_at(m.card_id)->0.types
                },
                ..game.card_at(m.card_id)->0
            },
        ) && !game.card_at(m.card_id)->0.types.creature && source_score(game, m) < 1000
            ==> source_score(other, m) == source_score(game, m) + 26,
        game.card_at(m.card_id) is Some && game.card_at(n.card_id) is Some && !game.card_at(
            m.card_id,
        )->0.types.creature && !game.card_at(n.card_id)->0.types.creature && m.ability_index is None
            && n.ability_index is None && m.atoms == seq![32u16] && n.atoms.len() > 0 && n.atoms[0]
            != 32 ==> source_score(game, m) < source_score(game, n),
{
}

/// What a payment records of a use is the card, its ability and the cards that paid its cost.
pub proof fn law_what_is_recorded(m: RefView, atom: u16, cards: Seq<CardId>)
    ensures
        recorded(m, atom, cards).card_id == m.card_id,
        recorded(m, atom, cards).mana_ability_index == m.ability_index,
        recorded(m, atom, cards).cost_cards == cards,
        m.fixed_output() is None ==> recorded(m, atom, cards).chosen_atom == atom && (recorded(
            m,
            atom,
            cards,
        ).needs_express_choice <==> m.atoms.len() > 1),
{
}

// ---- the other costs of abilities ----

/// Life is paid only where there is as much, and then lost; whoever refuses loses nothing.
pub proof fn law_life_is_paid(
    scene: SceneOfPayment,
    st: PayingView,
    source: CardId,
    n: i32,
    answer: Option<AnswerView>,
)
    requires
        scene.game.player_at(scene.player) is Some,
        0 <= n,
        0 <= st.life_lost,
        st.life_lost + n <= i32::MAX,
        i32::MIN <= scene.game.player_at(scene.player)->0.life - st.life_lost - n,
    ensures
        ({
            let life = scene.game.player_at(scene.player)->0.life - st.life_lost;
            let (after, cards, ok) = part_paid(scene, st, source, CostPart::PayLife(n), answer);
            &&& part_payable(scene, st, source, CostPart::PayLife(n)) <==> life >= n
            &&& ok <==> life >= n && (answer matches Some(a) ==> a.confirmed)
            &&& ok ==> after.life_of(scene.game, scene.player) == life - n
            &&& !ok ==> after == st
            &&& after.tapped == st.tapped && after.moved == st.moved && after.counters == st.counters
            &&& cards.len() == 0
        }),
{
}

/// Counters are removed only where there are as many, and then are gone; others stay.
pub proof fn law_counters_are_removed(
    scene: SceneOfPayment,
    st: PayingView,
    source: CardId,
    part: CostPart,
    n: i32,
    kind: String,
    answer: Option<AnswerView>,
    other: Seq<char>,
    id: CardId,
)
    requires
        part == (CostPart::SubCounter { amount: n, counter_type: kind }),
        scene.game.card_at(source) is Some,
        0 <= n,
        other != kind@ || id != source,
    ensures
        ({
            let before = st.counters_on(scene.game, source, kind@);
            let (after, cards, ok) = part_paid(scene, st, source, part, answer);
            &&& part_payable(scene, st, source, part) <==> before >= n
            &&& ok <==> before >= n && (answer matches Some(a) ==> a.confirmed)
            &&& ok ==> after.counters_on(scene.game, source, kind@) == before - n
            &&& after.counters_on(scene.game, id, other) == st.counters_on(scene.game, id, other)
            &&& !ok ==> after == st
            &&& after.tapped == st.tapped && after.moved == st.moved && after.life_lost
                == st.life_lost
        }),
{
    let after = st.with_counters_removed(source, kind@, n);
    assert(after.counters.drop_last() =~= st.counters);
}

/// A card that is sacrificed or exiled for its own ability goes to the graveyard or to exile, from
/// where it must be.
pub proof fn law_source_pays_with_itself(
    scene: SceneOfPayment,
    st: PayingView,
    source: CardId,
    part: CostPart,
)
    requires
        scene.game.card_at(source) is Some,
    ensures
        part matches CostPart::Sacrifice { type_filter, amount } && type_filter@ == "CARDNAME"@
            && amount == 1 ==> ({
            let (after, cards, ok) = part_paid(scene, st, source, part, None);
            &&& ok <==> st.zone_of(scene.game, source) == Some(ZoneType::Battlefield)
            &&& ok ==> after.zone_of(scene.game, source) == Some(ZoneType::Graveyard)
            &&& part_payable(scene, st, source, part) ==> ok && !scene.reserved.contains(source)
        }),
        part matches CostPart::Exile { amount, from, of_source, .. } && of_source && amount == 1
            ==> ({
            let (after, cards, ok) = part_paid(scene, st, source, part, None);
            &&& ok <==> st.zone_of(scene.game, source) == Some(part->Exile_from)
            &&& ok ==> after.zone_of(scene.game, source) == Some(ZoneType::Exile)
            &&& part_payable(scene, st, source, part) <==> ok
        }),
{
    let one = seq![source];
    assert(one.drop_last() =~= Seq::<CardId>::empty());
    let outcomes = Seq::<crate::mana::cost_parts::MoveOutcome>::empty();
    assert(cards_sacrificed(scene.game, st, one.drop_last(), outcomes) == (st, true));
    assert(cards_exiled(scene.game, st, one.drop_last(), outcomes) == st);
}

proof fn lemma_wanted(
    scene: SceneOfPayment,
    st: PayingView,
    source: CardId,
    wanted: WantedView,
    ids: Seq<CardId>,
    id: CardId,
)
    ensures
        wanted_among(scene, st, source, wanted, ids).contains(id) <==> ids.contains(id)
            && crate::mana::cost_parts::is_wanted(scene, st, source, wanted, id),
    decreases ids.len(),
{
    let v = wanted_among(scene, st, source, wanted, ids);
    if ids.len() > 0 {
        let short = ids.drop_last();
        let before = wanted_among(scene, st, source, wanted, short);
        lemma_wanted(scene, st, source, wanted, short, id);
        if ids.contains(id) && id != ids.last() {
            let i = choose|i: int| 0 <= i < ids.len() && ids[i] == id;
            assert(short[i] == id);
        }
        if short.contains(id) {
            let i = choose|i: int| 0 <= i < short.len() && short[i] == id;
            assert(ids[i] == id);
        }
        assert(ids[ids.len() - 1] == ids.last());
        if before.contains(id) {
            let i = choose|i: int| 0 <= i < before.len() && before[i] == id;
            assert(v[i] == id);
        }
        if v.contains(id) {
            let i = choose|i: int| 0 <= i < v.len() && v[i] == id;
            if i < before.len() {
                assert(before[i] == id);
            }
        }
        if v.len() > before.len() {
            assert(v[before.len() as int] == ids.last());
        }
    }
}

/// The cards that can be sacrificed or tapped for a cost are in play under the player, are as the cost
/// asks, and are not held back for something else; those to tap are untapped, and the card itself is
/// among them only where it may be. Cards to exile are in their zone and may be exiled.
pub proof fn law_cards_that_costs_take(
    scene: SceneOfPayment,
    st: PayingView,
    source: CardId,
    filter: Seq<char>,
    can_tap_source: bool,
    zone: ZoneType,
    id: CardId,
)
    ensures
        targets(scene, st, source, WantedView::Sacrifice { filter }, zone).contains(id) <==> st.in_zone(
            scene.game,
            zone,
            scene.player,
        ).contains(id) && scene.game.facts.matches_card(filter, source, scene.player, id)
            && !scene.reserved.contains(id) && (scene.reuse || scene.spell != Some(id)),
        targets(scene, st, source, WantedView::Tap { filter, can_tap_source }, zone).contains(id)
            <==> st.in_zone(scene.game, zone, scene.player).contains(id)
            && scene.game.facts.matches_card(filter, source, scene.player, id)
            && !scene.reserved.contains(id) && (scene.reuse || scene.spell != Some(id))
            && !st.tapped.contains(id) && !(scene.game.card_at(id) matches Some(c) && c.tapped) && (
        can_tap_source || id != source),
        targets(scene, st, source, WantedView::Exile { filter }, zone).contains(id) <==> st.in_zone(
            scene.game,
            zone,
            scene.player,
        ).contains(id) && scene.game.facts.matches_card(filter, source, scene.player, id)
            && !scene.game.facts.cant_exile@.contains(id),
        targets(scene, st, source, WantedView::Evidence, zone).contains(id) <==> st.in_zone(
            scene.game,
            zone,
            scene.player,
        ).contains(id) && !scene.game.facts.cant_exile@.contains(id),
{
    let ids = st.in_zone(scene.game, zone, scene.player);
    lemma_wanted(scene, st, source, WantedView::Sacrifice { filter }, ids, id);
    lemma_wanted(scene, st, source, WantedView::Tap { filter, can_tap_source }, ids, id);
    lemma_wanted(scene, st, source, WantedView::Exile { filter }, ids, id);
    lemma_wanted(scene, st, source, WantedView::Evidence, ids, id);
}

proof fn lemma_all_sacrificed(game: GameState, st: PayingView, ids: Seq<CardId>)
    ensures
        cards_sacrificed(game, st, ids, Seq::empty()).1,
    decreases ids.len(),
{
    if ids.len() > 0 {
        lemma_all_sacrificed(game, st, ids.drop_last());
    }
}

proof fn lemma_evidence(game: GameState, ids: Seq<CardId>, n: nat, required: i32)
    requires
        n <= ids.len(),
        cmc_sum(game, ids) >= required,
    ensures
        cmc_sum(game, enough_evidence(game, ids, n, required)) >= required,
    decreases ids.len() - n,
{
    if n >= ids.len() {
        assert(ids.take(n as int) =~= ids);
    } else if cmc_sum(game, ids.take(n as int)) < required {
        lemma_evidence(game, ids, n + 1, required);
    }
}

/// A cost that can be paid is paid, where nobody is asked: only evidence of nothing needs a card all
/// the same.
pub proof fn law_payable_costs_are_paid(
    scene: SceneOfPayment,
    st: PayingView,
    source: CardId,
    part: CostPart,
)
    requires
        part_payable(scene, st, source, part),
        !(part matches CostPart::CollectEvidence(n) && n <= 0),
    ensures
        part_paid(scene, st, source, part, None).2,
{
    let none = Seq::<crate::mana::cost_parts::MoveOutcome>::empty();
    match part {
        CostPart::Sacrifice { type_filter, amount } => {
            let valid = targets(
                scene,
                st,
                source,
                WantedView::Sacrifice { filter: type_filter@ },
                ZoneType::Battlefield,
            );
            law_sorting(
                valid,
                relation::<CardId, ByName<'_>>(ByName { game: &scene.game }),
            );
            let sorted = sacrifice_targets(scene, st, source, type_filter@);
            assert(sorted.len() == valid.len());
            lemma_all_sacrificed(scene.game, st, seq![source]);
            lemma_all_sacrificed(
                scene.game,
                st,
                first_each(
                    sorted,
                    if amount < 0 {
                        0
                    } else {
                        amount as nat
                    },
                ),
            );
        },
        CostPart::CollectEvidence(amount) => {
            let valid = targets(scene, st, source, WantedView::Evidence, ZoneType::Graveyard);
            lemma_evidence(scene.game, valid, 0, amount);
            if valid.len() == 0 {
                assert(cmc_sum(scene.game, valid) == 0);
            }
        },
        _ => {},
    }
}

/// So many cards are tapped for a cost of tapping cards: each was among those that could be, and is
/// tapped then.
pub proof fn law_cards_are_tapped_for_costs(
    scene: SceneOfPayment,
    st: PayingView,
    source: CardId,
    part: CostPart,
    n: i32,
    filter: String,
    own: bool,
    i: int,
)
    requires
        n > 0,
        part == (CostPart::TapType {
            amount: n,
            type_filter: filter,
            min_total_power: None,
            can_tap_source: own,
        }),
    ensures
        ({
            let valid = targets(
                scene,
                st,
                source,
                WantedView::Tap { filter: filter@, can_tap_source: own },
                ZoneType::Battlefield,
            );
            let (after, cards, ok) = part_paid(scene, st, source, part, None);
            &&& ok <==> valid.len() >= n
            &&& ok ==> cards.len() == n
            &&& !ok ==> after == st
            &&& 0 <= i < cards.len() ==> valid.contains(cards[i]) && after.tapped.contains(cards[i])
        }),
{
    let valid = targets(
        scene,
        st,
        source,
        WantedView::Tap { filter: filter@, can_tap_source: own },
        ZoneType::Battlefield,
    );
    let less = relation::<CardId, ByName<'_>>(ByName { game: &scene.game });
    law_sorting(valid, less);
    let sorted = by_name(scene.game, valid);
    let (after, cards, ok) = part_paid(scene, st, source, part, None);
    if 0 <= i < cards.len() {
        assert(cards[i] == sorted[i]);
        assert(sorted.contains(sorted[i]));
        lemma_sorted_holds(valid, less, sorted[i]);
        assert(after.tapped[st.tapped.len() + i] == cards[i]);
    }
}

proof fn lemma_enough_power(game: GameState, ids: Seq<CardId>, n: nat, threshold: i32)
    ensures
        ({
            let v = enough_power(game, ids, n, threshold);
            v.len() > 0 ==> power_sum(game, v) >= threshold && v == ids.take(v.len() as int)
        }),
    decreases ids.len() - n,
{
    if n < ids.len() && power_sum(game, ids.take(n as int + 1)) < threshold {
        lemma_enough_power(game, ids, n + 1, threshold);
    } else if n < ids.len() {
        assert(ids.take(n as int + 1).len() == n + 1);
    }
}

/// Cards that are tapped for their power have as much as is asked together.
pub proof fn law_power_is_tapped(
    scene: SceneOfPayment,
    st: PayingView,
    source: CardId,
    n: i32,
    filter: Seq<char>,
    threshold: i32,
    own: bool,
    answer: Option<AnswerView>,
)
    ensures
        ({
            let v = tap_choice(scene, st, source, n, filter, Some(threshold), own, answer);
            v.len() > 0 ==> power_sum(scene.game, v) >= threshold
        }),
{
    let valid = targets(
        scene,
        st,
        source,
        WantedView::Tap { filter, can_tap_source: own },
        ZoneType::Battlefield,
    );
    lemma_enough_power(scene.game, by_power(scene.game, valid), 0, threshold);
}

// ---- life in place of mana ----

proof fn lemma_times_two(n: nat)
    requires
        2 * n <= i32::MAX,
    ensures
        times_two(n) == 2 * n,
    decreases n,
{
    if n > 0 {
        lemma_times_two((n - 1) as nat);
    }
}

/// Life pays only what is left of symbols that life pays, all of them at once and at two for each;
/// nothing is lost otherwise.
pub proof fn law_life_in_place_of_mana(u: Unpaid, life: i32)
    requires
        2 * life_payments(u.left) <= i32::MAX,
    ensures
        ({
            let (v, n) = life_paid(u, life);
            &&& n != 0 ==> v.left.len() == 0 && n == 2 * life_payments(u.left) && forall|i: int|
                0 <= i < u.left.len() ==> (#[trigger] u.left[i]).shard.phyrexian()
            &&& n == 0 ==> v == u
            &&& u.left.len() == 0 ==> n == 0
        }),
{
    lemma_times_two(life_payments(u.left));
    if u.left.len() > 0 {
        lemma_some_payments(u.left);
    }
}

proof fn lemma_some_payments(left: Seq<ShardCount>)
    requires
        left.len() > 0,
    ensures
        life_payments(left) > 0,
{
}

} // verus!
