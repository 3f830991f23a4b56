//! What a payment asks, how earlier answers are given again, and lists of sources for callers.

use vstd::prelude::*;
use crate::game::GameState;
use crate::lists::{copy_cards, has_card};
use crate::mana::ability::{
    ability_used, check_tap, has_tap, mana_ability_of, ActivatedAbility, CostPart, RefView,
};
use crate::mana::apply::{apply_payment, game_paid};
use crate::mana::atoms::{copy_atoms, has_atom, COLORLESS};
use crate::mana::cost_parts::{
    answer_of, answer_views, at_least_none, by_name, by_power, count_asked, drop_card,
    first_each, lemma_stopped, list_first_each, list_sacrifice_targets, list_targets, part_answer, part_paid, parts_paid,
    pay_part, sacrifice_targets, sacrificed, take_answer, take_cards, targets, without_card,
    AnswerView, ByName, ByPower, MoveOutcome, PartAnswer, PayScene, SceneOfPayment, Wanted,
    WantedView,
};
use crate::mana::paying::{nothing_paid, Paying, PayingView};
use crate::mana::pool::{ManaPool, ManaProductionParams, ManaView};
use crate::mana::produce::{
    made_entries, made_text, produce_mana_for_auto_pay, tapped_for,
};
use crate::mana::riders::{no_riders, ManaRiders};
use crate::mana::sources::{
    available_sources, get_available_mana_sources, is_payable_mana_ability, mana_ability_payable,
    ref_with, make_ref, base_amount, parse_mana_ability_amount,
};
use crate::mana::pool::text_atoms;
use crate::parsing::params::string_of;
use crate::sorting::sort_by;
use crate::text::text_eq;
use crate::types::{CardId, PlayerId, ZoneType};

verus! {

/// What a payment asks of its player, or asks to be done.
pub enum ManaPayCallback {
    ChooseSacrifice(Vec<CardId>),
    ChooseColor(Vec<String>),
    ChooseManaColor { options: Vec<String> },
    ChooseManaFromPool { mana_choices: Vec<u16>, has_converge: bool },
    ChooseCards { valid: Vec<CardId>, min: usize, max: usize },
    ConfirmSelfSacrifice(CardId),
    ConfirmSubCounter(CardId),
    ConfirmSourceExile(CardId),
    ConfirmPayLife(CardId),
    NotifySacrificeForMana(CardId),
    ExileCostCardsForMana { player: PlayerId, cards: Vec<CardId>, collect_evidence: bool },
    ApplyProduceManaReplacement { activator: PlayerId, source_card: CardId, mana: String },
}

/// What is asked about a part of a cost.
#[verifier::ext_equal]
pub enum Question {
    Nothing,
    SelfSacrifice(CardId),
    SubCounter(CardId),
    SourceExile(CardId),
    PayLife(CardId),
    Sacrifice { valid: Seq<CardId> },
    Cards { valid: Seq<CardId>, min: int, max: int },
}

/// A list without the cards that were picked of it.
pub open spec fn without_picked(ids: Seq<CardId>, picks: Seq<Option<CardId>>) -> Seq<CardId>
    decreases picks.len(),
{
    if picks.len() == 0 {
        ids
    } else {
        let before = without_picked(ids, picks.drop_last());
        match picks.last() {
            Some(id) => without_card(before, id),
            None => before,
        }
    }
}

fn drop_picked(ids: Vec<CardId>, picks: &Vec<Option<CardId>>) -> (r: Vec<CardId>)
    ensures
        r@ == without_picked(ids@, picks@),
{
    let ghost start = ids@;
    let ghost all = picks@;
    let mut out = ids;
    let mut i: usize = 0;
    while i < picks.len()
        invariant
            i <= all.len(),
            all == picks@,
            out@ == without_picked(start, all.take(i as int)),
        decreases all.len() - i,
    {
        assert(all.take(i + 1).drop_last() =~= all.take(i as int));
        assert(all.take(i + 1).last() == all[i as int]);
        if let Some(id) = picks[i] {
            out = drop_card(&out, id);
        }
        i = i + 1;
    }
    assert(all.take(i as int) =~= all);
    out
}

/// What is asked about a part of the cost of a source; nothing where it cannot be paid or needs no
/// answer. Cards to sacrifice are picked one after the other: `picks` has what was answered so far.
/// Every other part is asked about once.
pub open spec fn question(
    scene: SceneOfPayment,
    st: PayingView,
    source: CardId,
    part: CostPart,
    picks: Seq<Option<CardId>>,
) -> Question {
    let game = scene.game;
    match part {
        CostPart::Sacrifice { type_filter, amount } if type_filter@ != "CARDNAME"@ => {
            let valid = sacrifice_targets(scene, st, source, type_filter@);
            if valid.len() < at_least_none(amount) || picks.len() >= at_least_none(amount) {
                Question::Nothing
            } else {
                Question::Sacrifice { valid: without_picked(valid, picks) }
            }
        },
        _ if picks.len() > 0 => Question::Nothing,
        CostPart::PayLife(amount) => if st.life_of(game, scene.player) < amount {
            Question::Nothing
        } else {
            Question::PayLife(source)
        },
        CostPart::SubCounter { amount, counter_type } => if st.counters_on(
            game,
            source,
            counter_type@,
        ) < amount {
            Question::Nothing
        } else {
            Question::SubCounter(source)
        },
        CostPart::Sacrifice { amount, .. } => if amount > 1 || st.zone_of(game, source) != Some(
            ZoneType::Battlefield,
        ) {
            Question::Nothing
        } else {
            Question::SelfSacrifice(source)
        },
        CostPart::Exile { amount, from, type_filter, of_source } => if of_source {
            if amount > 1 || st.zone_of(game, source) != Some(from) {
                Question::Nothing
            } else {
                Question::SourceExile(source)
            }
        } else {
            let valid = targets(
                scene,
                st,
                source,
                WantedView::Exile { filter: type_filter@ },
                from,
            );
            if valid.len() < at_least_none(amount) || at_least_none(amount) == 0 {
                Question::Nothing
            } else {
                Question::Cards { valid, min: at_least_none(amount), max: at_least_none(amount) }
            }
        },
        CostPart::CollectEvidence(_) => {
            let valid = targets(scene, st, source, WantedView::Evidence, ZoneType::Graveyard);
            if valid.len() == 0 {
                Question::Nothing
            } else {
                Question::Cards { valid, min: 0, max: valid.len() as int }
            }
        },
        CostPart::TapType { amount, type_filter, min_total_power, can_tap_source } => {
            let found = targets(
                scene,
                st,
                source,
                WantedView::Tap { filter: type_filter@, can_tap_source },
                ZoneType::Battlefield,
            );
            match min_total_power {
                Some(_) => Question::Cards {
                    valid: by_power(game, found),
                    min: 1,
                    max: found.len() as int,
                },
                None => if found.len() < at_least_none(amount) {
                    Question::Nothing
                } else {
                    Question::Cards {
                        valid: by_name(game, found),
                        min: at_least_none(amount),
                        max: at_least_none(amount),
                    }
                },
            }
        },
        _ => Question::Nothing,
    }
}

/// The question that something asked is.
pub open spec fn asked(q: Option<ManaPayCallback>) -> Question {
    match q {
        Some(ManaPayCallback::ConfirmSelfSacrifice(id)) => Question::SelfSacrifice(id),
        Some(ManaPayCallback::ConfirmSubCounter(id)) => Question::SubCounter(id),
        Some(ManaPayCallback::ConfirmSourceExile(id)) => Question::SourceExile(id),
        Some(ManaPayCallback::ConfirmPayLife(id)) => Question::PayLife(id),
        Some(ManaPayCallback::ChooseSacrifice(v)) => Question::Sacrifice { valid: v@ },
        Some(ManaPayCallback::ChooseCards { valid, min, max }) => Question::Cards {
            valid: valid@,
            min: min as int,
            max: max as int,
        },
        _ => Question::Nothing,
    }
}

/// Says what is asked about a part of the cost of a source.
pub fn payment_question(
    scene: PayScene<'_>,
    st: &Paying,
    source: CardId,
    part: &CostPart,
    picks: &Vec<Option<CardId>>,
) -> (r: Option<ManaPayCallback>)
    ensures
        asked(r) == question(scene@, st@, source, *part, picks@),
        r is None == (question(scene@, st@, source, *part, picks@) is Nothing),
{
    let game = scene.game;
    if let CostPart::Sacrifice { type_filter, amount } = part {
        if !text_eq(type_filter.as_str(), "CARDNAME") {
            let valid = list_sacrifice_targets(scene, st, source, type_filter.as_str());
            let n: usize = count_asked(*amount);
            if valid.len() < n || picks.len() >= n {
                return None;
            }
            return Some(ManaPayCallback::ChooseSacrifice(drop_picked(valid, picks)));
        }
    }
    if picks.len() > 0 {
        return None;
    }
    match part {
        CostPart::PayLife(amount) => if st.find_life(game, scene.player) < *amount {
            None
        } else {
            Some(ManaPayCallback::ConfirmPayLife(source))
        },
        CostPart::SubCounter { amount, counter_type } => if st.count_counters(
            game,
            source,
            counter_type.as_str(),
        ) < *amount {
            None
        } else {
            Some(ManaPayCallback::ConfirmSubCounter(source))
        },
        CostPart::Sacrifice { amount, .. } => {
            let there = match st.find_zone(game, source) {
                Some(z) => z == ZoneType::Battlefield,
                None => false,
            };
            if *amount > 1 || !there {
                None
            } else {
                Some(ManaPayCallback::ConfirmSelfSacrifice(source))
            }
        },
        CostPart::Exile { amount, from, type_filter, of_source } => {
            if *of_source {
                let there = match st.find_zone(game, source) {
                    Some(z) => z == *from,
                    None => false,
                };
                return if *amount > 1 || !there {
                    None
                } else {
                    Some(ManaPayCallback::ConfirmSourceExile(source))
                };
            }
            let valid = list_targets(
                scene,
                st,
                source,
                &Wanted::Exile { filter: type_filter.as_str() },
                *from,
            );
            let n: usize = count_asked(*amount);
            if valid.len() < n || n == 0 {
                None
            } else {
                Some(ManaPayCallback::ChooseCards { valid, min: n, max: n })
            }
        },
        CostPart::CollectEvidence(_) => {
            let valid = list_targets(scene, st, source, &Wanted::Evidence, ZoneType::Graveyard);
            let n: usize = valid.len();
            if n == 0 {
                None
            } else {
                Some(ManaPayCallback::ChooseCards { valid, min: 0, max: n })
            }
        },
        CostPart::TapType { amount, type_filter, min_total_power, can_tap_source } => {
            let found = list_targets(
                scene,
                st,
                source,
                &Wanted::Tap { filter: type_filter.as_str(), can_tap_source: *can_tap_source },
                ZoneType::Battlefield,
            );
            match min_total_power {
                Some(_) => {
                    let n: usize = found.len();
                    let valid = sort_by(&found, &ByPower { game });
                    Some(ManaPayCallback::ChooseCards { valid, min: 1, max: n })
                },
                None => {
                    let n: usize = count_asked(*amount);
                    if found.len() < n {
                        None
                    } else {
                        let valid = sort_by(&found, &ByName { game });
                        Some(ManaPayCallback::ChooseCards { valid, min: n, max: n })
                    }
                },
            }
        },
        _ => None,
    }
}

/// What is asked next when an ability of a source is used, once some parts of its cost have been
/// answered and paid: nothing behind a part that is not paid.
pub open spec fn next_question(
    scene: SceneOfPayment,
    st: PayingView,
    source: CardId,
    parts: Seq<CostPart>,
    answers: Seq<AnswerView>,
    picks: Seq<Option<CardId>>,
) -> Question {
    if answers.len() >= parts.len() {
        Question::Nothing
    } else {
        let n = answers.len() as int;
        let (s, _, ok) = parts_paid(scene, st, source, parts.take(n), answers);
        if ok {
            question(scene, s, source, parts[n], picks)
        } else {
            Question::Nothing
        }
    }
}

/// Says what is asked next when an ability of a source is used. `answers` are those about the first
/// parts of its cost, one each, and `picks` what was answered about the part behind them.
pub fn next_payment_question(
    scene: PayScene<'_>,
    st: &Paying,
    card: CardId,
    index: Option<usize>,
    answers: &Vec<PartAnswer>,
    picks: &Vec<Option<CardId>>,
) -> (r: Option<ManaPayCallback>)
    ensures
        asked(r) == (match ability_used(*scene.game, card, index) {
            Some(ab) => next_question(
                scene@,
                st@,
                card,
                ab.cost@,
                answer_views(answers@),
                picks@,
            ),
            None => Question::Nothing,
        }),
        r is None == (asked(r) is Nothing),
{
    let ab = match mana_ability_of(scene.game, card, index) {
        Some(a) => a,
        None => {
            return None;
        },
    };
    if answers.len() >= ab.cost.len() {
        return None;
    }
    let ghost views = answer_views(answers@);
    let ghost all = ab.cost@.take(answers@.len() as int);
    let mut now = st.copy();
    let mut taken: Vec<CardId> = Vec::new();
    let mut i: usize = 0;
    while i < answers.len()
        invariant
            i <= answers@.len() < ab.cost@.len(),
            all == ab.cost@.take(answers@.len() as int),
            ability_used(*scene.game, card, index) == Some(*ab),
            views == answer_views(answers@),
            now@ == parts_paid(scene@, st@, card, all.take(i as int), views).0,
            parts_paid(scene@, st@, card, all.take(i as int), views).2,
        decreases answers@.len() - i,
    {
        assert(all.take(i + 1).drop_last() =~= all.take(i as int));
        assert(all.take(i + 1).last() == ab.cost@[i as int]);
        assert(part_answer(Some(views), i as int) == Some(answers@[i as int]@));
        if !pay_part(scene, &mut now, card, &ab.cost[i], Some(&answers[i]), &mut taken) {
            proof {
                lemma_stopped(scene@, st@, card, all, views, i + 1);
            }
            return None;
        }
        i = i + 1;
    }
    assert(all.take(i as int) =~= all);
    payment_question(scene, &now, card, &ab.cost[i], picks)
}

/// Once a part of a cost is not paid, nothing more is asked, whatever else is answered.
pub proof fn law_nothing_is_asked_after_a_refusal(
    scene: SceneOfPayment,
    st: PayingView,
    source: CardId,
    parts: Seq<CostPart>,
    answers: Seq<AnswerView>,
    picks: Seq<Option<CardId>>,
    n: int,
)
    requires
        0 <= n <= answers.len() < parts.len(),
        !parts_paid(scene, st, source, parts.take(n), answers).2,
    ensures
        next_question(scene, st, source, parts, answers, picks) is Nothing,
        !parts_paid(scene, st, source, parts, answers).2,
{
    let first = parts.take(answers.len() as int);
    assert(first.take(n) =~= parts.take(n));
    lemma_stopped(scene, st, source, first, answers, n);
    lemma_stopped(scene, st, source, parts, answers, n);
}

/// A source that is to be sacrificed for its own ability is asked about first, by name. Where that
/// is refused, the ability is not used, and nothing has changed.
pub proof fn law_refused_sacrifice_changes_nothing(
    scene: SceneOfPayment,
    st: PayingView,
    source: CardId,
    part: CostPart,
    answer: AnswerView,
)
    requires
        part matches CostPart::Sacrifice { type_filter, amount } && type_filter@ == "CARDNAME"@
            && amount <= 1,
        st.zone_of(scene.game, source) == Some(ZoneType::Battlefield),
        !answer.confirmed,
    ensures
        question(scene, st, source, part, Seq::empty()) == Question::SelfSacrifice(source),
        part_paid(scene, st, source, part, Some(answer)) == (st, Seq::<CardId>::empty(), false),
        notice(scene, st, source, part, answer) is Nothing,
{
}

// ---- what is to be done with cards that pay ----

/// What is asked to be done with cards that pay for a part of a cost.
#[verifier::ext_equal]
pub enum Notice {
    Nothing,
    Sacrifice(CardId),
    Exile { player: PlayerId, cards: Seq<CardId>, collect_evidence: bool },
}

/// The cards that an answer has sacrificed for a part of a cost.
pub open spec fn to_sacrifice(
    scene: SceneOfPayment,
    st: PayingView,
    source: CardId,
    part: CostPart,
    answer: AnswerView,
) -> Seq<CardId> {
    match part {
        CostPart::Sacrifice { type_filter, amount } => if type_filter@ == "CARDNAME"@ {
            if question(scene, st, source, part, Seq::empty()) is SelfSacrifice
                && answer.confirmed {
                seq![source]
            } else {
                Seq::empty()
            }
        } else {
            let valid = sacrifice_targets(scene, st, source, type_filter@);
            if valid.len() < at_least_none(amount) {
                Seq::empty()
            } else {
                sacrificed(valid, at_least_none(amount), Some(answer))
            }
        },
        _ => Seq::empty(),
    }
}

/// Whether all outcomes pay.
pub open spec fn all_pay(outcomes: Seq<MoveOutcome>) -> bool {
    forall|i: int| 0 <= i < outcomes.len() ==> (#[trigger] outcomes[i]).paid
}

fn check_all_pay(outcomes: &Vec<MoveOutcome>) -> (r: bool)
    ensures
        r == all_pay(outcomes@),
{
    let mut i: usize = 0;
    while i < outcomes.len()
        invariant
            i <= outcomes@.len(),
            forall|k: int| 0 <= k < i ==> (#[trigger] outcomes@[k]).paid,
        decreases outcomes@.len() - i,
    {
        if !outcomes[i].paid {
            assert(!outcomes@[i as int].paid);
            return false;
        }
        i = i + 1;
    }
    true
}

/// What is asked to be done next with the cards that an answer pays with. Cards are sacrificed one
/// after the other, as long as that pays; cards are exiled together.
pub open spec fn notice(
    scene: SceneOfPayment,
    st: PayingView,
    source: CardId,
    part: CostPart,
    answer: AnswerView,
) -> Notice {
    let done = answer.outcomes.len();
    let exiled = question(scene, st, source, part, Seq::empty()) != Question::Nothing && part_paid(
        scene,
        st,
        source,
        part,
        Some(answer),
    ).2 && done == 0;
    match part {
        CostPart::Sacrifice { .. } => {
            let ids = to_sacrifice(scene, st, source, part, answer);
            if done < ids.len() && all_pay(answer.outcomes) {
                Notice::Sacrifice(ids[done as int])
            } else {
                Notice::Nothing
            }
        },
        CostPart::Exile { of_source, .. } if exiled => Notice::Exile {
            player: scene.player,
            cards: if of_source {
                seq![source]
            } else {
                answer.cards
            },
            collect_evidence: false,
        },
        CostPart::CollectEvidence(_) if exiled => Notice::Exile {
            player: scene.player,
            cards: answer.cards,
            collect_evidence: true,
        },
        _ => Notice::Nothing,
    }
}

/// What something that is asked to be done is.
pub open spec fn noticed(q: Option<ManaPayCallback>) -> Notice {
    match q {
        Some(ManaPayCallback::NotifySacrificeForMana(id)) => Notice::Sacrifice(id),
        Some(ManaPayCallback::ExileCostCardsForMana { player, cards, collect_evidence }) =>
        Notice::Exile { player, cards: cards@, collect_evidence },
        _ => Notice::Nothing,
    }
}

fn list_to_sacrifice(
    scene: PayScene<'_>,
    st: &Paying,
    source: CardId,
    part: &CostPart,
    answer: &PartAnswer,
) -> (r: Vec<CardId>)
    ensures
        r@ == to_sacrifice(scene@, st@, source, *part, answer@),
{
    let mut out: Vec<CardId> = Vec::new();
    if let CostPart::Sacrifice { type_filter, amount } = part {
        if text_eq(type_filter.as_str(), "CARDNAME") {
            let none: Vec<Option<CardId>> = Vec::new();
            assert(none@ =~= Seq::<Option<CardId>>::empty());
            if payment_question(scene, st, source, part, &none).is_some() && answer.confirmed {
                out.push(source);
                assert(out@ =~= seq![source]);
            }
        } else {
            let valid = list_sacrifice_targets(scene, st, source, type_filter.as_str());
            let n: usize = count_asked(*amount);
            if valid.len() >= n {
                return take_answer(answer, n);
            }
        }
    }
    out
}

/// Says what is asked to be done next with the cards that an answer pays with; the outcomes in the
/// answer are those of what was done before.
pub fn payment_notice(
    scene: PayScene<'_>,
    st: &Paying,
    source: CardId,
    part: &CostPart,
    answer: &PartAnswer,
) -> (r: Option<ManaPayCallback>)
    ensures
        noticed(r) == notice(scene@, st@, source, *part, answer@),
        r is None == (notice(scene@, st@, source, *part, answer@) is Nothing),
{
    let none: Vec<Option<CardId>> = Vec::new();
    assert(none@ =~= Seq::<Option<CardId>>::empty());
    match part {
        CostPart::Sacrifice { .. } => {
            let ids = list_to_sacrifice(scene, st, source, part, answer);
            let done: usize = answer.outcomes.len();
            if done < ids.len() && check_all_pay(&answer.outcomes) {
                Some(ManaPayCallback::NotifySacrificeForMana(ids[done]))
            } else {
                None
            }
        },
        CostPart::Exile { of_source, .. } => {
            if answer.outcomes.len() > 0 || payment_question(scene, st, source, part, &none).is_none() {
                return None;
            }
            let mut now = st.copy();
            let mut taken: Vec<CardId> = Vec::new();
            if !pay_part(scene, &mut now, source, part, Some(answer), &mut taken) {
                return None;
            }
            let mut cards: Vec<CardId> = Vec::new();
            if *of_source {
                cards.push(source);
                assert(cards@ =~= seq![source]);
            } else {
                cards = copy_cards(&answer.cards);
            }
            Some(
                ManaPayCallback::ExileCostCardsForMana {
                    player: scene.player,
                    cards,
                    collect_evidence: false,
                },
            )
        },
        CostPart::CollectEvidence(_) => {
            if answer.outcomes.len() > 0 || payment_question(scene, st, source, part, &none).is_none() {
                return None;
            }
            let mut now = st.copy();
            let mut taken: Vec<CardId> = Vec::new();
            if !pay_part(scene, &mut now, source, part, Some(answer), &mut taken) {
                return None;
            }
            Some(
                ManaPayCallback::ExileCostCardsForMana {
                    player: scene.player,
                    cards: copy_cards(&answer.cards),
                    collect_evidence: true,
                },
            )
        },
        _ => None,
    }
}

// ---- all that a use asks ----

/// What was picked of cards to sacrifice before a pick, by the cards of an answer.
pub open spec fn picks_of(answer: Option<AnswerView>, n: int) -> Seq<Option<CardId>> {
    Seq::new(
        n as nat,
        |i: int|
            match answer {
                Some(a) if i < a.cards.len() => Some(a.cards[i]),
                _ => None,
            },
    )
}

/// All that is asked about a part of a cost, in its order.
pub open spec fn part_questions(
    scene: SceneOfPayment,
    st: PayingView,
    source: CardId,
    part: CostPart,
    answer: Option<AnswerView>,
) -> Seq<Question> {
    match part {
        CostPart::Sacrifice { type_filter, amount } if type_filter@ != "CARDNAME"@ => {
            let n = at_least_none(amount);
            if sacrifice_targets(scene, st, source, type_filter@).len() < n {
                Seq::empty()
            } else {
                Seq::new(
                    n as nat,
                    |k: int| question(scene, st, source, part, picks_of(answer, k)),
                )
            }
        },
        _ => {
            let q = question(scene, st, source, part, Seq::empty());
            if q is Nothing {
                Seq::empty()
            } else {
                seq![q]
            }
        },
    }
}

/// All that is asked when parts of a cost are paid: nothing behind a part that is not paid.
pub open spec fn all_questions(
    scene: SceneOfPayment,
    st: PayingView,
    source: CardId,
    parts: Seq<CostPart>,
    answers: Seq<AnswerView>,
) -> Seq<Question>
    decreases parts.len(),
{
    if parts.len() == 0 {
        Seq::empty()
    } else {
        let before = all_questions(scene, st, source, parts.drop_last(), answers);
        let (s, _, ok) = parts_paid(scene, st, source, parts.drop_last(), answers);
        if ok {
            before + part_questions(
                scene,
                s,
                source,
                parts.last(),
                part_answer(Some(answers), parts.len() - 1),
            )
        } else {
            before
        }
    }
}

proof fn lemma_no_more_questions(
    scene: SceneOfPayment,
    st: PayingView,
    source: CardId,
    parts: Seq<CostPart>,
    answers: Seq<AnswerView>,
    n: int,
)
    requires
        0 <= n <= parts.len(),
        !parts_paid(scene, st, source, parts.take(n), answers).2,
    ensures
        all_questions(scene, st, source, parts, answers) == all_questions(
            scene,
            st,
            source,
            parts.take(n),
            answers,
        ),
    decreases parts.len() - n,
{
    if n < parts.len() {
        let less = parts.drop_last();
        assert(less.take(n) =~= parts.take(n));
        lemma_stopped(scene, st, source, less, answers, n);
        lemma_no_more_questions(scene, st, source, less, answers, n);
    } else {
        assert(parts.take(n) =~= parts);
    }
}

/// Where a source is to be sacrificed for its own ability and that is refused, this is the last
/// that is asked, and what was paid before is all that was paid. In particular a source that only
/// taps besides is asked about once, and nothing has changed.
pub proof fn law_refused_sacrifice_is_asked_last(
    scene: SceneOfPayment,
    st: PayingView,
    source: CardId,
    parts: Seq<CostPart>,
    answers: Seq<AnswerView>,
    n: int,
)
    requires
        0 <= n < parts.len(),
        n < answers.len(),
        parts_paid(scene, st, source, parts.take(n), answers).2,
        parts[n] matches CostPart::Sacrifice { type_filter, amount } && type_filter@
            == "CARDNAME"@ && amount <= 1,
        parts_paid(scene, st, source, parts.take(n), answers).0.zone_of(scene.game, source)
            == Some(ZoneType::Battlefield),
        !answers[n].confirmed,
    ensures
        all_questions(scene, st, source, parts, answers) == all_questions(
            scene,
            st,
            source,
            parts.take(n),
            answers,
        ).push(Question::SelfSacrifice(source)),
        parts_paid(scene, st, source, parts, answers) == (
            parts_paid(scene, st, source, parts.take(n), answers).0,
            parts_paid(scene, st, source, parts.take(n), answers).1,
            false,
        ),
        n == 1 && parts[0] is Tap ==> {
            &&& all_questions(scene, st, source, parts, answers) == seq![
                Question::SelfSacrifice(source),
            ]
            &&& parts_paid(scene, st, source, parts, answers) == (
                st,
                Seq::<CardId>::empty(),
                false,
            )
        },
{
    let first = parts.take(n);
    let with = parts.take(n + 1);
    let (s, cards, _) = parts_paid(scene, st, source, first, answers);
    assert(with.drop_last() =~= first);
    assert(with.last() == parts[n]);
    law_refused_sacrifice_changes_nothing(scene, s, source, parts[n], answers[n]);
    assert(part_answer(Some(answers), n) == Some(answers[n]));
    let q = Question::SelfSacrifice(source);
    let before = all_questions(scene, st, source, first, answers);
    assert(before + seq![q] =~= before.push(q));
    assert(cards + Seq::<CardId>::empty() =~= cards);
    lemma_stopped(scene, st, source, parts, answers, n + 1);
    lemma_no_more_questions(scene, st, source, parts, answers, n + 1);
    if n == 1 && parts[0] is Tap {
        assert(first.drop_last() =~= Seq::<CostPart>::empty());
        assert(first.last() == parts[0]);
        let none = first.drop_last();
        assert(all_questions(scene, st, source, none, answers) =~= Seq::<Question>::empty());
        assert(parts_paid(scene, st, source, none, answers) == (st, Seq::<CardId>::empty(), true));
        let answer = part_answer(Some(answers), 0);
        assert(part_questions(scene, st, source, parts[0], answer) =~= Seq::<Question>::empty());
        assert(before =~= Seq::<Question>::empty());
        assert(before.push(q) =~= seq![q]);
        assert(cards =~= Seq::<CardId>::empty());
    }
}

// ---- answers given again ----

/// The cards of a list that are in another.
pub open spec fn common(ids: Seq<CardId>, others: Seq<CardId>) -> Seq<CardId>
    decreases ids.len(),
{
    if ids.len() == 0 {
        Seq::empty()
    } else {
        let before = common(ids.drop_last(), others);
        if others.contains(ids.last()) {
            before.push(ids.last())
        } else {
            before
        }
    }
}

fn list_common(ids: &Vec<CardId>, others: &Vec<CardId>) -> (r: Vec<CardId>)
    ensures
        r@ == common(ids@, others@),
{
    let ghost all = ids@;
    let mut out: Vec<CardId> = Vec::new();
    let mut i: usize = 0;
    while i < ids.len()
        invariant
            i <= all.len(),
            all == ids@,
            out@ == common(all.take(i as int), others@),
        decreases all.len() - i,
    {
        assert(all.take(i + 1).drop_last() =~= all.take(i as int));
        if has_card(others, ids[i]) {
            out.push(ids[i]);
        }
        i = i + 1;
    }
    assert(all.take(i as int) =~= all);
    out
}

/// The first cards of a list, as many as there are.
pub open spec fn up_to(ids: Seq<CardId>, n: int) -> Seq<CardId> {
    if n <= ids.len() {
        ids.take(n)
    } else {
        ids
    }
}

fn take_up_to(ids: &Vec<CardId>, n: usize) -> (r: Vec<CardId>)
    ensures
        r@ == up_to(ids@, n as int),
{
    if n <= ids.len() {
        take_cards(ids, n)
    } else {
        copy_cards(ids)
    }
}

/// How many cards a part of a cost has sacrificed.
pub open spec fn sacrifices_asked(part: CostPart) -> int {
    match part {
        CostPart::Sacrifice { amount, .. } => at_least_none(amount),
        _ => 0,
    }
}

/// The answer to the first question about a part when a payment is made again with the cards it took
/// before. `outcomes` is what becomes of the cards that the part moves.
pub open spec fn replayed(
    q: Question,
    part: CostPart,
    cost_cards: Seq<CardId>,
    outcomes: Seq<MoveOutcome>,
) -> Option<AnswerView> {
    match q {
        Question::Nothing => None,
        Question::Sacrifice { valid } => Some(
            AnswerView {
                confirmed: true,
                cards: first_each(valid, sacrifices_asked(part) as nat),
                outcomes,
            },
        ),
        Question::Cards { valid, min, .. } => {
            let chosen = if cost_cards.len() == 0 {
                up_to(valid, min)
            } else {
                common(valid, cost_cards)
            };
            Some(AnswerView { confirmed: chosen.len() > 0, cards: chosen, outcomes })
        },
        _ => Some(AnswerView { confirmed: true, cards: Seq::empty(), outcomes }),
    }
}

fn copy_outcomes(v: &Vec<MoveOutcome>) -> (r: Vec<MoveOutcome>)
    ensures
        r@ == v@,
{
    let mut out: Vec<MoveOutcome> = Vec::new();
    let mut i: usize = 0;
    while i < v.len()
        invariant
            i <= v@.len(),
            out@ == v@.take(i as int),
        decreases v@.len() - i,
    {
        assert(v@.take(i + 1) =~= v@.take(i as int).push(v@[i as int]));
        out.push(v[i]);
        i = i + 1;
    }
    assert(v@.take(i as int) =~= v@);
    out
}

/// Answers the first question about a part as a payment that is made again does.
pub fn auto_payment_answer(
    q: &Option<ManaPayCallback>,
    part: &CostPart,
    cost_cards: &Vec<CardId>,
    outcomes: &Vec<MoveOutcome>,
) -> (r: Option<PartAnswer>)
    ensures
        (match r {
            Some(a) => Some(a@),
            None => None,
        }) == replayed(asked(*q), *part, cost_cards@, outcomes@),
{
    let confirm = match q {
        Some(ManaPayCallback::ConfirmSelfSacrifice(_)) => true,
        Some(ManaPayCallback::ConfirmSubCounter(_)) => true,
        Some(ManaPayCallback::ConfirmSourceExile(_)) => true,
        Some(ManaPayCallback::ConfirmPayLife(_)) => true,
        _ => false,
    };
    if confirm {
        let a = PartAnswer {
            confirmed: true,
            cards: Vec::new(),
            outcomes: copy_outcomes(outcomes),
        };
        assert(a@ =~= AnswerView {
            confirmed: true,
            cards: Seq::empty(),
            outcomes: outcomes@,
        });
        return Some(a);
    }
    match q {
        Some(ManaPayCallback::ChooseSacrifice(valid)) => {
            let n: usize = match part {
                CostPart::Sacrifice { amount, .. } => count_asked(*amount),
                _ => 0,
            };
            Some(
                PartAnswer {
                    confirmed: true,
                    cards: list_first_each(valid, n),
                    outcomes: copy_outcomes(outcomes),
                },
            )
        },
        Some(ManaPayCallback::ChooseCards { valid, min, .. }) => {
            let chosen = if cost_cards.len() == 0 {
                take_up_to(valid, *min)
            } else {
                list_common(valid, cost_cards)
            };
            Some(
                PartAnswer {
                    confirmed: chosen.len() > 0,
                    cards: chosen,
                    outcomes: copy_outcomes(outcomes),
                },
            )
        },
        _ => None,
    }
}

/// What becomes of the cards that the part at a place moves.
pub open spec fn outcomes_at(moves: Seq<Vec<MoveOutcome>>, i: int) -> Seq<MoveOutcome> {
    if 0 <= i < moves.len() {
        moves[i]@
    } else {
        Seq::empty()
    }
}

/// What paying parts again comes to: the state, and whether all were paid.
pub open spec fn parts_repaid(
    scene: SceneOfPayment,
    st: PayingView,
    source: CardId,
    parts: Seq<CostPart>,
    cost_cards: Seq<CardId>,
    moves: Seq<Vec<MoveOutcome>>,
) -> (PayingView, bool)
    decreases parts.len(),
{
    if parts.len() == 0 {
        (st, true)
    } else {
        let (s, ok) = parts_repaid(scene, st, source, parts.drop_last(), cost_cards, moves);
        if !ok {
            (s, false)
        } else {
            let (after, _, paid) = part_paid(
                scene,
                s,
                source,
                parts.last(),
                replayed(
                    question(scene, s, source, parts.last(), Seq::empty()),
                    parts.last(),
                    cost_cards,
                    outcomes_at(moves, parts.len() - 1),
                ),
            );
            (after, paid)
        }
    }
}

proof fn lemma_repaid_stopped(
    scene: SceneOfPayment,
    st: PayingView,
    source: CardId,
    parts: Seq<CostPart>,
    cost_cards: Seq<CardId>,
    moves: Seq<Vec<MoveOutcome>>,
    n: int,
)
    requires
        0 <= n <= parts.len(),
        !parts_repaid(scene, st, source, parts.take(n), cost_cards, moves).1,
    ensures
        parts_repaid(scene, st, source, parts, cost_cards, moves) == parts_repaid(
            scene,
            st,
            source,
            parts.take(n),
            cost_cards,
            moves,
        ),
    decreases parts.len() - n,
{
    if n < parts.len() {
        assert(parts.take(n + 1).drop_last() =~= parts.take(n));
        lemma_repaid_stopped(scene, st, source, parts, cost_cards, moves, n + 1);
    } else {
        assert(parts.take(n) =~= parts);
    }
}

fn repay_parts(
    scene: PayScene<'_>,
    st: &mut Paying,
    source: CardId,
    parts: &Vec<CostPart>,
    cost_cards: &Vec<CardId>,
    moves: &Vec<Vec<MoveOutcome>>,
) -> (r: bool)
    ensures
        (final(st)@, r) == parts_repaid(
            scene@,
            old(st)@,
            source,
            parts@,
            cost_cards@,
            moves@,
        ),
{
    let ghost start = st@;
    let ghost all = parts@;
    let none: Vec<Option<CardId>> = Vec::new();
    assert(none@ =~= Seq::<Option<CardId>>::empty());
    let usual: Vec<MoveOutcome> = Vec::new();
    assert(usual@ =~= Seq::<MoveOutcome>::empty());
    let mut taken: Vec<CardId> = Vec::new();
    let mut i: usize = 0;
    while i < parts.len()
        invariant
            i <= all.len(),
            all == parts@,
            start == old(st)@,
            none@ == Seq::<Option<CardId>>::empty(),
            usual@ == Seq::<MoveOutcome>::empty(),
            (st@, true) == parts_repaid(
                scene@,
                start,
                source,
                all.take(i as int),
                cost_cards@,
                moves@,
            ),
        decreases all.len() - i,
    {
        assert(all.take(i + 1).drop_last() =~= all.take(i as int));
        assert(all.take(i + 1).last() == all[i as int]);
        let q = payment_question(scene, st, source, &parts[i], &none);
        let outcomes = if i < moves.len() {
            &moves[i]
        } else {
            &usual
        };
        assert(outcomes@ == outcomes_at(moves@, i as int));
        let answer = auto_payment_answer(&q, &parts[i], cost_cards, outcomes);
        let given = match &answer {
            Some(a) => Some(a),
            None => None,
        };
        assert(answer_of(given) == replayed(asked(q), parts@[i as int], cost_cards@, outcomes@));
        if !pay_part(scene, st, source, &parts[i], given, &mut taken) {
            proof {
                lemma_repaid_stopped(scene@, start, source, all, cost_cards@, moves@, i + 1);
            }
            return false;
        }
        i = i + 1;
    }
    assert(all.take(i as int) =~= all);
    true
}

/// The atoms of an ability that is used again.
pub open spec fn reused_atoms(ab: ActivatedAbility) -> Seq<u16> {
    match ab.produced {
        Some(p) => match p.fixed {
            Some(a) => a@,
            None => p.atoms@,
        },
        None => Seq::empty(),
    }
}

/// The state of a payment and the mana in the pool once the ability at a place of a card is used
/// again; nothing where its costs cannot be paid again.
pub open spec fn reapplied(
    game: GameState,
    pool: Seq<ManaView>,
    player: PlayerId,
    card: CardId,
    index: usize,
    chosen_atom: u16,
    cost_cards: Seq<CardId>,
    moves: Seq<Vec<MoveOutcome>>,
) -> (PayingView, Seq<ManaView>, bool) {
    match game.card_at(card) {
        Some(c) if index < c.activated_abilities@.len() => {
            let ab = c.activated_abilities@[index as int];
            let scene = SceneOfPayment {
                game,
                player,
                spell: None,
                reuse: false,
                reserved: Seq::empty(),
            };
            let (st, ok) = match ability_used(game, card, Some(index)) {
                Some(used) => parts_repaid(
                    scene,
                    nothing_paid(),
                    card,
                    used.cost@,
                    cost_cards,
                    moves,
                ),
                None => (nothing_paid(), false),
            };
            if !ok {
                (st, pool, false)
            } else {
                let m = ref_with(
                    card,
                    ab,
                    reused_atoms(ab),
                    base_amount(string_of(ab.amount), game, card, player),
                    0,
                );
                let used = RefView { ability_index: Some(index), ..m };
                let text = made_text(game, player, used, chosen_atom, None);
                let tapped = if has_tap(ab.cost@) {
                    st.with_tapped(card)
                } else {
                    st
                };
                (
                    tapped_for(game, tapped, used),
                    pool + made_entries(game, used, true, text_atoms(text)),
                    true,
                )
            }
        },
        _ => (nothing_paid(), pool, false),
    }
}

/// Uses the ability at a place of a card again, with the cards its costs took before; says whether
/// its costs could be paid. `moves` is what becomes of the cards that its costs move, part by part.
pub fn reapply_non_undoable_payment_ability(
    game: &mut GameState,
    pool: &mut ManaPool,
    player: PlayerId,
    card: CardId,
    index: usize,
    chosen_atom: u16,
    cost_cards: &Vec<CardId>,
    moves: &Vec<Vec<MoveOutcome>>,
) -> (r: bool)
    ensures
        ({
            let (st, left, ok) = reapplied(
                *old(game),
                old(pool)@,
                player,
                card,
                index,
                chosen_atom,
                cost_cards@,
                moves@,
            );
            &&& r == ok
            &&& final(pool)@ == left
            &&& game_paid(*old(game), *final(game), st, player)
        }),
{
    let mut st = Paying::new();
    let done = reapply(
        &*game,
        &mut st,
        pool,
        player,
        card,
        index,
        chosen_atom,
        cost_cards,
        moves,
    );
    apply_payment(game, player, &st);
    done
}

fn reapply(
    game: &GameState,
    st: &mut Paying,
    pool: &mut ManaPool,
    player: PlayerId,
    card: CardId,
    index: usize,
    chosen_atom: u16,
    cost_cards: &Vec<CardId>,
    moves: &Vec<Vec<MoveOutcome>>,
) -> (r: bool)
    requires
        old(st)@ == nothing_paid(),
    ensures
        (final(st)@, final(pool)@, r) == reapplied(
            *game,
            old(pool)@,
            player,
            card,
            index,
            chosen_atom,
            cost_cards@,
            moves@,
        ),
{
    let c = match game.card(card) {
        Some(c) => c,
        None => {
            return false;
        },
    };
    if index >= c.activated_abilities.len() {
        return false;
    }
    let ab = &c.activated_abilities[index];
    let none: Vec<CardId> = Vec::new();
    let scene = PayScene { game, player, spell: None, reuse: false, reserved: &none };
    assert(scene@ =~= SceneOfPayment {
        game: *game,
        player,
        spell: None,
        reuse: false,
        reserved: Seq::empty(),
    });
    match mana_ability_of(game, card, Some(index)) {
        Some(used) => {
            if !repay_parts(scene, st, card, &used.cost, cost_cards, moves) {
                return false;
            }
        },
        None => {
            return false;
        },
    }
    let atoms = match &ab.produced {
        Some(p) => match &p.fixed {
            Some(a) => copy_atoms(a),
            None => copy_atoms(&p.atoms),
        },
        None => Vec::new(),
    };
    assert(atoms@ =~= reused_atoms(*ab));
    let amount: i32 = parse_mana_ability_amount(&ab.amount, game, card, player);
    let mut m = make_ref(card, ab, atoms, amount, 0);
    let ghost first = m@;
    m.ability_index = Some(index);
    assert(m@ =~= RefView { ability_index: Some(index), ..first });
    if check_tap(&ab.cost) {
        st.tap(card);
    }
    produce_mana_for_auto_pay(game, st, pool, player, &m, chosen_atom, None);
    true
}

// ---- sources for callers ----

/// A mana ability that a player may activate to pay.
pub struct ManaAbilityOption {
    pub card_id: CardId,
    pub ability_index: usize,
    pub description: String,
    pub cost: String,
    pub produced_mana: Vec<String>,
    pub produced_mana_amount: i32,
}

/// The sources that a player may pay with, and their mana abilities.
pub struct ManaPaymentSources {
    pub source_cards: Vec<CardId>,
    pub mana_ability_options: Vec<ManaAbilityOption>,
}

/// Whether an option shows an ability of a card.
pub open spec fn shows(o: ManaAbilityOption, card: CardId, ab: ActivatedAbility) -> bool {
    &&& o.card_id == card
    &&& o.ability_index == ab.ability_index
    &&& o.description@ == ab.ability_text@
    &&& o.cost@ == ab.cost_text@
    &&& crate::text::string_views(o.produced_mana@) == crate::text::string_views(ab.prompt_mana@)
    &&& o.produced_mana_amount == ab.prompt_amount
}

/// The mana abilities of a card that can be activated, by place.
pub open spec fn payable_places(
    game: GameState,
    player: PlayerId,
    card: CardId,
    abilities: Seq<ActivatedAbility>,
    reserved: Seq<CardId>,
    n: nat,
) -> Seq<(CardId, int)>
    decreases n,
{
    if n == 0 {
        Seq::empty()
    } else {
        let before = payable_places(game, player, card, abilities, reserved, (n - 1) as nat);
        if mana_ability_payable(
            game,
            nothing_paid(),
            player,
            card,
            abilities[n - 1],
            reserved,
            None,
        ) {
            before.push((card, n - 1))
        } else {
            before
        }
    }
}

/// The mana abilities of sources that can be activated.
pub open spec fn options_among(
    game: GameState,
    player: PlayerId,
    sources: Seq<CardId>,
    reserved: Seq<CardId>,
) -> Seq<(CardId, int)>
    decreases sources.len(),
{
    if sources.len() == 0 {
        Seq::empty()
    } else {
        let before = options_among(game, player, sources.drop_last(), reserved);
        match game.card_at(sources.last()) {
            Some(c) => before + payable_places(
                game,
                player,
                sources.last(),
                c.activated_abilities@,
                reserved,
                c.activated_abilities@.len(),
            ),
            None => before,
        }
    }
}

/// Whether an option shows the ability at a place.
pub open spec fn shows_place(o: ManaAbilityOption, game: GameState, place: (CardId, int)) -> bool {
    &&& game.card_at(place.0) matches Some(c)
    &&& 0 <= place.1 < c.activated_abilities@.len()
    &&& shows(o, place.0, c.activated_abilities@[place.1])
}

/// Whether options show abilities, one by one.
pub open spec fn show_all(
    options: Seq<ManaAbilityOption>,
    game: GameState,
    places: Seq<(CardId, int)>,
) -> bool {
    &&& options.len() == places.len()
    &&& forall|i: int| 0 <= i < places.len() ==> shows_place(#[trigger] options[i], game, places[i])
}

proof fn lemma_show_one_more(
    options: Seq<ManaAbilityOption>,
    game: GameState,
    places: Seq<(CardId, int)>,
    o: ManaAbilityOption,
    place: (CardId, int),
)
    requires
        show_all(options, game, places),
        shows_place(o, game, place),
    ensures
        show_all(options.push(o), game, places.push(place)),
{
}

fn copy_texts(v: &Vec<String>) -> (r: Vec<String>)
    ensures
        crate::text::string_views(r@) == crate::text::string_views(v@),
{
    let mut out: Vec<String> = Vec::new();
    let mut i: usize = 0;
    while i < v.len()
        invariant
            i <= v@.len(),
            out@.len() == i,
            forall|k: int| 0 <= k < i ==> (#[trigger] out@[k])@ == v@[k]@,
        decreases v@.len() - i,
    {
        out.push(v[i].as_str().to_string());
        i = i + 1;
    }
    assert(crate::text::string_views(out@) =~= crate::text::string_views(v@));
    out
}

fn make_option(card: CardId, ab: &ActivatedAbility) -> (r: ManaAbilityOption)
    ensures
        shows(r, card, *ab),
{
    ManaAbilityOption {
        card_id: card,
        ability_index: ab.ability_index,
        description: ab.ability_text.as_str().to_string(),
        cost: ab.cost_text.as_str().to_string(),
        produced_mana: copy_texts(&ab.prompt_mana),
        produced_mana_amount: ab.prompt_amount,
    }
}

/// Lists the sources that a player may pay with, and their mana abilities.
pub fn collect_mana_payment_sources(
    game: &GameState,
    player: PlayerId,
    reserved_sacrifices: &Vec<CardId>,
) -> (r: ManaPaymentSources)
    ensures
        r.source_cards@ == available_sources(
            *game,
            nothing_paid(),
            player,
            reserved_sacrifices@,
        ),
        show_all(
            r.mana_ability_options@,
            *game,
            options_among(*game, player, r.source_cards@, reserved_sacrifices@),
        ),
{
    let st = Paying::new();
    let sources = get_available_mana_sources(game, &st, player, reserved_sacrifices);
    let ghost all = sources@;
    let mut options: Vec<ManaAbilityOption> = Vec::new();
    let mut i: usize = 0;
    while i < sources.len()
        invariant
            i <= all.len(),
            all == sources@,
            st@ == nothing_paid(),
            show_all(
                options@,
                *game,
                options_among(*game, player, all.take(i as int), reserved_sacrifices@),
            ),
        decreases all.len() - i,
    {
        assert(all.take(i + 1).drop_last() =~= all.take(i as int));
        let id = sources[i];
        if let Some(c) = game.card(id) {
            let ghost before = options_among(
                *game,
                player,
                all.take(i as int),
                reserved_sacrifices@,
            );
            let ghost abilities = c.activated_abilities@;
            let mut k: usize = 0;
            assert(before + payable_places(
                *game,
                player,
                id,
                abilities,
                reserved_sacrifices@,
                0,
            ) =~= before);
            while k < c.activated_abilities.len()
                invariant
                    k <= abilities.len(),
                    abilities == c.activated_abilities@,
                    game.card_at(id) == Some(*c),
                    st@ == nothing_paid(),
                    show_all(
                        options@,
                        *game,
                        before + payable_places(
                            *game,
                            player,
                            id,
                            abilities,
                            reserved_sacrifices@,
                            k as nat,
                        ),
                    ),
                decreases abilities.len() - k,
            {
                let ab = &c.activated_abilities[k];
                if is_payable_mana_ability(
                    game,
                    &st,
                    player,
                    id,
                    ab,
                    reserved_sacrifices,
                    None,
                ) {
                    let ghost places = payable_places(
                        *game,
                        player,
                        id,
                        abilities,
                        reserved_sacrifices@,
                        k as nat,
                    );
                    let o = make_option(id, ab);
                    proof {
                        lemma_show_one_more(
                            options@,
                            *game,
                            before + places,
                            o,
                            (id, k as int),
                        );
                        assert(before + places.push((id, k as int)) =~= (before + places).push(
                            (id, k as int),
                        ));
                    }
                    options.push(o);
                }
                k = k + 1;
            }
        }
        i = i + 1;
    }
    assert(all.take(i as int) =~= all);
    ManaPaymentSources { source_cards: sources, mana_ability_options: options }
}

// ---- generic mana from lands ----

/// The atom that a land makes where any will do.
pub open spec fn easy_atom(atoms: Seq<u16>) -> u16 {
    if atoms.contains(COLORLESS) || atoms.len() == 0 {
        COLORLESS
    } else {
        atoms[0]
    }
}

/// The lands that are tapped for mana, and the pool after it.
pub open spec fn lands_tapped(
    game: GameState,
    pool: Seq<ManaView>,
    sources: Seq<CardId>,
    wanted: int,
) -> (Seq<CardId>, Seq<ManaView>)
    decreases sources.len(),
{
    if sources.len() == 0 {
        (Seq::empty(), pool)
    } else {
        let (tapped, left) = lands_tapped(game, pool, sources.drop_last(), wanted);
        let id = sources.last();
        match game.card_at(id) {
            Some(c) if tapped.len() < wanted && c.types.land && !c.tapped && !tapped.contains(id) =>
            (
                tapped.push(id),
                left.push(
                    ManaView {
                        color: easy_atom(c.land_atoms@),
                        restriction: None,
                        source: id,
                        is_snow: c.types.snow,
                        riders: no_riders(),
                    },
                ),
            ),
            _ => (tapped, left),
        }
    }
}

/// The state of a payment that tapped cards and did nothing else.
pub open spec fn only_tapped(cards: Seq<CardId>) -> PayingView {
    PayingView { tapped: cards, ..nothing_paid() }
}

/// Taps untapped lands for `needed` more mana, one each, as long as there are any.
pub fn auto_tap_lands_generic(
    game: &mut GameState,
    pool: &mut ManaPool,
    player: PlayerId,
    needed: i32,
) -> (r: Vec<CardId>)
    ensures
        ({
            let (tapped, left) = lands_tapped(
                *old(game),
                old(pool)@,
                available_sources(*old(game), nothing_paid(), player, Seq::empty()),
                needed as int,
            );
            &&& r@ == tapped
            &&& final(pool)@ == left
            &&& game_paid(*old(game), *final(game), only_tapped(tapped), player)
        }),
{
    let tapped = tap_lands(&*game, pool, player, needed);
    let mut st = Paying::new();
    st.tap_all(&tapped);
    assert(st@ =~= only_tapped(tapped@));
    apply_payment(game, player, &st);
    tapped
}

fn tap_lands(game: &GameState, pool: &mut ManaPool, player: PlayerId, needed: i32) -> (r: Vec<
    CardId,
>)
    ensures
        (r@, final(pool)@) == lands_tapped(
            *game,
            old(pool)@,
            available_sources(*game, nothing_paid(), player, Seq::empty()),
            needed as int,
        ),
{
    let st = Paying::new();
    let none: Vec<CardId> = Vec::new();
    assert(none@ =~= Seq::<CardId>::empty());
    let sources = get_available_mana_sources(game, &st, player, &none);
    let ghost all = sources@;
    let ghost p0 = pool@;
    let mut tapped: Vec<CardId> = Vec::new();
    let mut i: usize = 0;
    assert(tapped@ =~= Seq::<CardId>::empty());
    while i < sources.len()
        invariant
            i <= all.len(),
            all == sources@,
            (tapped@, pool@) == lands_tapped(*game, p0, all.take(i as int), needed as int),
        decreases all.len() - i,
    {
        assert(all.take(i + 1).drop_last() =~= all.take(i as int));
        let id = sources[i];
        if needed > 0 && (tapped.len() as u64) < needed as u64 {
            if let Some(c) = game.card(id) {
                if c.types.land && !c.tapped && !has_card(&tapped, id) {
                    let atom: u16 = if has_atom(&c.land_atoms, COLORLESS) || c.land_atoms.len()
                        == 0 {
                        COLORLESS
                    } else {
                        c.land_atoms[0]
                    };
                    let mut one: Vec<u16> = Vec::new();
                    one.push(atom);
                    let ghost before = pool@;
                    let params = ManaProductionParams {
                        source_card: id,
                        is_snow: c.types.snow,
                        restriction: None,
                        riders: ManaRiders::none(),
                    };
                    pool.add_atoms(&one, &params);
                    assert(pool@ =~= before.push(
                        ManaView {
                            color: atom,
                            restriction: None,
                            source: id,
                            is_snow: c.types.snow,
                            riders: no_riders(),
                        },
                    ));
                    tapped.push(id);
                }
            }
        }
        i = i + 1;
    }
    assert(all.take(i as int) =~= all);
    tapped
}

} // verus!
