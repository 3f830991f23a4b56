//! Whether the costs of mana abilities can be paid, and how they are.

use vstd::prelude::*;
use crate::game::GameState;
use crate::lists::{copy_cards, extend_cards, has_card};
use crate::mana::ability::{ability_used, mana_ability_of, CostPart};
use crate::mana::paying::{Paying, PayingView};
use crate::sorting::{relation, sort_by, sorted_by, Order};
use crate::text::{less, text_eq, text_lt};
use crate::types::{CardId, PlayerId, ZoneType};

verus! {

/// Who pays for what: the card that is paid for is spared unless `reuse` says otherwise, and
/// reserved cards always are.
#[derive(Clone, Copy)]
pub struct PayScene<'a> {
    pub game: &'a GameState,
    pub player: PlayerId,
    pub spell: Option<CardId>,
    pub reuse: bool,
    pub reserved: &'a Vec<CardId>,
}

#[verifier::ext_equal]
pub struct SceneOfPayment {
    pub game: GameState,
    pub player: PlayerId,
    pub spell: Option<CardId>,
    pub reuse: bool,
    pub reserved: Seq<CardId>,
}

impl<'a> View for PayScene<'a> {
    type V = SceneOfPayment;

    open spec fn view(&self) -> SceneOfPayment {
        SceneOfPayment {
            game: *self.game,
            player: self.player,
            spell: self.spell,
            reuse: self.reuse,
            reserved: self.reserved@,
        }
    }
}

/// What became of a card that a cost moves: where it is afterwards, and whether that pays.
#[derive(Debug, Clone, Copy, PartialEq, Eq, Structural)]
pub struct MoveOutcome {
    pub paid: bool,
    pub zone: ZoneType,
}

/// An answer about a part of a cost: whether it is agreed to, the cards that were chosen, and what
/// became of the cards that it moves, in their order. A card without an outcome moves as usual.
pub struct PartAnswer {
    pub confirmed: bool,
    pub cards: Vec<CardId>,
    pub outcomes: Vec<MoveOutcome>,
}

#[verifier::ext_equal]
pub struct AnswerView {
    pub confirmed: bool,
    pub cards: Seq<CardId>,
    pub outcomes: Seq<MoveOutcome>,
}

impl View for PartAnswer {
    type V = AnswerView;

    open spec fn view(&self) -> AnswerView {
        AnswerView {
            confirmed: self.confirmed,
            cards: self.cards@,
            outcomes: self.outcomes@,
        }
    }
}

pub open spec fn answer_views(v: Seq<PartAnswer>) -> Seq<AnswerView> {
    Seq::new(v.len(), |i: int| v[i]@)
}

// ---- cards that a cost may use ----

/// Whether a card may be used up for a cost.
pub open spec fn is_free(scene: SceneOfPayment, id: CardId) -> bool {
    !scene.reserved.contains(id) && (scene.reuse || scene.spell != Some(id))
}

fn check_free(scene: PayScene<'_>, id: CardId) -> (r: bool)
    ensures
        r == is_free(scene@, id),
{
    if has_card(scene.reserved, id) {
        return false;
    }
    if scene.reuse {
        return true;
    }
    match scene.spell {
        Some(s) => s != id,
        None => true,
    }
}

/// The kinds of cards that costs ask for.
pub enum Wanted<'a> {
    Sacrifice { filter: &'a str },
    Tap { filter: &'a str, can_tap_source: bool },
    Exile { filter: &'a str },
    Evidence,
}

#[verifier::ext_equal]
pub enum WantedView {
    Sacrifice { filter: Seq<char> },
    Tap { filter: Seq<char>, can_tap_source: bool },
    Exile { filter: Seq<char> },
    Evidence,
}

impl<'a> View for Wanted<'a> {
    type V = WantedView;

    open spec fn view(&self) -> WantedView {
        match self {
            Wanted::Sacrifice { filter } => WantedView::Sacrifice { filter: filter@ },
            Wanted::Tap { filter, can_tap_source } => WantedView::Tap {
                filter: filter@,
                can_tap_source: *can_tap_source,
            },
            Wanted::Exile { filter } => WantedView::Exile { filter: filter@ },
            Wanted::Evidence => WantedView::Evidence,
        }
    }
}

/// Whether a card is of the kind that a cost of a source asks for.
pub open spec fn is_wanted(
    scene: SceneOfPayment,
    st: PayingView,
    source: CardId,
    wanted: WantedView,
    id: CardId,
) -> bool {
    let facts = scene.game.facts;
    match wanted {
        WantedView::Sacrifice { filter } => facts.matches_card(filter, source, scene.player, id)
            && is_free(scene, id),
        WantedView::Tap { filter, can_tap_source } => !st.is_tapped(scene.game, id) && (id != source
            || can_tap_source) && facts.matches_card(filter, source, scene.player, id) && is_free(
            scene,
            id,
        ),
        WantedView::Exile { filter } => facts.matches_card(filter, source, scene.player, id)
            && !facts.cant_exile@.contains(id),
        WantedView::Evidence => !facts.cant_exile@.contains(id),
    }
}

fn check_wanted(
    scene: PayScene<'_>,
    st: &Paying,
    source: CardId,
    wanted: &Wanted<'_>,
    id: CardId,
) -> (r: bool)
    ensures
        r == is_wanted(scene@, st@, source, wanted@, id),
{
    let facts = &scene.game.facts;
    match wanted {
        Wanted::Sacrifice { filter } => facts.card_matches_selector(
            filter,
            source,
            scene.player,
            id,
        ) && check_free(scene, id),
        Wanted::Tap { filter, can_tap_source } => !st.check_tapped(scene.game, id) && (id != source
            || *can_tap_source) && facts.card_matches_selector(filter, source, scene.player, id)
            && check_free(scene, id),
        Wanted::Exile { filter } => facts.card_matches_selector(filter, source, scene.player, id)
            && !has_card(&facts.cant_exile, id),
        Wanted::Evidence => !has_card(&facts.cant_exile, id),
    }
}

pub open spec fn wanted_among(
    scene: SceneOfPayment,
    st: PayingView,
    source: CardId,
    wanted: WantedView,
    ids: Seq<CardId>,
) -> Seq<CardId>
    decreases ids.len(),
{
    if ids.len() == 0 {
        Seq::empty()
    } else {
        let before = wanted_among(scene, st, source, wanted, ids.drop_last());
        if is_wanted(scene, st, source, wanted, ids.last()) {
            before.push(ids.last())
        } else {
            before
        }
    }
}

/// The cards of the player in a zone that a cost of a source may use.
pub open spec fn targets(
    scene: SceneOfPayment,
    st: PayingView,
    source: CardId,
    wanted: WantedView,
    zone: ZoneType,
) -> Seq<CardId> {
    wanted_among(scene, st, source, wanted, st.in_zone(scene.game, zone, scene.player))
}

pub fn list_targets(
    scene: PayScene<'_>,
    st: &Paying,
    source: CardId,
    wanted: &Wanted<'_>,
    zone: ZoneType,
) -> (r: Vec<CardId>)
    ensures
        r@ == targets(scene@, st@, source, wanted@, zone),
{
    let ids = st.cards_in_zone(scene.game, zone, scene.player);
    let ghost all = ids@;
    let mut out: Vec<CardId> = Vec::new();
    let mut i: usize = 0;
    while i < ids.len()
        invariant
            i <= all.len(),
            all == ids@,
            out@ == wanted_among(scene@, st@, source, wanted@, all.take(i as int)),
        decreases all.len() - i,
    {
        assert(all.take(i + 1).drop_last() =~= all.take(i as int));
        if check_wanted(scene, st, source, wanted, ids[i]) {
            out.push(ids[i]);
        }
        i = i + 1;
    }
    assert(all.take(i as int) =~= all);
    out
}

// ---- their order ----

pub open spec fn name_at(game: GameState, id: CardId) -> Seq<char> {
    match game.card_at(id) {
        Some(c) => c.card_name@,
        None => Seq::empty(),
    }
}

pub fn find_name<'a>(game: &'a GameState, id: CardId) -> (r: &'a str)
    ensures
        r@ == name_at(*game, id),
{
    match game.card(id) {
        Some(c) => c.card_name.as_str(),
        None => {
            proof {
                reveal_strlit("");
            }
            assert(""@ =~= Seq::<char>::empty());
            ""
        },
    }
}

/// By name, then by identifier.
pub struct ByName<'a> {
    pub game: &'a GameState,
}

impl<'a> Order<CardId> for ByName<'a> {
    open spec fn before(&self, a: CardId, b: CardId) -> bool {
        text_lt(name_at(*self.game, a), name_at(*self.game, b)) || (name_at(*self.game, a)
            == name_at(*self.game, b) && a.0 < b.0)
    }

    fn goes_before(&self, a: CardId, b: CardId) -> (r: bool) {
        let x = find_name(self.game, a);
        let y = find_name(self.game, b);
        less(x, y) || (text_eq(x, y) && a.0 < b.0)
    }
}

pub open spec fn power_at(game: GameState, id: CardId) -> i32 {
    match game.card_at(id) {
        Some(c) => c.tap_power,
        None => 0,
    }
}

fn find_power(game: &GameState, id: CardId) -> (r: i32)
    ensures
        r == power_at(*game, id),
{
    match game.card(id) {
        Some(c) => c.tap_power,
        None => 0,
    }
}

/// The most powerful first, then by name, then by identifier.
pub struct ByPower<'a> {
    pub game: &'a GameState,
}

impl<'a> Order<CardId> for ByPower<'a> {
    open spec fn before(&self, a: CardId, b: CardId) -> bool {
        power_at(*self.game, a) > power_at(*self.game, b) || (power_at(*self.game, a) == power_at(
            *self.game,
            b,
        ) && (text_lt(name_at(*self.game, a), name_at(*self.game, b)) || (name_at(*self.game, a)
            == name_at(*self.game, b) && a.0 < b.0)))
    }

    fn goes_before(&self, a: CardId, b: CardId) -> (r: bool) {
        let p: i32 = find_power(self.game, a);
        let q: i32 = find_power(self.game, b);
        if p != q {
            return p > q;
        }
        let x = find_name(self.game, a);
        let y = find_name(self.game, b);
        less(x, y) || (text_eq(x, y) && a.0 < b.0)
    }
}

pub open spec fn by_name(game: GameState, ids: Seq<CardId>) -> Seq<CardId> {
    sorted_by(ids, relation::<CardId, ByName<'_>>(ByName { game: &game }))
}

pub open spec fn by_power(game: GameState, ids: Seq<CardId>) -> Seq<CardId> {
    sorted_by(ids, relation::<CardId, ByPower<'_>>(ByPower { game: &game }))
}

// ---- cards that are tapped for a cost ----

/// The cards of an answer that are among those allowed; of equal neighbors one is left.
pub open spec fn allowed(cards: Seq<CardId>, valid: Seq<CardId>) -> Seq<CardId>
    decreases cards.len(),
{
    if cards.len() == 0 {
        Seq::empty()
    } else {
        let before = allowed(cards.drop_last(), valid);
        let id = cards.last();
        if valid.contains(id) && !(before.len() > 0 && before.last() == id) {
            before.push(id)
        } else {
            before
        }
    }
}

fn keep_allowed(cards: &Vec<CardId>, valid: &Vec<CardId>) -> (r: Vec<CardId>)
    ensures
        r@ == allowed(cards@, valid@),
{
    let ghost all = cards@;
    let mut out: Vec<CardId> = Vec::new();
    let mut i: usize = 0;
    while i < cards.len()
        invariant
            i <= all.len(),
            all == cards@,
            out@ == allowed(all.take(i as int), valid@),
        decreases all.len() - i,
    {
        assert(all.take(i + 1).drop_last() =~= all.take(i as int));
        let id = cards[i];
        let same = out.len() > 0 && out[out.len() - 1] == id;
        if has_card(valid, id) && !same {
            out.push(id);
        }
        i = i + 1;
    }
    assert(all.take(i as int) =~= all);
    out
}

/// The power of cards together.
pub open spec fn power_sum(game: GameState, ids: Seq<CardId>) -> i32
    decreases ids.len(),
{
    if ids.len() == 0 {
        0
    } else {
        power_sum(game, ids.drop_last()).wrapping_add(power_at(game, ids.last()))
    }
}

fn add_power(game: &GameState, ids: &Vec<CardId>) -> (r: i32)
    ensures
        r == power_sum(*game, ids@),
{
    let ghost all = ids@;
    let mut total: i32 = 0;
    let mut i: usize = 0;
    while i < ids.len()
        invariant
            i <= all.len(),
            all == ids@,
            total == power_sum(*game, all.take(i as int)),
        decreases all.len() - i,
    {
        assert(all.take(i + 1).drop_last() =~= all.take(i as int));
        total = total.wrapping_add(find_power(game, ids[i]));
        i = i + 1;
    }
    assert(all.take(i as int) =~= all);
    total
}

/// The first cards that have enough power together; none where all of them have not.
pub open spec fn enough_power(game: GameState, ids: Seq<CardId>, n: nat, threshold: i32) -> Seq<
    CardId,
>
    decreases ids.len() - n,
{
    if n >= ids.len() {
        Seq::empty()
    } else if power_sum(game, ids.take(n as int + 1)) >= threshold {
        ids.take(n as int + 1)
    } else {
        enough_power(game, ids, n + 1, threshold)
    }
}

fn take_power(game: &GameState, ids: &Vec<CardId>, threshold: i32) -> (r: Vec<CardId>)
    ensures
        r@ == enough_power(*game, ids@, 0, threshold),
{
    let ghost all = ids@;
    let mut out: Vec<CardId> = Vec::new();
    let mut total: i32 = 0;
    let mut i: usize = 0;
    while i < ids.len()
        invariant
            i <= all.len(),
            all == ids@,
            out@ == all.take(i as int),
            total == power_sum(*game, all.take(i as int)),
            enough_power(*game, all, 0, threshold) == enough_power(*game, all, i as nat, threshold),
        decreases all.len() - i,
    {
        assert(all.take(i + 1).drop_last() =~= all.take(i as int));
        assert(all.take(i + 1) =~= all.take(i as int).push(all[i as int]));
        total = total.wrapping_add(find_power(game, ids[i]));
        out.push(ids[i]);
        if total >= threshold {
            return out;
        }
        i = i + 1;
    }
    Vec::new()
}

/// How many of something a cost asks for.
pub open spec fn at_least_none(n: i32) -> int {
    if n < 0 {
        0
    } else {
        n as int
    }
}

pub fn count_asked(n: i32) -> (r: usize)
    ensures
        r == at_least_none(n),
{
    if n < 0 {
        0
    } else {
        n as usize
    }
}

/// The cards that are tapped for a cost; none where it cannot be paid.
pub open spec fn tap_choice(
    scene: SceneOfPayment,
    st: PayingView,
    source: CardId,
    amount: i32,
    filter: Seq<char>,
    min_total_power: Option<i32>,
    can_tap_source: bool,
    answer: Option<AnswerView>,
) -> Seq<CardId> {
    let valid = targets(
        scene,
        st,
        source,
        WantedView::Tap { filter, can_tap_source },
        ZoneType::Battlefield,
    );
    match min_total_power {
        Some(threshold) => {
            let sorted = by_power(scene.game, valid);
            match answer {
                Some(a) => {
                    let chosen = allowed(a.cards, sorted);
                    if a.confirmed && power_sum(scene.game, chosen) >= threshold {
                        chosen
                    } else {
                        Seq::empty()
                    }
                },
                None => enough_power(scene.game, sorted, 0, threshold),
            }
        },
        None => {
            let n = at_least_none(amount);
            let sorted = by_name(scene.game, valid);
            if valid.len() < n {
                Seq::empty()
            } else {
                match answer {
                    Some(a) => {
                        let chosen = allowed(a.cards, sorted);
                        if a.confirmed && chosen.len() >= n {
                            chosen.take(n)
                        } else {
                            Seq::empty()
                        }
                    },
                    None => sorted.take(n),
                }
            }
        },
    }
}

pub fn take_cards(ids: &Vec<CardId>, n: usize) -> (r: Vec<CardId>)
    requires
        n <= ids@.len(),
    ensures
        r@ == ids@.take(n as int),
{
    let mut out: Vec<CardId> = Vec::new();
    let mut i: usize = 0;
    while i < n
        invariant
            i <= n <= ids@.len(),
            out@ == ids@.take(i as int),
        decreases n - i,
    {
        assert(ids@.take(i + 1) =~= ids@.take(i as int).push(ids@[i as int]));
        out.push(ids[i]);
        i = i + 1;
    }
    out
}

pub open spec fn answer_of(answer: Option<&PartAnswer>) -> Option<AnswerView> {
    match answer {
        Some(a) => Some(a@),
        None => None,
    }
}

/// Chooses the cards that are tapped for a cost.
pub fn choose_tap_type_targets(
    scene: PayScene<'_>,
    st: &Paying,
    source: CardId,
    amount: i32,
    filter: &str,
    min_total_power: Option<i32>,
    can_tap_source: bool,
    answer: Option<&PartAnswer>,
) -> (r: Vec<CardId>)
    ensures
        r@ == tap_choice(
            scene@,
            st@,
            source,
            amount,
            filter@,
            min_total_power,
            can_tap_source,
            answer_of(answer),
        ),
{
    let valid = list_targets(
        scene,
        st,
        source,
        &Wanted::Tap { filter, can_tap_source },
        ZoneType::Battlefield,
    );
    match min_total_power {
        Some(threshold) => {
            let sorted = sort_by(&valid, &ByPower { game: scene.game });
            match answer {
                Some(a) => {
                    let chosen = keep_allowed(&a.cards, &sorted);
                    if a.confirmed && add_power(scene.game, &chosen) >= threshold {
                        chosen
                    } else {
                        Vec::new()
                    }
                },
                None => take_power(scene.game, &sorted, threshold),
            }
        },
        None => {
            let n: usize = count_asked(amount);
            if valid.len() < n {
                return Vec::new();
            }
            let sorted = sort_by(&valid, &ByName { game: scene.game });
            proof {
                crate::sorting::law_sorting(
                    valid@,
                    relation::<CardId, ByName<'_>>(ByName { game: scene.game }),
                );
            }
            match answer {
                Some(a) => {
                    let chosen = keep_allowed(&a.cards, &sorted);
                    if a.confirmed && chosen.len() >= n {
                        take_cards(&chosen, n)
                    } else {
                        Vec::new()
                    }
                },
                None => take_cards(&sorted, n),
            }
        },
    }
}

// ---- whether a part can be paid ----

pub open spec fn cmc_at(game: GameState, id: CardId) -> i32 {
    match game.card_at(id) {
        Some(c) => c.cmc,
        None => 0,
    }
}

fn find_mana_value(game: &GameState, id: CardId) -> (r: i32)
    ensures
        r == cmc_at(*game, id),
{
    match game.card(id) {
        Some(c) => c.cmc,
        None => 0,
    }
}

/// The mana value of cards together.
pub open spec fn cmc_sum(game: GameState, ids: Seq<CardId>) -> i32
    decreases ids.len(),
{
    if ids.len() == 0 {
        0
    } else {
        cmc_sum(game, ids.drop_last()).wrapping_add(cmc_at(game, ids.last()))
    }
}

fn add_mana_values(game: &GameState, ids: &Vec<CardId>) -> (r: i32)
    ensures
        r == cmc_sum(*game, ids@),
{
    let ghost all = ids@;
    let mut total: i32 = 0;
    let mut i: usize = 0;
    while i < ids.len()
        invariant
            i <= all.len(),
            all == ids@,
            total == cmc_sum(*game, all.take(i as int)),
        decreases all.len() - i,
    {
        assert(all.take(i + 1).drop_last() =~= all.take(i as int));
        total = total.wrapping_add(find_mana_value(game, ids[i]));
        i = i + 1;
    }
    assert(all.take(i as int) =~= all);
    total
}

/// Whether a part of the cost of a source can be paid.
pub open spec fn part_payable(
    scene: SceneOfPayment,
    st: PayingView,
    source: CardId,
    part: CostPart,
) -> bool {
    let game = scene.game;
    match part {
        CostPart::Tap => true,
        CostPart::Mana { .. } => true,
        CostPart::PayLife(amount) => st.life_of(game, scene.player) >= amount,
        CostPart::SubCounter { amount, counter_type } => st.counters_on(
            game,
            source,
            counter_type@,
        ) >= amount,
        CostPart::Sacrifice { type_filter, amount } => if type_filter@ == "CARDNAME"@ {
            amount <= 1 && st.zone_of(game, source) == Some(ZoneType::Battlefield)
                && !scene.reserved.contains(source)
        } else {
            targets(
                scene,
                st,
                source,
                WantedView::Sacrifice { filter: type_filter@ },
                ZoneType::Battlefield,
            ).len() >= amount
        },
        CostPart::Exile { amount, from, type_filter, of_source } => if of_source {
            amount <= 1 && st.zone_of(game, source) == Some(from)
        } else {
            targets(
                scene,
                st,
                source,
                WantedView::Exile { filter: type_filter@ },
                from,
            ).len() >= amount
        },
        CostPart::CollectEvidence(amount) => cmc_sum(
            game,
            targets(scene, st, source, WantedView::Evidence, ZoneType::Graveyard),
        ) >= amount,
        CostPart::TapType { amount, type_filter, min_total_power, can_tap_source } => tap_choice(
            scene,
            st,
            source,
            amount,
            type_filter@,
            min_total_power,
            can_tap_source,
            None,
        ).len() > 0,
        _ => false,
    }
}

pub fn is_at_least(n: usize, amount: i32) -> (r: bool)
    ensures
        r == (n >= amount),
{
    if amount <= 0 {
        true
    } else {
        n >= amount as usize
    }
}

/// Says whether a part of the cost of a source can be paid.
pub fn can_pay_source_paid_mana_cost_part(
    scene: PayScene<'_>,
    st: &Paying,
    source: CardId,
    part: &CostPart,
) -> (r: bool)
    ensures
        r == part_payable(scene@, st@, source, *part),
{
    let game = scene.game;
    match part {
        CostPart::Tap => true,
        CostPart::Mana { .. } => true,
        CostPart::PayLife(amount) => st.find_life(game, scene.player) >= *amount,
        CostPart::SubCounter { amount, counter_type } => st.count_counters(
            game,
            source,
            counter_type.as_str(),
        ) >= *amount,
        CostPart::Sacrifice { type_filter, amount } => {
            if text_eq(type_filter.as_str(), "CARDNAME") {
                let there = match st.find_zone(game, source) {
                    Some(z) => z == ZoneType::Battlefield,
                    None => false,
                };
                *amount <= 1 && there && !has_card(scene.reserved, source)
            } else {
                let v = list_targets(
                    scene,
                    st,
                    source,
                    &Wanted::Sacrifice { filter: type_filter.as_str() },
                    ZoneType::Battlefield,
                );
                is_at_least(v.len(), *amount)
            }
        },
        CostPart::Exile { amount, from, type_filter, of_source } => {
            if *of_source {
                let there = match st.find_zone(game, source) {
                    Some(z) => z == *from,
                    None => false,
                };
                *amount <= 1 && there
            } else {
                let v = list_targets(
                    scene,
                    st,
                    source,
                    &Wanted::Exile { filter: type_filter.as_str() },
                    *from,
                );
                is_at_least(v.len(), *amount)
            }
        },
        CostPart::CollectEvidence(amount) => {
            let v = list_targets(scene, st, source, &Wanted::Evidence, ZoneType::Graveyard);
            add_mana_values(game, &v) >= *amount
        },
        CostPart::TapType { amount, type_filter, min_total_power, can_tap_source } => {
            choose_tap_type_targets(
                scene,
                st,
                source,
                *amount,
                type_filter.as_str(),
                *min_total_power,
                *can_tap_source,
                None,
            ).len() > 0
        },
        _ => false,
    }
}

/// Whether all the parts of a cost can be paid.
pub open spec fn parts_payable(
    scene: SceneOfPayment,
    st: PayingView,
    source: CardId,
    parts: Seq<CostPart>,
) -> bool {
    forall|i: int| 0 <= i < parts.len() ==> part_payable(scene, st, source, #[trigger] parts[i])
}

pub fn can_pay_parts(scene: PayScene<'_>, st: &Paying, source: CardId, parts: &Vec<CostPart>) -> (r:
    bool)
    ensures
        r == parts_payable(scene@, st@, source, parts@),
{
    let mut i: usize = 0;
    while i < parts.len()
        invariant
            i <= parts@.len(),
            forall|k: int|
                0 <= k < i ==> part_payable(scene@, st@, source, #[trigger] parts@[k]),
        decreases parts@.len() - i,
    {
        if !can_pay_source_paid_mana_cost_part(scene, st, source, &parts[i]) {
            assert(!part_payable(scene@, st@, source, parts@[i as int]));
            return false;
        }
        i = i + 1;
    }
    true
}

/// Whether the costs of a way to pay can be paid, but for tapping.
pub open spec fn non_tap_payable(
    scene: SceneOfPayment,
    st: PayingView,
    card: CardId,
    index: Option<usize>,
) -> bool {
    match index {
        None => true,
        Some(_) => match ability_used(scene.game, card, index) {
            Some(ab) => parts_payable(scene, st, card, ab.cost@),
            None => false,
        },
    }
}

pub fn can_pay_non_tap_mana_ability_costs(
    scene: PayScene<'_>,
    st: &Paying,
    card: CardId,
    index: Option<usize>,
) -> (r: bool)
    ensures
        r == non_tap_payable(scene@, st@, card, index),
{
    if index.is_none() {
        return true;
    }
    match mana_ability_of(scene.game, card, index) {
        Some(ab) => can_pay_parts(scene, st, card, &ab.cost),
        None => false,
    }
}

// ---- how a part is paid ----

/// A list without a card.
pub open spec fn without_card(ids: Seq<CardId>, id: CardId) -> Seq<CardId>
    decreases ids.len(),
{
    if ids.len() == 0 {
        Seq::empty()
    } else {
        let before = without_card(ids.drop_last(), id);
        if ids.last() == id {
            before
        } else {
            before.push(ids.last())
        }
    }
}

pub fn drop_card(ids: &Vec<CardId>, id: CardId) -> (r: Vec<CardId>)
    ensures
        r@ == without_card(ids@, id),
{
    let ghost all = ids@;
    let mut out: Vec<CardId> = Vec::new();
    let mut i: usize = 0;
    while i < ids.len()
        invariant
            i <= all.len(),
            all == ids@,
            out@ == without_card(all.take(i as int), id),
        decreases all.len() - i,
    {
        assert(all.take(i + 1).drop_last() =~= all.take(i as int));
        if ids[i] != id {
            out.push(ids[i]);
        }
        i = i + 1;
    }
    assert(all.take(i as int) =~= all);
    out
}

/// The first cards of a list, each of them once.
pub open spec fn first_each(ids: Seq<CardId>, n: nat) -> Seq<CardId>
    decreases n,
{
    if n == 0 || ids.len() == 0 {
        Seq::empty()
    } else {
        seq![ids[0]] + first_each(without_card(ids, ids[0]), (n - 1) as nat)
    }
}

pub fn list_first_each(ids: &Vec<CardId>, n: usize) -> (r: Vec<CardId>)
    ensures
        r@ == first_each(ids@, n as nat),
{
    let mut out: Vec<CardId> = Vec::new();
    let mut rest = copy_cards(ids);
    let mut k: usize = n;
    assert(out@ + first_each(rest@, k as nat) =~= first_each(ids@, n as nat));
    while k > 0 && rest.len() > 0
        invariant
            k <= n,
            out@ + first_each(rest@, k as nat) == first_each(ids@, n as nat),
        decreases k,
    {
        let id = rest[0];
        let ghost before = out@;
        let ghost later = first_each(without_card(rest@, id), (k - 1) as nat);
        assert(before + (seq![id] + later) =~= before.push(id) + later);
        out.push(id);
        rest = drop_card(&rest, id);
        k = k - 1;
    }
    assert(out@ + first_each(rest@, k as nat) =~= out@);
    out
}

/// The cards that are sacrificed for a cost, of those that may be.
pub open spec fn sacrificed(valid: Seq<CardId>, n: int, answer: Option<AnswerView>) -> Seq<CardId> {
    match answer {
        Some(a) => if a.cards.len() <= n {
            a.cards
        } else {
            a.cards.take(n)
        },
        None => first_each(valid, n as nat),
    }
}

/// The first cards until their mana value is enough.
pub open spec fn enough_evidence(game: GameState, ids: Seq<CardId>, n: nat, required: i32) -> Seq<
    CardId,
>
    decreases ids.len() - n,
{
    if n >= ids.len() || cmc_sum(game, ids.take(n as int)) >= required {
        ids.take(n as int)
    } else {
        enough_evidence(game, ids, n + 1, required)
    }
}

fn take_evidence(game: &GameState, ids: &Vec<CardId>, required: i32) -> (r: Vec<CardId>)
    ensures
        r@ == enough_evidence(*game, ids@, 0, required),
{
    let ghost all = ids@;
    let mut out: Vec<CardId> = Vec::new();
    let mut total: i32 = 0;
    let mut i: usize = 0;
    while i < ids.len()
        invariant
            i <= all.len(),
            all == ids@,
            out@ == all.take(i as int),
            total == cmc_sum(*game, all.take(i as int)),
            enough_evidence(*game, all, 0, required) == enough_evidence(
                *game,
                all,
                i as nat,
                required,
            ),
        decreases all.len() - i,
    {
        if total >= required {
            return out;
        }
        assert(all.take(i + 1).drop_last() =~= all.take(i as int));
        assert(all.take(i + 1) =~= all.take(i as int).push(all[i as int]));
        total = total.wrapping_add(find_mana_value(game, ids[i]));
        out.push(ids[i]);
        i = i + 1;
    }
    out
}

/// Whether an answer agrees; where none is asked for, it does.
pub open spec fn agrees(answer: Option<AnswerView>) -> bool {
    answer matches Some(a) ==> a.confirmed
}

fn check_agrees(answer: Option<&PartAnswer>) -> (r: bool)
    ensures
        r == agrees(answer_of(answer)),
{
    match answer {
        Some(a) => a.confirmed,
        None => true,
    }
}

/// The outcomes that an answer gives.
pub open spec fn outcomes_of(answer: Option<AnswerView>) -> Seq<MoveOutcome> {
    match answer {
        Some(a) => a.outcomes,
        None => Seq::empty(),
    }
}

/// The state once a card that a cost moves has moved.
pub open spec fn card_moved(
    game: GameState,
    st: PayingView,
    id: CardId,
    outcomes: Seq<MoveOutcome>,
    i: int,
    usual: ZoneType,
) -> PayingView {
    if 0 <= i < outcomes.len() {
        if st.zone_of(game, id) == Some(outcomes[i].zone) {
            st
        } else {
            st.with_moved(id, outcomes[i].zone)
        }
    } else {
        st.with_moved(id, usual)
    }
}

/// Whether the move of a card pays.
pub open spec fn move_pays(outcomes: Seq<MoveOutcome>, i: int) -> bool {
    0 <= i < outcomes.len() ==> outcomes[i].paid
}

/// The state once cards are sacrificed one after the other, and whether that pays. Behind one that
/// does not pay none is sacrificed.
pub open spec fn cards_sacrificed(
    game: GameState,
    st: PayingView,
    ids: Seq<CardId>,
    outcomes: Seq<MoveOutcome>,
) -> (PayingView, bool)
    decreases ids.len(),
{
    if ids.len() == 0 {
        (st, true)
    } else {
        let (s, ok) = cards_sacrificed(game, st, ids.drop_last(), outcomes);
        let i = ids.len() - 1;
        if !ok {
            (s, false)
        } else {
            (
                card_moved(game, s, ids.last(), outcomes, i, ZoneType::Graveyard),
                move_pays(outcomes, i),
            )
        }
    }
}

/// The state once cards are exiled.
pub open spec fn cards_exiled(
    game: GameState,
    st: PayingView,
    ids: Seq<CardId>,
    outcomes: Seq<MoveOutcome>,
) -> PayingView
    decreases ids.len(),
{
    if ids.len() == 0 {
        st
    } else {
        card_moved(
            game,
            cards_exiled(game, st, ids.drop_last(), outcomes),
            ids.last(),
            outcomes,
            ids.len() - 1,
            ZoneType::Exile,
        )
    }
}

fn move_one(
    game: &GameState,
    st: &mut Paying,
    id: CardId,
    answer: Option<&PartAnswer>,
    i: usize,
    usual: ZoneType,
) -> (r: bool)
    ensures
        final(st)@ == card_moved(
            *game,
            old(st)@,
            id,
            outcomes_of(answer_of(answer)),
            i as int,
            usual,
        ),
        r == move_pays(outcomes_of(answer_of(answer)), i as int),
{
    if let Some(a) = answer {
        if i < a.outcomes.len() {
            let o = a.outcomes[i];
            let there = match st.find_zone(game, id) {
                Some(z) => z == o.zone,
                None => false,
            };
            if !there {
                st.move_card(id, o.zone);
            }
            return o.paid;
        }
    }
    st.move_card(id, usual);
    true
}

proof fn lemma_sacrifice_stopped(
    game: GameState,
    st: PayingView,
    ids: Seq<CardId>,
    outcomes: Seq<MoveOutcome>,
    n: int,
)
    requires
        0 <= n <= ids.len(),
        !cards_sacrificed(game, st, ids.take(n), outcomes).1,
    ensures
        cards_sacrificed(game, st, ids, outcomes) == cards_sacrificed(
            game,
            st,
            ids.take(n),
            outcomes,
        ),
    decreases ids.len() - n,
{
    if n < ids.len() {
        assert(ids.take(n + 1).drop_last() =~= ids.take(n));
        lemma_sacrifice_stopped(game, st, ids, outcomes, n + 1);
    } else {
        assert(ids.take(n) =~= ids);
    }
}

fn sacrifice_cards(
    game: &GameState,
    st: &mut Paying,
    ids: &Vec<CardId>,
    answer: Option<&PartAnswer>,
) -> (r: bool)
    ensures
        (final(st)@, r) == cards_sacrificed(
            *game,
            old(st)@,
            ids@,
            outcomes_of(answer_of(answer)),
        ),
{
    let ghost start = st@;
    let ghost all = ids@;
    let ghost outcomes = outcomes_of(answer_of(answer));
    let mut i: usize = 0;
    while i < ids.len()
        invariant
            i <= all.len(),
            all == ids@,
            start == old(st)@,
            outcomes == outcomes_of(answer_of(answer)),
            (st@, true) == cards_sacrificed(*game, start, all.take(i as int), outcomes),
        decreases all.len() - i,
    {
        assert(all.take(i + 1).drop_last() =~= all.take(i as int));
        assert(all.take(i + 1).last() == all[i as int]);
        if !move_one(game, st, ids[i], answer, i, ZoneType::Graveyard) {
            proof {
                lemma_sacrifice_stopped(*game, start, all, outcomes, i + 1);
            }
            return false;
        }
        i = i + 1;
    }
    assert(all.take(i as int) =~= all);
    true
}

fn exile_cards(game: &GameState, st: &mut Paying, ids: &Vec<CardId>, answer: Option<&PartAnswer>)
    ensures
        final(st)@ == cards_exiled(*game, old(st)@, ids@, outcomes_of(answer_of(answer))),
{
    let ghost start = st@;
    let ghost all = ids@;
    let mut i: usize = 0;
    while i < ids.len()
        invariant
            i <= all.len(),
            all == ids@,
            st@ == cards_exiled(*game, start, all.take(i as int), outcomes_of(answer_of(answer))),
        decreases all.len() - i,
    {
        assert(all.take(i + 1).drop_last() =~= all.take(i as int));
        assert(all.take(i + 1).last() == all[i as int]);
        move_one(game, st, ids[i], answer, i, ZoneType::Exile);
        i = i + 1;
    }
    assert(all.take(i as int) =~= all);
}

/// What paying a part comes to: the state after it, the cards that were chosen for it, and whether
/// it is paid. Where it is not, the state is as it was, but for cards that were sacrificed before
/// one whose sacrifice did not pay.
pub open spec fn part_paid(
    scene: SceneOfPayment,
    st: PayingView,
    source: CardId,
    part: CostPart,
    answer: Option<AnswerView>,
) -> (PayingView, Seq<CardId>, bool) {
    let game = scene.game;
    let outcomes = outcomes_of(answer);
    match part {
        CostPart::Tap => (st, Seq::empty(), true),
        CostPart::Mana { .. } => (st, Seq::empty(), true),
        CostPart::PayLife(amount) => if st.life_of(game, scene.player) < amount || !agrees(answer) {
            (st, Seq::empty(), false)
        } else {
            (st.with_life_lost(amount), Seq::empty(), true)
        },
        CostPart::SubCounter { amount, counter_type } => if st.counters_on(
            game,
            source,
            counter_type@,
        ) < amount || !agrees(answer) {
            (st, Seq::empty(), false)
        } else {
            (st.with_counters_removed(source, counter_type@, amount), Seq::empty(), true)
        },
        CostPart::Sacrifice { type_filter, amount } => if type_filter@ == "CARDNAME"@ {
            if amount > 1 || st.zone_of(game, source) != Some(ZoneType::Battlefield) || !agrees(
                answer,
            ) {
                (st, Seq::empty(), false)
            } else {
                let (s, ok) = cards_sacrificed(game, st, seq![source], outcomes);
                (s, Seq::empty(), ok)
            }
        } else {
            let valid = sacrifice_targets(scene, st, source, type_filter@);
            if valid.len() < at_least_none(amount) {
                (st, Seq::empty(), false)
            } else {
                let (s, ok) = cards_sacrificed(
                    game,
                    st,
                    sacrificed(valid, at_least_none(amount), answer),
                    outcomes,
                );
                (s, Seq::empty(), ok)
            }
        },
        CostPart::Exile { amount, from, type_filter, of_source } => if of_source {
            if amount > 1 || st.zone_of(game, source) != Some(from) || !agrees(answer) {
                (st, Seq::empty(), false)
            } else {
                (cards_exiled(game, st, seq![source], outcomes), Seq::empty(), true)
            }
        } else {
            let n = at_least_none(amount);
            let valid = targets(
                scene,
                st,
                source,
                WantedView::Exile { filter: type_filter@ },
                from,
            );
            if valid.len() < n {
                (st, Seq::empty(), false)
            } else if n == 0 {
                (st, Seq::empty(), true)
            } else if !agrees(answer) {
                (st, Seq::empty(), false)
            } else {
                let chosen = match answer {
                    Some(a) => a.cards,
                    None => valid.take(n),
                };
                (cards_exiled(game, st, chosen, outcomes), chosen, true)
            }
        },
        CostPart::CollectEvidence(amount) => {
            let valid = targets(scene, st, source, WantedView::Evidence, ZoneType::Graveyard);
            let chosen = match answer {
                Some(a) => a.cards,
                None => enough_evidence(game, valid, 0, amount),
            };
            if valid.len() == 0 || cmc_sum(game, chosen) < amount {
                (st, Seq::empty(), false)
            } else {
                (cards_exiled(game, st, chosen, outcomes), chosen, true)
            }
        },
        CostPart::TapType { amount, type_filter, min_total_power, can_tap_source } => {
            let chosen = tap_choice(
                scene,
                st,
                source,
                amount,
                type_filter@,
                min_total_power,
                can_tap_source,
                answer,
            );
            if chosen.len() == 0 {
                (st, Seq::empty(), false)
            } else {
                (st.with_all_tapped(chosen), chosen, true)
            }
        },
        _ => (st, Seq::empty(), false),
    }
}

/// The cards that may be sacrificed for a cost, in the order in which they are shown.
pub open spec fn sacrifice_targets(
    scene: SceneOfPayment,
    st: PayingView,
    source: CardId,
    filter: Seq<char>,
) -> Seq<CardId> {
    by_name(
        scene.game,
        targets(scene, st, source, WantedView::Sacrifice { filter }, ZoneType::Battlefield),
    )
}

pub fn list_sacrifice_targets(scene: PayScene<'_>, st: &Paying, source: CardId, filter: &str) -> (r:
    Vec<CardId>)
    ensures
        r@ == sacrifice_targets(scene@, st@, source, filter@),
{
    let found = list_targets(
        scene,
        st,
        source,
        &Wanted::Sacrifice { filter },
        ZoneType::Battlefield,
    );
    sort_by(&found, &ByName { game: scene.game })
}

pub fn take_answer(a: &PartAnswer, n: usize) -> (r: Vec<CardId>)
    ensures
        r@ == (if a.cards@.len() <= n {
            a.cards@
        } else {
            a.cards@.take(n as int)
        }),
{
    if a.cards.len() <= n {
        copy_cards(&a.cards)
    } else {
        take_cards(&a.cards, n)
    }
}

/// Pays a part of the cost of a source.
pub fn pay_part(
    scene: PayScene<'_>,
    st: &mut Paying,
    source: CardId,
    part: &CostPart,
    answer: Option<&PartAnswer>,
    cost_cards: &mut Vec<CardId>,
) -> (r: bool)
    ensures
        ({
            let (after, chosen, ok) = part_paid(
                scene@,
                old(st)@,
                source,
                *part,
                answer_of(answer),
            );
            &&& r == ok
            &&& final(st)@ == after
            &&& final(cost_cards)@ == old(cost_cards)@ + chosen
        }),
{
    let game = scene.game;
    assert(cost_cards@ + Seq::<CardId>::empty() =~= cost_cards@);
    match part {
        CostPart::Tap => true,
        CostPart::Mana { .. } => true,
        CostPart::PayLife(amount) => {
            if st.find_life(game, scene.player) < *amount || !check_agrees(answer) {
                return false;
            }
            st.lose_life(*amount);
            true
        },
        CostPart::SubCounter { amount, counter_type } => {
            if st.count_counters(game, source, counter_type.as_str()) < *amount || !check_agrees(
                answer,
            ) {
                return false;
            }
            st.remove_counters(source, counter_type.as_str(), *amount);
            true
        },
        CostPart::Sacrifice { type_filter, amount } => {
            if text_eq(type_filter.as_str(), "CARDNAME") {
                let there = match st.find_zone(game, source) {
                    Some(z) => z == ZoneType::Battlefield,
                    None => false,
                };
                if *amount > 1 || !there || !check_agrees(answer) {
                    return false;
                }
                let mut own: Vec<CardId> = Vec::new();
                own.push(source);
                assert(own@ =~= seq![source]);
                return sacrifice_cards(game, st, &own, answer);
            }
            let valid = list_sacrifice_targets(scene, st, source, type_filter.as_str());
            let n: usize = count_asked(*amount);
            if valid.len() < n {
                return false;
            }
            let chosen = match answer {
                Some(a) => take_answer(a, n),
                None => list_first_each(&valid, n),
            };
            sacrifice_cards(game, st, &chosen, answer)
        },
        CostPart::Exile { amount, from, type_filter, of_source } => {
            if *of_source {
                let there = match st.find_zone(game, source) {
                    Some(z) => z == *from,
                    None => false,
                };
                if *amount > 1 || !there || !check_agrees(answer) {
                    return false;
                }
                let mut own: Vec<CardId> = Vec::new();
                own.push(source);
                assert(own@ =~= seq![source]);
                exile_cards(game, st, &own, answer);
                return true;
            }
            let n: usize = count_asked(*amount);
            let valid = list_targets(
                scene,
                st,
                source,
                &Wanted::Exile { filter: type_filter.as_str() },
                *from,
            );
            if valid.len() < n {
                return false;
            }
            if n == 0 {
                return true;
            }
            let chosen = match answer {
                Some(a) => {
                    if !a.confirmed {
                        return false;
                    }
                    copy_cards(&a.cards)
                },
                None => take_cards(&valid, n),
            };
            exile_cards(game, st, &chosen, answer);
            extend_cards(cost_cards, &chosen);
            true
        },
        CostPart::CollectEvidence(amount) => {
            let valid = list_targets(scene, st, source, &Wanted::Evidence, ZoneType::Graveyard);
            if valid.len() == 0 {
                return false;
            }
            let chosen = match answer {
                Some(a) => copy_cards(&a.cards),
                None => take_evidence(game, &valid, *amount),
            };
            if add_mana_values(game, &chosen) < *amount {
                return false;
            }
            exile_cards(game, st, &chosen, answer);
            extend_cards(cost_cards, &chosen);
            true
        },
        CostPart::TapType { amount, type_filter, min_total_power, can_tap_source } => {
            let chosen = choose_tap_type_targets(
                scene,
                st,
                source,
                *amount,
                type_filter.as_str(),
                *min_total_power,
                *can_tap_source,
                answer,
            );
            if chosen.len() == 0 {
                return false;
            }
            st.tap_all(&chosen);
            extend_cards(cost_cards, &chosen);
            true
        },
        _ => false,
    }
}

/// The answer about the part at a place, where there is one.
pub open spec fn part_answer(answers: Option<Seq<AnswerView>>, i: int) -> Option<AnswerView> {
    match answers {
        Some(v) => if 0 <= i < v.len() {
            Some(v[i])
        } else {
            None
        },
        None => None,
    }
}

/// What paying parts comes to: the state, the cards that were chosen, and whether all were paid.
/// Nothing is paid behind a part that is not.
pub open spec fn parts_paid(
    scene: SceneOfPayment,
    st: PayingView,
    source: CardId,
    parts: Seq<CostPart>,
    answers: Seq<AnswerView>,
) -> (PayingView, Seq<CardId>, bool)
    decreases parts.len(),
{
    if parts.len() == 0 {
        (st, Seq::empty(), true)
    } else {
        let (s, cards, ok) = parts_paid(scene, st, source, parts.drop_last(), answers);
        if !ok {
            (s, cards, false)
        } else {
            let (after, chosen, paid) = part_paid(
                scene,
                s,
                source,
                parts.last(),
                part_answer(Some(answers), parts.len() - 1),
            );
            (after, cards + chosen, paid)
        }
    }
}

/// What paying the costs of a way to pay comes to, but for tapping.
pub open spec fn non_tap_paid(
    scene: SceneOfPayment,
    st: PayingView,
    card: CardId,
    index: Option<usize>,
    answers: Seq<AnswerView>,
) -> (PayingView, Seq<CardId>, bool) {
    match index {
        None => (st, Seq::empty(), true),
        Some(_) => match ability_used(scene.game, card, index) {
            Some(ab) => parts_paid(scene, st, card, ab.cost@, answers),
            None => (st, Seq::empty(), false),
        },
    }
}

pub proof fn lemma_stopped(
    scene: SceneOfPayment,
    st: PayingView,
    source: CardId,
    parts: Seq<CostPart>,
    answers: Seq<AnswerView>,
    n: int,
)
    requires
        0 <= n <= parts.len(),
        !parts_paid(scene, st, source, parts.take(n), answers).2,
    ensures
        parts_paid(scene, st, source, parts, answers) == parts_paid(
            scene,
            st,
            source,
            parts.take(n),
            answers,
        ),
    decreases parts.len() - n,
{
    if n < parts.len() {
        assert(parts.take(n + 1).drop_last() =~= parts.take(n));
        lemma_stopped(scene, st, source, parts, answers, n + 1);
    } else {
        assert(parts.take(n) =~= parts);
    }
}

/// Pays the costs of a way to pay, but for tapping. `answers` has what was answered about the
/// parts of the cost, in their order; where there is no answer, the first cards are used.
pub fn pay_non_tap_mana_ability_costs(
    scene: PayScene<'_>,
    st: &mut Paying,
    card: CardId,
    index: Option<usize>,
    answers: &Vec<PartAnswer>,
    cost_cards: &mut Vec<CardId>,
) -> (r: bool)
    ensures
        ({
            let (after, chosen, ok) = non_tap_paid(
                scene@,
                old(st)@,
                card,
                index,
                answer_views(answers@),
            );
            &&& r == ok
            &&& final(st)@ == after
            &&& final(cost_cards)@ == old(cost_cards)@ + chosen
        }),
{
    assert(cost_cards@ + Seq::<CardId>::empty() =~= cost_cards@);
    if index.is_none() {
        return true;
    }
    let ab = match mana_ability_of(scene.game, card, index) {
        Some(a) => a,
        None => {
            return false;
        },
    };
    let ghost start = st@;
    let ghost first = cost_cards@;
    let ghost all = ab.cost@;
    let ghost views = answer_views(answers@);
    let mut i: usize = 0;
    while i < ab.cost.len()
        invariant
            i <= all.len(),
            all == ab.cost@,
            views == answer_views(answers@),
            ability_used(*scene.game, card, index) == Some(*ab),
            index is Some,
            start == old(st)@,
            first == old(cost_cards)@,
            parts_paid(scene@, start, card, all.take(i as int), views).0 == st@,
            first + parts_paid(scene@, start, card, all.take(i as int), views).1 == cost_cards@,
            parts_paid(scene@, start, card, all.take(i as int), views).2,
        decreases all.len() - i,
    {
        assert(all.take(i + 1).drop_last() =~= all.take(i as int));
        assert(all.take(i + 1).last() == all[i as int]);
        let answer = if i < answers.len() {
            Some(&answers[i])
        } else {
            None
        };
        assert(answer_of(answer) == part_answer(Some(views), i as int));
        let ghost before = cost_cards@;
        let ghost so_far = parts_paid(scene@, start, card, all.take(i as int), views).1;
        let paid = pay_part(scene, st, card, &ab.cost[i], answer, cost_cards);
        proof {
            let done = part_paid(
                scene@,
                parts_paid(scene@, start, card, all.take(i as int), views).0,
                card,
                all[i as int],
                part_answer(Some(views), i as int),
            );
            assert((first + so_far) + done.1 =~= first + (so_far + done.1));
        }
        if !paid {
            proof {
                lemma_stopped(scene@, start, card, all, views, i + 1);
            }
            return false;
        }
        i = i + 1;
    }
    assert(all.take(i as int) =~= all);
    true
}

} // verus!
