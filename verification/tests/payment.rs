use manabrew_engine::game::{Card, CardMatch, Counter, GameState, TapTrigger};
use manabrew_engine::mana::ability::{ActivatedAbility, CostPart, ProducedMana};
use manabrew_engine::mana::ai_sources::get_ai_available_mana_sources;
use manabrew_engine::mana::atoms::{
    atom_short, atoms_as_mana_string, repeat_atoms, shard_color_rank, ManaCostShard,
};
use manabrew_engine::mana::apply::{
    auto_tap_lands_with_options, settle_payment, PaymentOptions,
};
use manabrew_engine::mana::auto_tap::auto_tap_lands;
use manabrew_engine::mana::autopay::{PayMode, Payment, TapAnswer};
use manabrew_engine::mana::convoke::adjust_cost_by_convoke_or_improvise;
use manabrew_engine::mana::cost::{ManaCost, ManaCostBeingPaid};
use manabrew_engine::mana::cost_parts::{pay_part, MoveOutcome, PartAnswer, PayScene};
use manabrew_engine::mana::masks::can_pay_mana_cost_with_reserved_sacrifices;
use manabrew_engine::mana::paying::Paying;
use manabrew_engine::mana::pool::{read_mana, ManaPool, ManaProductionParams};
use manabrew_engine::mana::probe::{
    can_pay_ability_mana_cost_for_action_space, can_pay_spell_mana_cost_for_action_space,
};
use manabrew_engine::mana::probe_choice::most_prominent_color;
use manabrew_engine::mana::prompts::{
    color_question, pool_question, pool_question_in_use, produced_mana_question,
    trigger_color_question,
};
use manabrew_engine::mana::produce::predict_reflected_mana;
use manabrew_engine::mana::questions::{
    auto_tap_lands_generic, collect_mana_payment_sources, next_payment_question, payment_notice,
    payment_question, reapply_non_undoable_payment_ability, ManaPayCallback,
};
use manabrew_engine::mana::rank::score_mana_ability;
use manabrew_engine::mana::riders::ManaRiders;
use manabrew_engine::mana::shards::{next_auto_float_choice, next_auto_tap_choice};
use manabrew_engine::mana::sources::{
    get_available_mana_sources, group_sources_by_mana_color, ManaPaymentContext,
};
use manabrew_engine::types::{CardId, PlayerId, ZoneType};

const P0: PlayerId = PlayerId(0);
const W: u16 = 1;
const U: u16 = 2;
const R: u16 = 8;
const G: u16 = 16;

fn ability(cost: Vec<CostPart>, text: &str, atoms: Vec<u16>) -> ActivatedAbility {
    ActivatedAbility {
        ability_index: 0,
        is_mana_ability: true,
        is_mana_reflected: false,
        activation_zone: None,
        cost,
        other_costs_payable: true,
        script_requirements_met: true,
        restrict_valid: None,
        amount: None,
        produced: Some(ProducedMana {
            text: text.to_string(),
            combo_color_identity: false,
            combo: false,
            any_like: atoms.len() > 1,
            fixed: None,
            special: false,
            special_atoms: Vec::new(),
            atoms,
        }),
        reflected_atoms: Vec::new(),
        reflected_available_atoms: Vec::new(),
        replaced_atoms: Vec::new(),
        sub_ability: None,
        ai_logic: None,
        riders: ManaRiders::none(),
        ability_text: String::new(),
        cost_text: String::new(),
        prompt_mana: vec![text.to_string()],
        prompt_amount: 1,
    }
}

fn add(game: &mut GameState, card: Card) -> CardId {
    let id = game.create_card(card);
    game.cards[id.0 as usize].zone = ZoneType::Battlefield;
    game.zone_order.push(id);
    id
}

fn land(game: &mut GameState, text: &str, atom: u16) -> CardId {
    let mut card = Card::new(CardId(0), text, P0);
    card.types.land = true;
    card.activated_abilities.push(ability(vec![CostPart::Tap], text, vec![atom]));
    add(game, card)
}

fn spell(game: &mut GameState) -> CardId {
    let mut card = Card::new(CardId(0), "Spell", P0);
    card.types.creature = true;
    let id = game.create_card(card);
    game.cards[id.0 as usize].zone = ZoneType::Hand;
    game.zone_order.push(id);
    id
}

fn cost(generic: i32, masks: &[u16]) -> ManaCost {
    ManaCost { generic, shards: masks.iter().map(|&mask| ManaCostShard { mask }).collect() }
}

fn for_spell() -> ManaPaymentContext {
    ManaPaymentContext { is_spell: true, restrictions_met: Vec::new() }
}

fn pool_of(atoms: &[u16]) -> ManaPool {
    let mut pool = ManaPool::new();
    let p = ManaProductionParams {
        source_card: CardId(0),
        is_snow: false,
        restriction: None,
        riders: ManaRiders::none(),
    };
    pool.add_atoms(&atoms.to_vec(), &p);
    pool
}

// ---- costs and pools ----

#[test]
fn a_cost_is_paid_symbol_by_symbol() {
    let mut unpaid = ManaCostBeingPaid::from_mana_cost(&cost(2, &[R, R]));
    assert_eq!(unpaid.cmc(), 4);
    assert_eq!(unpaid.get_generic_mana_amount(), 2);
    assert_eq!(unpaid.get_unpaid_shards(ManaCostShard { mask: R }), 2);
    assert_eq!(unpaid.get_unpaid_colors(), R);
    assert!(unpaid.needs_color(R));
    assert!(!unpaid.needs_color(G));
    // Red pays its own symbols before generic mana.
    assert!(unpaid.try_pay_mana(R));
    assert_eq!(unpaid.get_unpaid_shards(ManaCostShard { mask: R }), 1);
    assert!(unpaid.try_pay_mana(G));
    assert_eq!(unpaid.get_generic_mana_amount(), 1);
    assert!(unpaid.try_pay_mana(R));
    assert!(unpaid.try_pay_mana(R));
    assert!(unpaid.is_paid());
    assert!(!unpaid.try_pay_mana(R));
}

#[test]
fn mana_of_the_wrong_color_pays_nothing() {
    let mut unpaid = ManaCostBeingPaid::from_mana_cost(&cost(0, &[W]));
    assert!(!unpaid.try_pay_mana(R));
    assert_eq!(unpaid.cmc(), 1);
    unpaid.increase_shard(ManaCostShard { mask: W }, 2);
    assert_eq!(unpaid.cmc(), 3);
    unpaid.decrease_shard(ManaCostShard { mask: W }, 3);
    assert!(unpaid.is_paid());
}

#[test]
fn phyrexian_symbols_can_be_paid_with_life() {
    let phyrexian = G | 1024;
    let mut unpaid = ManaCostBeingPaid::from_mana_cost(&cost(0, &[phyrexian, phyrexian]));
    assert!(unpaid.contains_only_phyrexian_mana());
    assert_eq!(unpaid.required_phyrexian_life(), 4);
    assert!(unpaid.pay_phyrexian());
    assert_eq!(unpaid.required_phyrexian_life(), 2);
    assert!(unpaid.try_pay_mana(G));
    assert!(unpaid.is_paid());
    assert!(!unpaid.pay_phyrexian());
}

#[test]
fn mana_texts_are_read_and_written() {
    assert_eq!(read_mana("G G"), vec![G, G]);
    assert_eq!(read_mana("3"), vec![32, 32, 32]);
    assert_eq!(atoms_as_mana_string(&vec![W, U, R]), "W U R");
    assert_eq!(atom_short(G), "G");
    assert_eq!(repeat_atoms(&vec![R, G], 2), vec![R, G, R, G]);
}

#[test]
fn a_pool_counts_its_mana() {
    let pool = pool_of(&[R, G, R]);
    assert_eq!(pool.total_mana(), 3);
    assert_eq!(pool.count(R), 2);
    assert_eq!(pool.count(W), 0);
    assert_eq!(pool.atoms_by_color(), vec![R, R, G]);
}

#[test]
fn restricted_mana_is_left_out_of_context() {
    let mut pool = pool_of(&[G]);
    let p = ManaProductionParams {
        source_card: CardId(0),
        is_snow: false,
        riders: ManaRiders::none(),
        restriction: Some("Spell.Elemental".to_string()),
    };
    pool.add_atoms(&vec![R], &p);
    let ctx = for_spell();
    assert_eq!(pool.filtered_for_context(Some(&ctx)).total_mana(), 1);
    let elemental = ManaPaymentContext {
        is_spell: true,
        restrictions_met: vec!["Spell.Elemental".to_string()],
    };
    assert_eq!(pool.filtered_for_context(Some(&elemental)).total_mana(), 2);
}

#[test]
fn restricted_mana_waits_for_its_context() {
    let mut pool = ManaPool::new();
    let p = ManaProductionParams {
        source_card: CardId(0),
        is_snow: false,
        riders: ManaRiders::none(),
        restriction: Some("Spell.Elemental".to_string()),
    };
    pool.add_atoms(&vec![R], &p);
    let price = cost(0, &[R]);
    let mode = PayMode { ctx: None, incremental: true, any_color: false };
    assert!(!Payment::start(&mode, &price, &pool, &Vec::new()).unpaid.is_paid());
    let elemental = ManaPaymentContext {
        is_spell: true,
        restrictions_met: vec!["Spell.Elemental".to_string()],
    };
    let mode = PayMode { ctx: Some(&elemental), incremental: true, any_color: false };
    let paid = Payment::start(&mode, &price, &pool, &Vec::new());
    assert!(paid.unpaid.is_paid());
    assert_eq!(paid.spent.entries.len(), 1);
    assert_eq!(paid.spent.entries[0].color, R);
    assert_eq!(paid.pool.total_mana(), 0);
}

#[test]
fn ranks_go_by_color() {
    let ranks: Vec<u8> =
        [W, U, 4, R, G].iter().map(|&m| shard_color_rank(ManaCostShard { mask: m })).collect();
    let mut sorted = ranks.clone();
    sorted.sort();
    assert_eq!(ranks, sorted);
}

// ---- payments ----

#[test]
fn a_cost_that_the_pool_pays_uses_no_source() {
    let mut game = GameState::new(2, 20);
    let forest = land(&mut game, "G", G);
    let mut pool = pool_of(&[G, R]);
    assert!(auto_tap_lands(&mut game, &mut pool, P0, &cost(1, &[G]), None).is_empty());
    assert!(!game.card(forest).unwrap().tapped);
}

#[test]
fn colored_symbols_take_sources_of_their_color() {
    let mut game = GameState::new(2, 20);
    let plains = land(&mut game, "W", W);
    let mountain = land(&mut game, "R", R);
    let mut pool = ManaPool::new();
    assert_eq!(
        auto_tap_lands(&mut game, &mut pool, P0, &cost(0, &[R]), None),
        vec![mountain]
    );
    assert!(!game.card(plains).unwrap().tapped);
    assert_eq!(pool.count(R), 1);
}

#[test]
fn a_trace_tells_what_was_paid() {
    let mut game = GameState::new(2, 20);
    let mountain = land(&mut game, "R", R);
    let forest = land(&mut game, "G", G);
    let ctx = for_spell();
    let id = spell(&mut game);
    let mut pool = ManaPool::new();
    let trace = auto_tap_lands_with_options(
        &mut game,
        &mut pool,
        P0,
        &cost(1, &[G]),
        Some(id),
        &PaymentOptions {
            payment_ctx: Some(&ctx),
            consume_incrementally: false,
            any_color_conversion: false,
            allow_reserved_source_reuse: false,
            reserved_sacrifices: &Vec::new(),
            first_choices: &Vec::new(),
            answers: &Vec::new(),
        },
    );
    assert!(trace.paid);
    let cards: Vec<CardId> = trace.choices.iter().map(|c| c.card_id).collect();
    assert_eq!(cards, vec![forest, mountain]);
    assert_eq!(trace.payment.life_paid, 0);
}

#[test]
fn what_is_predicted_is_what_is_tapped_first() {
    let mut game = GameState::new(2, 20);
    land(&mut game, "W", W);
    let mountain = land(&mut game, "R", R);
    let pool = ManaPool::new();
    let price = cost(0, &[R]);
    let next = next_auto_tap_choice(&game, &pool, P0, &price, None, false).unwrap();
    assert_eq!(next.card_id, mountain);
    let float =
        next_auto_float_choice(&game, &pool, P0, &price, None, false, &Vec::new(), None).unwrap();
    assert_eq!(float.card_id, mountain);
    assert_eq!(float.chosen_atom, R);
    let mut left = ManaPool::new();
    assert_eq!(auto_tap_lands(&mut game, &mut left, P0, &price, None)[0], float.card_id);
    // A cost that is paid asks for nothing more.
    assert!(next_auto_tap_choice(&game, &pool_of(&[R]), P0, &price, None, false).is_none());
}

#[test]
fn the_next_source_is_the_one_that_is_used() {
    let mut game = GameState::new(2, 20);
    let plains = land(&mut game, "W", W);
    let mountain = land(&mut game, "R", R);
    let reserved = Vec::new();
    let scene =
        PayScene { game: &game, player: P0, spell: None, reuse: false, reserved: &reserved };
    let mode = PayMode { ctx: None, incremental: false, any_color: false };
    let answer = TapAnswer {
        parts: Vec::new(),
        replaced: None,
        colors: Vec::new(),
        pool_choices: Vec::new(),
    };
    let mut p = Payment::start(&mode, &cost(1, &[R]), &ManaPool::new(), &Vec::new());
    assert_eq!(p.next_source(scene, &mode), Some((mountain, Some(0))));
    assert!(p.use_next(scene, &mode, &answer));
    assert_eq!(p.choices[0].card_id, mountain);
    assert!(p.st.check_tapped(&game, mountain));
    assert_eq!(p.next_source(scene, &mode), Some((plains, Some(0))));
    assert!(p.use_next(scene, &mode, &answer));
    assert!(p.unpaid.is_paid());
    assert_eq!(p.next_source(scene, &mode), None);
    assert!(!p.use_next(scene, &mode, &answer));
    assert_eq!(p.choices.len(), 2);
}

#[test]
fn generic_mana_taps_lands_in_order() {
    let mut game = GameState::new(2, 20);
    let a = land(&mut game, "W", W);
    let b = land(&mut game, "R", R);
    let c = land(&mut game, "G", G);
    let mut pool = pool_of(&[R, R]);
    assert_eq!(auto_tap_lands_generic(&mut game, &mut pool, P0, 2), vec![a, b]);
    assert_eq!(pool.total_mana(), 4);
    assert!(auto_tap_lands_generic(&mut game, &mut pool, P0, 0).is_empty());
    assert!(!game.card(c).unwrap().tapped);
}

#[test]
fn tapped_and_foreign_sources_are_not_available() {
    let mut game = GameState::new(2, 20);
    let a = land(&mut game, "W", W);
    let b = land(&mut game, "R", R);
    game.cards[a.0 as usize].tapped = true;
    let other = land(&mut game, "G", G);
    game.cards[other.0 as usize].controller = PlayerId(1);
    assert_eq!(get_available_mana_sources(&game, &Paying::new(), P0, &Vec::new()), vec![b]);
    let mut st = Paying::new();
    st.tap(b);
    assert!(get_available_mana_sources(&game, &st, P0, &Vec::new()).is_empty());
}

#[test]
fn sources_are_grouped_by_color() {
    let mut game = GameState::new(2, 20);
    land(&mut game, "W", W);
    land(&mut game, "R", R);
    let g = group_sources_by_mana_color(&game, &Paying::new(), P0, &Vec::new(), None, false);
    assert_eq!(g.refs.len(), 2);
    assert_eq!(g.map.get(&(W as i32)), Some(&vec![0]));
    assert_eq!(g.map.get(&(R as i32)), Some(&vec![1]));
    assert_eq!(g.map.get(&(G as i32)), None);
}

#[test]
fn a_payment_ability_is_done_again() {
    let mut game = GameState::new(2, 20);
    let mut card = Card::new(CardId(0), "Rock", P0);
    card.types.artifact = true;
    card.activated_abilities.push(ability(vec![CostPart::Tap, CostPart::PayLife(1)], "R", vec![R]));
    let rock = add(&mut game, card);
    let mut pool = ManaPool::new();
    assert!(reapply_non_undoable_payment_ability(&mut game, &mut pool, P0, rock, 0, R, &Vec::new(), &Vec::new()));
    assert_eq!(pool.count(R), 1);
    assert!(game.card(rock).unwrap().tapped);
    assert_eq!(game.players[0].life, 19);
    assert!(!reapply_non_undoable_payment_ability(&mut game, &mut pool, P0, rock, 7, R, &Vec::new(), &Vec::new()));
}

#[test]
fn sources_are_listed_with_their_options() {
    let mut game = GameState::new(2, 20);
    let a = land(&mut game, "W", W);
    let b = land(&mut game, "R", R);
    let all = collect_mana_payment_sources(&game, P0, &Vec::new());
    assert_eq!(all.source_cards, vec![a, b]);
    assert_eq!(all.mana_ability_options.len(), 2);
}

// ---- questions of payability ----

#[test]
fn each_source_pays_for_one_symbol() {
    let mut game = GameState::new(2, 20);
    land(&mut game, "R", R);
    land(&mut game, "R", R);
    let pool = ManaPool::new();
    let none = Vec::new();
    let part = |c: ManaCost| vec![CostPart::Mana { cost: c }];
    let pays = |c: ManaCost| {
        can_pay_mana_cost_with_reserved_sacrifices(
            &game,
            &pool,
            P0,
            CardId(99),
            &part(c),
            &none,
            None,
        )
    };
    assert!(pays(cost(0, &[R, R])));
    assert!(pays(cost(1, &[R])));
    assert!(!pays(cost(1, &[R, R])));
    assert!(!pays(cost(0, &[R, G])));
    assert!(pays(cost(0, &[])));
}

#[test]
fn a_spell_is_payable_with_pool_and_sources() {
    for full in [false, true] {
        let mut game = GameState::new(2, 20);
        game.full_mana_probe = full;
        land(&mut game, "R", R);
        let id = spell(&mut game);
        let ctx = for_spell();
        let pays = |pool: &ManaPool, c: &ManaCost| {
            can_pay_spell_mana_cost_for_action_space(&game, pool, P0, id, c, &ctx)
        };
        assert!(pays(&ManaPool::new(), &cost(1, &[])));
        assert!(pays(&ManaPool::new(), &cost(0, &[R])));
        assert!(!pays(&ManaPool::new(), &cost(1, &[R])));
        assert!(pays(&pool_of(&[G]), &cost(1, &[R])));
        // What the pool pays alone is payable.
        assert!(pays(&pool_of(&[G, G]), &cost(1, &[G])));
    }
}

#[test]
fn an_ability_is_payable_with_other_sources() {
    let mut game = GameState::new(2, 20);
    let host = land(&mut game, "R", R);
    let ctx = ManaPaymentContext { is_spell: false, restrictions_met: Vec::new() };
    let pays = |game: &GameState, c: &ManaCost| {
        can_pay_ability_mana_cost_for_action_space(
            game,
            &ManaPool::new(),
            P0,
            host,
            c,
            &ctx,
            &Vec::new(),
        )
    };
    assert!(!pays(&game, &cost(2, &[])));
    land(&mut game, "G", G);
    land(&mut game, "G", G);
    assert!(pays(&game, &cost(2, &[])));
    assert!(!pays(&game, &cost(5, &[])));
}

#[test]
fn creatures_and_artifacts_lower_a_cost() {
    let mut game = GameState::new(2, 20);
    let mut bear = Card::new(CardId(0), "Bear", P0);
    bear.types.creature = true;
    bear.color = G as u8;
    add(&mut game, bear);
    let mut rock = Card::new(CardId(0), "Rock", P0);
    rock.types.artifact = true;
    add(&mut game, rock);
    let price = cost(2, &[G]);
    let convoke = adjust_cost_by_convoke_or_improvise(&game, P0, &price, false, true);
    assert_eq!(convoke.generic + convoke.shards.len() as i32, 2);
    let improvise = adjust_cost_by_convoke_or_improvise(&game, P0, &price, true, false);
    assert_eq!(improvise.generic, 1);
    assert_eq!(improvise.shards.len(), 1);
    let both = adjust_cost_by_convoke_or_improvise(&game, P0, &price, true, true);
    assert_eq!(both.generic + both.shards.len() as i32, 1);
    let none = adjust_cost_by_convoke_or_improvise(&game, P0, &price, false, false);
    assert_eq!((none.generic, none.shards.len()), (2, 1));
}

// ---- small questions ----

#[test]
fn reflected_mana_follows_what_was_produced() {
    let red = ManaCostShard { mask: R };
    assert_eq!(predict_reflected_mana(true, false, "R", red), Some(R));
    assert_eq!(predict_reflected_mana(true, false, "G", red), Some(G));
    assert_eq!(predict_reflected_mana(false, false, "R", red), None);
}

#[test]
fn abilities_are_scored_by_their_costs() {
    let free = score_mana_ability(&ability(vec![CostPart::Tap], "R", vec![R]));
    let dear = score_mana_ability(&ability(
        vec![CostPart::Tap, CostPart::PayLife(1)],
        "R",
        vec![R],
    ));
    assert_eq!(dear - free, 4);
}

#[test]
fn the_most_prominent_color_is_counted() {
    let mut game = GameState::new(2, 20);
    for (text, color) in [("a", R), ("b", G), ("c", G)] {
        let mut card = Card::new(CardId(0), text, P0);
        card.types.creature = true;
        card.color = color as u8;
        card.cost_shards = vec![color];
        let id = add(&mut game, card);
        game.cards[id.0 as usize].zone = ZoneType::Hand;
    }
    assert_eq!(most_prominent_color(&game, P0), G);
}

#[test]
fn ready_sources_are_listed_for_a_probe() {
    let mut game = GameState::new(2, 20);
    let a = land(&mut game, "W", W);
    assert_eq!(get_ai_available_mana_sources(&game, P0), vec![a]);
    game.cards[a.0 as usize].tapped = true;
    assert!(get_ai_available_mana_sources(&game, P0).is_empty());
}

#[test]
fn tapping_for_mana_can_add_mana() {
    let mut game = GameState::new(2, 20);
    let forest = land(&mut game, "G", G);
    game.facts.tap_triggers.push(TapTrigger {
        source: forest,
        player: P0,
        host: forest,
        reflects: false,
        reflects_produced: false,
        reflects_types: false,
        atoms: vec![G],
        any_color: false,
        amount: 1,
        extra: 0,
    });
    let mut pool = ManaPool::new();
    assert_eq!(auto_tap_lands(&mut game, &mut pool, P0, &cost(1, &[G]), None), vec![forest]);
    assert_eq!(pool.count(G), 2);
}

// ---- what a payment asks ----

fn no_answer() -> TapAnswer {
    TapAnswer { parts: Vec::new(), replaced: None, colors: Vec::new(), pool_choices: Vec::new() }
}

fn part(confirmed: bool, cards: Vec<CardId>, outcomes: Vec<MoveOutcome>) -> PartAnswer {
    PartAnswer { confirmed, cards, outcomes }
}

fn self_sacrifice() -> CostPart {
    CostPart::Sacrifice { type_filter: "CARDNAME".to_string(), amount: 1 }
}

fn scene<'a>(game: &'a GameState, reserved: &'a Vec<CardId>) -> PayScene<'a> {
    PayScene { game, player: P0, spell: None, reuse: false, reserved }
}

#[test]
fn each_part_is_asked_about_in_its_own_way() {
    let mut game = GameState::new(2, 3);
    let id = land(&mut game, "G", G);
    game.cards[id.0 as usize].counters.push(Counter { kind: "CHARGE".to_string(), count: 1 });
    let reserved = Vec::new();
    let scene = scene(&game, &reserved);
    let st = Paying::new();
    let none = Vec::new();
    let ask = |part: CostPart| payment_question(scene, &st, id, &part, &none);
    assert!(ask(CostPart::Tap).is_none());
    assert!(matches!(ask(self_sacrifice()), Some(ManaPayCallback::ConfirmSelfSacrifice(c)) if c == id));
    assert!(matches!(ask(CostPart::PayLife(3)), Some(ManaPayCallback::ConfirmPayLife(c)) if c == id));
    assert!(ask(CostPart::PayLife(4)).is_none());
    let counters = |amount: i32| CostPart::SubCounter { amount, counter_type: "CHARGE".to_string() };
    assert!(matches!(ask(counters(1)), Some(ManaPayCallback::ConfirmSubCounter(c)) if c == id));
    assert!(ask(counters(2)).is_none());
    let exile = |amount: i32, from: ZoneType, of_source: bool| CostPart::Exile {
        amount,
        from,
        type_filter: "Card".to_string(),
        of_source,
    };
    assert!(matches!(
        ask(exile(1, ZoneType::Battlefield, true)),
        Some(ManaPayCallback::ConfirmSourceExile(c)) if c == id
    ));
    assert!(ask(exile(1, ZoneType::Graveyard, true)).is_none());
    assert!(ask(exile(0, ZoneType::Graveyard, false)).is_none());
    assert!(ask(exile(1, ZoneType::Graveyard, false)).is_none());
    assert!(ask(CostPart::CollectEvidence(1)).is_none());
}

#[test]
fn cards_to_sacrifice_are_picked_one_by_one() {
    let mut game = GameState::new(2, 20);
    let source = land(&mut game, "G", G);
    let mut foods = Vec::new();
    for name in ["A", "B"] {
        let mut card = Card::new(CardId(0), name, P0);
        card.types.artifact = true;
        let id = add(&mut game, card);
        game.facts.card_matches.push(CardMatch {
            selector: "Food".to_string(),
            source,
            you: P0,
            card: id,
        });
        foods.push(id);
    }
    let reserved = Vec::new();
    let scene = scene(&game, &reserved);
    let st = Paying::new();
    let cost = CostPart::Sacrifice { type_filter: "Food".to_string(), amount: 2 };
    let ask = |picks: Vec<Option<CardId>>| payment_question(scene, &st, source, &cost, &picks);
    match ask(vec![]) {
        Some(ManaPayCallback::ChooseSacrifice(v)) => assert_eq!(v, foods),
        _ => panic!("a card is to be chosen"),
    }
    match ask(vec![Some(foods[0])]) {
        Some(ManaPayCallback::ChooseSacrifice(v)) => assert_eq!(v, vec![foods[1]]),
        _ => panic!("another card is to be chosen"),
    }
    assert!(ask(vec![Some(foods[0]), Some(foods[1])]).is_none());
    let notice = |outcomes: Vec<MoveOutcome>| {
        payment_notice(scene, &st, source, &cost, &part(true, foods.clone(), outcomes))
    };
    let done = |paid: bool| MoveOutcome { paid, zone: ZoneType::Exile };
    assert!(matches!(
        notice(vec![]),
        Some(ManaPayCallback::NotifySacrificeForMana(c)) if c == foods[0]
    ));
    assert!(matches!(
        notice(vec![done(true)]),
        Some(ManaPayCallback::NotifySacrificeForMana(c)) if c == foods[1]
    ));
    assert!(notice(vec![done(false)]).is_none());
    assert!(notice(vec![done(true), done(true)]).is_none());
    // A sacrifice that does not pay stops the payment, but what was done stays.
    let mut st = Paying::new();
    let mut taken = Vec::new();
    let given = part(true, foods.clone(), vec![done(true), MoveOutcome {
        paid: false,
        zone: ZoneType::Battlefield,
    }]);
    assert!(!pay_part(scene, &mut st, source, &cost, Some(&given), &mut taken));
    assert_eq!(st.find_zone(&game, foods[0]), Some(ZoneType::Exile));
    assert_eq!(st.find_zone(&game, foods[1]), Some(ZoneType::Battlefield));
}

#[test]
fn nothing_is_asked_after_a_refusal() {
    let mut game = GameState::new(2, 20);
    let mut card = Card::new(CardId(0), "Altar", P0);
    card.activated_abilities.push(ability(
        vec![CostPart::Tap, self_sacrifice(), CostPart::PayLife(1)],
        "G",
        vec![G],
    ));
    let id = add(&mut game, card);
    let reserved = Vec::new();
    let scene = scene(&game, &reserved);
    let st = Paying::new();
    let ask = |answers: Vec<PartAnswer>| {
        next_payment_question(scene, &st, id, Some(0), &answers, &Vec::new())
    };
    let yes = || part(true, Vec::new(), Vec::new());
    assert!(matches!(ask(vec![yes()]), Some(ManaPayCallback::ConfirmSelfSacrifice(_))));
    assert!(matches!(ask(vec![yes(), yes()]), Some(ManaPayCallback::ConfirmPayLife(_))));
    assert!(ask(vec![yes(), part(false, Vec::new(), Vec::new())]).is_none());
}

#[test]
fn exiled_cards_are_handed_on_together() {
    let mut game = GameState::new(2, 20);
    let id = land(&mut game, "G", G);
    let buried = game.create_card(Card::new(CardId(0), "Old", P0));
    game.cards[buried.0 as usize].zone = ZoneType::Graveyard;
    game.cards[buried.0 as usize].cmc = 4;
    game.zone_order.push(buried);
    let reserved = Vec::new();
    let scene = scene(&game, &reserved);
    let st = Paying::new();
    let evidence = CostPart::CollectEvidence(3);
    match payment_question(scene, &st, id, &evidence, &Vec::new()) {
        Some(ManaPayCallback::ChooseCards { valid, min, max }) => {
            assert_eq!(valid, vec![buried]);
            assert_eq!((min, max), (0, 1));
        }
        _ => panic!("cards are to be chosen"),
    }
    match payment_notice(scene, &st, id, &evidence, &part(true, vec![buried], Vec::new())) {
        Some(ManaPayCallback::ExileCostCardsForMana { player, cards, collect_evidence }) => {
            assert_eq!(player, P0);
            assert_eq!(cards, vec![buried]);
            assert!(collect_evidence);
        }
        _ => panic!("cards are to be exiled"),
    }
    assert!(payment_notice(scene, &st, id, &evidence, &part(true, Vec::new(), Vec::new())).is_none());
}

#[test]
fn the_mana_of_a_use_asks_its_own_questions() {
    let mut game = GameState::new(2, 20);
    let mut card = Card::new(CardId(0), "Grove", P0);
    card.types.land = true;
    card.activated_abilities.push(ability(vec![CostPart::Tap], "Any", vec![W, U, R, G]));
    let id = add(&mut game, card);
    game.facts.tap_triggers.push(TapTrigger {
        source: id,
        player: P0,
        host: id,
        reflects: false,
        reflects_produced: false,
        reflects_types: false,
        atoms: vec![W],
        any_color: true,
        amount: 1,
        extra: 0,
    });
    let reserved = Vec::new();
    let scene = scene(&game, &reserved);
    let ctx = for_spell();
    let mode = PayMode { ctx: Some(&ctx), incremental: true, any_color: false };
    let payment = Payment::start(&mode, &cost(1, &[R]), &ManaPool::new(), &Vec::new());
    let next = payment.next_use(scene, &mode).unwrap();
    assert_eq!((next.way.card_id, next.atom), (id, R));
    match color_question(&game, P0, &next.way, Some("red")) {
        Some((ManaPayCallback::ChooseColor(names), 1)) => assert_eq!(names, vec!["red"]),
        _ => panic!("the color is asked for"),
    }
    assert!(color_question(&game, P0, &next.way, None).is_none());
    match produced_mana_question(&game, P0, &next.way, next.atom) {
        Some(ManaPayCallback::ApplyProduceManaReplacement { activator, source_card, mana }) => {
            assert_eq!((activator, source_card), (P0, id));
            assert_eq!(mana, "R");
        }
        _ => panic!("the mana may be replaced"),
    }
    match trigger_color_question(&game, P0, &next.way, 0) {
        Some(ManaPayCallback::ChooseManaColor { options }) => {
            assert_eq!(options, vec!["W", "U", "B", "R", "G"])
        }
        _ => panic!("a trigger asks for a color"),
    }
    assert!(trigger_color_question(&game, P0, &next.way, 1).is_none());
    let answer = TapAnswer { colors: vec![U], ..no_answer() };
    match pool_question_in_use(
        &payment,
        scene,
        &mode,
        &next.way,
        next.shard,
        next.atom,
        &answer,
    ) {
        Some(ManaPayCallback::ChooseManaFromPool { mana_choices, .. }) => {
            assert_eq!(mana_choices, vec![U])
        }
        _ => panic!("mana is to be chosen"),
    }
}

#[test]
fn mana_of_a_pool_is_chosen_step_by_step() {
    let unpaid = ManaCostBeingPaid::from_mana_cost(&cost(2, &[]));
    let pool = pool_of(&[R, G, W]);
    let ask = |choices: Vec<usize>| match pool_question(&unpaid, &pool, None, false, false, &choices) {
        Some(ManaPayCallback::ChooseManaFromPool { mana_choices, .. }) => mana_choices,
        _ => Vec::new(),
    };
    assert_eq!(ask(vec![]), vec![R, G, W]);
    assert_eq!(ask(vec![1]), vec![R, W]);
    assert_eq!(ask(vec![1, 1]), Vec::<u16>::new());
}

#[test]
fn a_settled_payment_goes_on_from_the_game() {
    let mut game = GameState::new(2, 20);
    let plains = land(&mut game, "W", W);
    let mountain = land(&mut game, "R", R);
    let reserved = Vec::new();
    let mode = PayMode { ctx: None, incremental: false, any_color: false };
    let mut p = Payment::start(&mode, &cost(1, &[R]), &ManaPool::new(), &Vec::new());
    assert!(p.use_next(scene(&game, &reserved), &mode, &no_answer()));
    settle_payment(&mut game, P0, &mut p);
    assert!(game.card(mountain).unwrap().tapped);
    assert!(p.st.tapped.is_empty());
    // What the game says by then counts: the other land has left.
    game.cards[plains.0 as usize].zone = ZoneType::Graveyard;
    assert!(p.next_source(scene(&game, &reserved), &mode).is_none());
    let forest = land(&mut game, "G", G);
    assert_eq!(p.next_source(scene(&game, &reserved), &mode), Some((forest, Some(0))));
}

#[test]
fn mana_carries_its_riders() {
    let mut game = GameState::new(2, 20);
    let id = land(&mut game, "R", R);
    let riders = &mut game.cards[id.0 as usize].activated_abilities[0].riders;
    riders.adds_no_counter = true;
    riders.adds_keywords = Some("Haste".to_string());
    let reserved = Vec::new();
    let mode = PayMode { ctx: None, incremental: true, any_color: false };
    let mut p = Payment::start(&mode, &cost(0, &[R]), &ManaPool::new(), &Vec::new());
    assert!(p.use_next(scene(&game, &reserved), &mode, &no_answer()));
    assert!(p.unpaid.is_paid());
    assert!(p.spent.entries[0].riders.adds_no_counter);
    assert_eq!(p.spent.entries[0].riders.adds_keywords.as_deref(), Some("Haste"));
}

#[test]
fn the_prediction_is_the_choice_of_the_payment() {
    let mut game = GameState::new(2, 20);
    let mut card = Card::new(CardId(0), "Grove", P0);
    card.types.land = true;
    card.activated_abilities.push(ability(vec![CostPart::Tap], "Any", vec![W, U, R, G]));
    add(&mut game, card);
    land(&mut game, "R", R);
    land(&mut game, "G", G);
    for price in [cost(1, &[]), cost(0, &[R]), cost(1, &[G]), cost(0, &[U, R])] {
        let reserved = Vec::new();
        let mode = PayMode { ctx: None, incremental: false, any_color: false };
        let p = Payment::start(&mode, &price, &ManaPool::new(), &Vec::new());
        let next = next_auto_tap_choice(&game, &ManaPool::new(), P0, &price, None, false).unwrap();
        assert_eq!(
            p.next_source(scene(&game, &reserved), &mode),
            Some((next.card_id, next.mana_ability_index)),
        );
    }
}
