//! The mana that sources make when they are used, and what triggers add to it.

use vstd::prelude::*;
use crate::game::{GameState, TapTrigger};
use crate::mana::ability::{
    ability_used, check_tap, has_tap, mana_ability_of, ManaAbilityRef, RefView,
};
use crate::mana::atoms::{
    append_atoms, atom_from_name, atom_named, atoms_as_mana_string, atoms_text, repeat_atoms,
    repeated, ManaCostShard, BLACK, BLUE, COLORLESS, GREEN, RED, WHITE,
};
use crate::mana::paying::{Paying, PayingView};
use crate::mana::pool::{
    read_mana, repeat_atom, same_atoms, text_atoms, ManaPool, ManaProductionParams, ManaView,
};
use crate::mana::riders::{no_riders, ManaRiders, RidersView};
use crate::mana::sources::{base_amount, parse_mana_ability_amount};
use crate::parsing::params::{string_of, text_of};
use crate::text::{contains, has_part, lower_case, pieces, split, text_eq, unicode_to_lower, views};
use crate::types::{CardId, PlayerId};

verus! {

// ---- what a source makes ----

/// Whether a way to pay taps its source.
pub open spec fn requires_tap(game: GameState, m: RefView) -> bool {
    match m.ability_index {
        None => true,
        Some(_) => match ability_used(game, m.card_id, m.ability_index) {
            Some(ab) => has_tap(ab.cost@),
            None => false,
        },
    }
}

pub fn source_requires_tap(game: &GameState, m: &ManaAbilityRef) -> (r: bool)
    ensures
        r == requires_tap(*game, m@),
{
    if m.ability_index.is_none() {
        return true;
    }
    match mana_ability_of(game, m.card_id, m.ability_index) {
        Some(ab) => check_tap(&ab.cost),
        None => false,
    }
}

/// The state once the source of a way to pay is tapped for it.
pub open spec fn tapped_for(game: GameState, st: PayingView, m: RefView) -> PayingView {
    if requires_tap(game, m) && !st.is_tapped(game, m.card_id) {
        st.with_tapped(m.card_id)
    } else {
        st
    }
}

pub fn tap_for(game: &GameState, st: &mut Paying, m: &ManaAbilityRef)
    ensures
        final(st)@ == tapped_for(*game, old(st)@, m@),
{
    if source_requires_tap(game, m) && !st.check_tapped(game, m.card_id) {
        st.tap(m.card_id);
    }
}

/// The atoms that a way to pay makes, without replacement effects.
pub open spec fn base_atoms(m: RefView, amount: i32, chosen: u16) -> Seq<u16> {
    let n = if amount < 1 {
        1
    } else {
        amount as nat
    };
    if m.empty_identity() {
        Seq::empty()
    } else {
        match m.fixed {
            Some(atoms) => repeated(atoms, n),
            None => if m.special {
                repeated(m.special_atoms, n)
            } else {
                repeated(seq![chosen], n)
            },
        }
    }
}

pub fn auto_pay_base_atoms(m: &ManaAbilityRef, amount: i32, chosen: u16) -> (r: Vec<u16>)
    ensures
        r@ == base_atoms(m@, amount, chosen),
{
    let n: usize = if amount < 1 {
        1
    } else {
        amount as usize
    };
    if m.is_empty_identity() {
        return Vec::new();
    }
    match &m.fixed {
        Some(atoms) => repeat_atoms(atoms, n),
        None => if m.special {
            repeat_atoms(&m.special_atoms, n)
        } else {
            let mut one: Vec<u16> = Vec::new();
            one.push(chosen);
            assert(one@ =~= seq![chosen]);
            repeat_atoms(&one, n)
        },
    }
}

/// How often a way to pay makes its mana.
pub open spec fn amount_of(game: GameState, player: PlayerId, m: RefView) -> i32 {
    match ability_used(game, m.card_id, m.ability_index) {
        Some(ab) => base_amount(string_of(ab.amount), game, m.card_id, player),
        None => 1,
    }
}

pub fn find_amount(game: &GameState, player: PlayerId, m: &ManaAbilityRef) -> (r: i32)
    ensures
        r == amount_of(*game, player, m@),
{
    match mana_ability_of(game, m.card_id, m.ability_index) {
        Some(ab) => parse_mana_ability_amount(&ab.amount, game, m.card_id, player),
        None => 1,
    }
}

/// The text of the mana that a way to pay makes; an answer is what replacement effects make of
/// it.
pub open spec fn made_text(
    game: GameState,
    player: PlayerId,
    m: RefView,
    chosen: u16,
    replaced: Option<Seq<char>>,
) -> Seq<char> {
    match replaced {
        Some(t) => t,
        None => atoms_text(base_atoms(m, amount_of(game, player, m), chosen)),
    }
}

/// Where the mana of a way to pay comes from.
pub open spec fn is_production(
    game: GameState,
    m: RefView,
    restricted: bool,
    p: ManaProductionParams,
) -> bool {
    &&& p.source_card == m.card_id
    &&& p.is_snow == (game.card_at(m.card_id) matches Some(c) && c.types.snow)
    &&& string_of(p.restriction) == if restricted {
        match ability_used(game, m.card_id, m.ability_index) {
            Some(ab) => string_of(ab.restrict_valid),
            None => None,
        }
    } else {
        None
    }
    &&& p.riders@ == riders_of(game, m, restricted)
}

/// What mana of a way to pay carries; nothing where it is only tried.
pub open spec fn riders_of(game: GameState, m: RefView, made: bool) -> RidersView {
    if made {
        match ability_used(game, m.card_id, m.ability_index) {
            Some(ab) => ab.riders@,
            None => no_riders(),
        }
    } else {
        no_riders()
    }
}

pub fn production_params(game: &GameState, m: &ManaAbilityRef, restricted: bool) -> (r:
    ManaProductionParams)
    ensures
        is_production(*game, m@, restricted, r),
{
    let is_snow = match game.card(m.card_id) {
        Some(c) => c.types.snow,
        None => false,
    };
    let restriction = if restricted {
        match mana_ability_of(game, m.card_id, m.ability_index) {
            Some(ab) => match &ab.restrict_valid {
                Some(t) => Some(t.as_str().to_string()),
                None => None,
            },
            None => None,
        }
    } else {
        None
    };
    let riders = if restricted {
        match mana_ability_of(game, m.card_id, m.ability_index) {
            Some(ab) => ab.riders.copy(),
            None => ManaRiders::none(),
        }
    } else {
        ManaRiders::none()
    };
    ManaProductionParams { source_card: m.card_id, is_snow, restriction, riders }
}

/// Mana of a way to pay, as it lies in a pool.
pub open spec fn made_entries(game: GameState, m: RefView, restricted: bool, atoms: Seq<u16>) -> Seq<
    ManaView,
> {
    Seq::new(
        atoms.len(),
        |i: int|
            ManaView {
                color: atoms[i],
                restriction: if restricted {
                    match ability_used(game, m.card_id, m.ability_index) {
                        Some(ab) => string_of(ab.restrict_valid),
                        None => None,
                    }
                } else {
                    None
                },
                source: m.card_id,
                is_snow: game.card_at(m.card_id) matches Some(c) && c.types.snow,
                riders: riders_of(game, m, restricted),
            },
    )
}

/// Lets a way to pay make its mana; gives the text of it.
pub fn produce_mana_for_auto_pay(
    game: &GameState,
    st: &mut Paying,
    pool: &mut ManaPool,
    player: PlayerId,
    m: &ManaAbilityRef,
    chosen: u16,
    replaced: Option<&str>,
) -> (r: String)
    ensures
        final(st)@ == tapped_for(*game, old(st)@, m@),
        r@ == made_text(*game, player, m@, chosen, text_of(replaced)),
        final(pool)@ == old(pool)@ + made_entries(*game, m@, true, text_atoms(r@)),
{
    tap_for(game, st, m);
    let text = match replaced {
        Some(t) => t.to_string(),
        None => {
            let atoms = auto_pay_base_atoms(m, find_amount(game, player, m), chosen);
            atoms_as_mana_string(&atoms)
        },
    };
    let params = production_params(game, m, true);
    let atoms = read_mana(text.as_str());
    let ghost before = pool@;
    pool.add_atoms(&atoms, &params);
    assert(pool@ =~= before + made_entries(*game, m@, true, text_atoms(text@)));
    text
}

// ---- triggers ----

/// The atom that a name in any case stands for.
pub open spec fn word_atom(name: Seq<char>) -> u16 {
    atom_named(lower_case(name))
}

pub fn read_word_atom(name: &str) -> (r: u16)
    ensures
        r == word_atom(name@),
{
    let t = unicode_to_lower(name);
    atom_from_name(t.as_str())
}

/// The first word whose atom is reflected.
pub open spec fn first_reflected(
    words: Seq<Seq<char>>,
    is_type: bool,
    to_pay: Option<ManaCostShard>,
) -> Option<u16>
    decreases words.len(),
{
    if words.len() == 0 {
        None
    } else {
        let atom = word_atom(words[0]);
        if is_type || (atom != COLORLESS && match to_pay {
            Some(shard) => shard.payable_with(atom),
            None => true,
        }) {
            Some(atom)
        } else {
            first_reflected(words.skip(1), is_type, to_pay)
        }
    }
}

/// The atom that a reflecting trigger adds to produced mana.
pub open spec fn reflected_atom(
    reflects_produced: bool,
    is_type: bool,
    produced: Seq<char>,
    to_pay: ManaCostShard,
) -> Option<u16> {
    if !reflects_produced || produced.len() == 0 {
        None
    } else if to_pay.mask == COLORLESS && is_type && has_part(produced, "C"@) {
        Some(COLORLESS)
    } else if produced.len() == 1 {
        if is_type || produced != "C"@ {
            Some(word_atom(produced))
        } else {
            None
        }
    } else {
        match first_reflected(pieces(produced, " "@), is_type, Some(to_pay)) {
            Some(atom) => Some(atom),
            None => first_reflected(pieces(produced, " "@), is_type, None),
        }
    }
}

fn find_first_reflected(words: &Vec<&str>, is_type: bool, to_pay: Option<ManaCostShard>) -> (r:
    Option<u16>)
    ensures
        r == first_reflected(views(words@), is_type, to_pay),
{
    let ghost all = views(words@);
    let mut i: usize = 0;
    assert(all.skip(0) =~= all);
    while i < words.len()
        invariant
            i <= all.len(),
            all == views(words@),
            first_reflected(all, is_type, to_pay) == first_reflected(
                all.skip(i as int),
                is_type,
                to_pay,
            ),
        decreases all.len() - i,
    {
        assert(all.skip(i as int).skip(1) =~= all.skip(i + 1));
        assert(all.skip(i as int)[0] == words@[i as int]@);
        let atom: u16 = read_word_atom(words[i]);
        let pays = match to_pay {
            Some(shard) => shard.can_be_paid_with(atom),
            None => true,
        };
        if is_type || (atom != COLORLESS && pays) {
            return Some(atom);
        }
        i = i + 1;
    }
    None
}

pub fn predict_reflected_mana(
    reflects_produced: bool,
    is_type: bool,
    produced: &str,
    to_pay: ManaCostShard,
) -> (r: Option<u16>)
    ensures
        r == reflected_atom(reflects_produced, is_type, produced@, to_pay),
{
    let n: usize = produced.unicode_len();
    if !reflects_produced || n == 0 {
        return None;
    }
    if to_pay.mask == COLORLESS && is_type && contains(produced, "C") {
        return Some(COLORLESS);
    }
    if n == 1 {
        return if is_type || !text_eq(produced, "C") {
            Some(read_word_atom(produced))
        } else {
            None
        };
    }
    proof {
        reveal_strlit(" ");
    }
    let words = split(produced, " ");
    match find_first_reflected(&words, is_type, Some(to_pay)) {
        Some(atom) => Some(atom),
        None => find_first_reflected(&words, is_type, None),
    }
}

/// What a trigger adds: an atom, and how often each time it fires. `color` is the color that was
/// chosen for it; zero where none was.
pub open spec fn trigger_adds(
    t: TapTrigger,
    produced: Seq<char>,
    to_pay: ManaCostShard,
    color: u16,
) -> Option<(u16, nat)> {
    if t.reflects {
        match reflected_atom(t.reflects_produced, t.reflects_types, produced, to_pay) {
            Some(atom) => Some((atom, 1)),
            None => None,
        }
    } else if t.atoms@.len() == 0 {
        None
    } else {
        Some(
            (
                if t.any_color && color != 0 {
                    color
                } else {
                    t.atoms@[0]
                },
                if t.amount < 1 {
                    1
                } else {
                    t.amount as nat
                },
            ),
        )
    }
}

pub open spec fn times_fired(t: TapTrigger) -> nat {
    t.extra as nat + 1
}

/// The color chosen for the trigger that asks for one next.
pub open spec fn color_at(colors: Seq<u16>, i: nat) -> u16 {
    if i < colors.len() {
        colors[i as int]
    } else {
        0
    }
}

/// Whether a trigger asks for a color.
pub open spec fn asks_color(t: TapTrigger) -> bool {
    !t.reflects && t.any_color && t.atoms@.len() > 0
}

/// What triggers add when a source is tapped: the mana in the pool, its atoms, and how many colors
/// were asked for.
pub open spec fn triggered(
    game: GameState,
    triggers: Seq<TapTrigger>,
    source: CardId,
    player: PlayerId,
    produced: Seq<char>,
    to_pay: ManaCostShard,
    colors: Seq<u16>,
) -> (Seq<ManaView>, Seq<u16>, nat)
    decreases triggers.len(),
{
    if triggers.len() == 0 {
        (Seq::empty(), Seq::empty(), 0)
    } else {
        let (entries, atoms, asked) = triggered(
            game,
            triggers.drop_last(),
            source,
            player,
            produced,
            to_pay,
            colors,
        );
        let t = triggers.last();
        if t.source != source || t.player != player {
            (entries, atoms, asked)
        } else {
            let color = if asks_color(t) {
                color_at(colors, asked)
            } else {
                0
            };
            let now = if asks_color(t) {
                asked + 1
            } else {
                asked
            };
            match trigger_adds(t, produced, to_pay, color) {
                Some((atom, n)) => {
                    let made = same_atoms(atom, times_fired(t) * n);
                    (
                        entries + host_entries(game, t.host, atom, times_fired(t) * n),
                        atoms + made,
                        now,
                    )
                },
                None => (entries, atoms, now),
            }
        }
    }
}

/// Mana that a trigger of a card adds. It shows as the letter of its atom says.
pub open spec fn host_entries(game: GameState, host: CardId, atom: u16, n: nat) -> Seq<ManaView> {
    Seq::new(
        n,
        |i: int|
            ManaView {
                color: shown_atom(atom),
                restriction: None,
                source: host,
                is_snow: game.card_at(host) matches Some(c) && c.types.snow,
                riders: no_riders(),
            },
    )
}

/// The atom that the letter of an atom stands for.
pub open spec fn shown_atom(atom: u16) -> u16 {
    if atom == WHITE || atom == BLUE || atom == BLACK || atom == RED || atom == GREEN {
        atom
    } else {
        COLORLESS
    }
}

fn find_shown_atom(atom: u16) -> (r: u16)
    ensures
        r == shown_atom(atom),
{
    if atom == WHITE || atom == BLUE || atom == BLACK || atom == RED || atom == GREEN {
        atom
    } else {
        COLORLESS
    }
}

/// Whether a way to pay counts as tapping for mana.
pub open spec fn taps_for_mana(game: GameState, m: RefView) -> bool {
    match m.ability_index {
        Some(i) => match game.card_at(m.card_id) {
            Some(c) => i < c.activated_abilities@.len() && has_tap(
                c.activated_abilities@[i as int].cost@,
            ),
            None => false,
        },
        None => true,
    }
}

/// What triggers add when a way to pay is used.
pub open spec fn trigger_mana(
    game: GameState,
    player: PlayerId,
    m: RefView,
    produced: Seq<char>,
    require_tap: bool,
    to_pay: ManaCostShard,
    colors: Seq<u16>,
) -> (Seq<ManaView>, Seq<u16>) {
    if require_tap && !taps_for_mana(game, m) {
        (Seq::empty(), Seq::empty())
    } else {
        let (entries, atoms, _) = triggered(
            game,
            game.facts.tap_triggers@,
            m.card_id,
            player,
            produced,
            to_pay,
            colors,
        );
        (entries, atoms)
    }
}

pub fn check_taps_for_mana(game: &GameState, m: &ManaAbilityRef) -> (r: bool)
    ensures
        r == taps_for_mana(*game, m@),
{
    match m.ability_index {
        Some(i) => match game.card(m.card_id) {
            Some(c) => i < c.activated_abilities.len() && check_tap(&c.activated_abilities[i].cost),
            None => false,
        },
        None => true,
    }
}

fn add_trigger(
    game: &GameState,
    pool: &mut ManaPool,
    atoms: &mut Vec<u16>,
    host: CardId,
    atom: u16,
    n: i32,
    fires: u64,
)
    requires
        1 <= n,
        1 <= fires,
    ensures
        final(pool)@ == old(pool)@ + host_entries(*game, host, atom, (fires * n) as nat),
        final(atoms)@ == old(atoms)@ + same_atoms(atom, (fires * n) as nat),
{
    let is_snow = match game.card(host) {
        Some(c) => c.types.snow,
        None => false,
    };
    let params = ManaProductionParams {
        source_card: host,
        is_snow,
        restriction: None,
        riders: ManaRiders::none(),
    };
    let shown = repeat_atom(find_shown_atom(atom), n as usize);
    let plain = repeat_atom(atom, n as usize);
    let ghost p0 = pool@;
    let ghost a0 = atoms@;
    let mut k: u64 = 0;
    assert(p0 + host_entries(*game, host, atom, 0) =~= p0);
    assert(a0 + same_atoms(atom, 0) =~= a0);
    while k < fires
        invariant
            0 <= k <= fires,
            1 <= n,
            shown@ == same_atoms(shown_atom(atom), n as nat),
            plain@ == same_atoms(atom, n as nat),
            params.source_card == host,
            string_of(params.restriction) is None,
            params.riders@ == no_riders(),
            params.is_snow == (game.card_at(host) matches Some(c) && c.types.snow),
            0 <= k * n,
            pool@ == p0 + host_entries(*game, host, atom, (k * n) as nat),
            atoms@ == a0 + same_atoms(atom, (k * n) as nat),
        decreases fires - k,
    {
        let ghost pb = pool@;
        let ghost ab = atoms@;
        pool.add_atoms(&shown, &params);
        append_atoms(atoms, &plain);
        proof {
            assert((k + 1) * n == k * n + n) by (nonlinear_arith);
            assert(pool@ =~= p0 + host_entries(*game, host, atom, ((k + 1) * n) as nat));
            assert(atoms@ =~= a0 + same_atoms(atom, ((k + 1) * n) as nat));
        }
        k = k + 1;
    }
}

/// Lets triggers add mana when a way to pay is used; gives the atoms.
pub fn add_taps_for_mana_trigger_mana(
    game: &GameState,
    pool: &mut ManaPool,
    player: PlayerId,
    m: &ManaAbilityRef,
    produced: &str,
    require_tap: bool,
    to_pay: ManaCostShard,
    colors: &Vec<u16>,
) -> (r: Vec<u16>)
    ensures
        ({
            let (entries, atoms) = trigger_mana(
                *game,
                player,
                m@,
                produced@,
                require_tap,
                to_pay,
                colors@,
            );
            &&& final(pool)@ == old(pool)@ + entries
            &&& r@ == atoms
        }),
{
    let mut atoms: Vec<u16> = Vec::new();
    let ghost p0 = pool@;
    assert(p0 + Seq::<ManaView>::empty() =~= p0);
    if require_tap && !check_taps_for_mana(game, m) {
        assert(atoms@ =~= Seq::<u16>::empty());
        return atoms;
    }
    let triggers = &game.facts.tap_triggers;
    let ghost all = triggers@;
    let mut asked: usize = 0;
    let mut i: usize = 0;
    while i < triggers.len()
        invariant
            i <= all.len(),
            all == triggers@,
            all == game.facts.tap_triggers@,
            asked <= i,
            ({
                let (entries, made, n) = triggered(
                    *game,
                    all.take(i as int),
                    m.card_id,
                    player,
                    produced@,
                    to_pay,
                    colors@,
                );
                &&& pool@ == p0 + entries
                &&& atoms@ == made
                &&& asked == n
            }),
        decreases all.len() - i,
    {
        assert(all.take(i + 1).drop_last() =~= all.take(i as int));
        let t = &triggers[i];
        if t.source == m.card_id && t.player == player {
            let ghost so_far = triggered(
                *game,
                all.take(i as int),
                m.card_id,
                player,
                produced@,
                to_pay,
                colors@,
            );
            let asks = !t.reflects && t.any_color && t.atoms.len() > 0;
            let color: u16 = if asks && asked < colors.len() {
                colors[asked]
            } else {
                0
            };
            if asks {
                asked = asked + 1;
            }
            let adds: Option<(u16, i32)> = if t.reflects {
                match predict_reflected_mana(
                    t.reflects_produced,
                    t.reflects_types,
                    produced,
                    to_pay,
                ) {
                    Some(atom) => Some((atom, 1)),
                    None => None,
                }
            } else if t.atoms.len() == 0 {
                None
            } else {
                let atom: u16 = if t.any_color && color != 0 {
                    color
                } else {
                    t.atoms[0]
                };
                let n: i32 = if t.amount < 1 {
                    1
                } else {
                    t.amount
                };
                Some((atom, n))
            };
            if let Some((atom, n)) = adds {
                let fires: u64 = t.extra as u64 + 1;
                add_trigger(game, pool, &mut atoms, t.host, atom, n, fires);
                assert(pool@ =~= p0 + (so_far.0 + host_entries(
                    *game,
                    t.host,
                    atom,
                    (fires * n) as nat,
                )));
            }
        }
        i = i + 1;
    }
    assert(all.take(i as int) =~= all);
    atoms
}

} // verus!
