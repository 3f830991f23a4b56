//! How the next way to pay is chosen.

use vstd::prelude::*;
use indexmap::IndexMap;
use crate::game::GameState;
use crate::lists::has_card;
use crate::mana::ability::{ref_views, ManaAbilityRef, RefView};
use crate::mana::atoms::{
    atoms_as_mana_string, atoms_text, color_rank, has_atom, shard_color_rank, ManaCostShard, BLACK,
    BLUE, COLORLESS, GENERIC, GREEN, RED, SHARD_GENERIC, WHITE,
};
use crate::mana::cost::{generic_shard, shards_of, ManaCostBeingPaid};
use crate::mana::cost_parts::{
    can_pay_non_tap_mana_ability_costs, non_tap_payable, PayScene, SceneOfPayment,
};
use crate::mana::paying::{Paying, PayingView};
use crate::sorting::{relation, sort_by, sorted_by, Order};
use crate::text::{
    char_is_white, contains, has_part, is_white, replace_text, text_eq, text_replaced,
};
use crate::types::CardId;

verus! {

// ---- scores ----

/// How many words a text has.
pub open spec fn word_count(s: Seq<char>) -> int
    decreases s.len(),
{
    if s.len() == 0 {
        0
    } else {
        word_count(s.drop_last()) + if !is_white(s.last()) && (s.len() == 1 || is_white(
            s[s.len() - 2],
        )) {
            1int
        } else {
            0
        }
    }
}

/// The score of produced mana: one for each word, and one more without colorless mana.
pub open spec fn text_score(s: Seq<char>) -> i32 {
    let words = if word_count(s) < 1 {
        1
    } else {
        word_count(s)
    };
    (words as i32).wrapping_add(
        if has_part(s, "C"@) {
            0
        } else {
            1
        },
    )
}

pub fn count_words(s: &str) -> (r: usize)
    ensures
        r == word_count(s@),
        r <= s@.len(),
{
    let n: usize = s.unicode_len();
    let mut words: usize = 0;
    let mut white = true;
    let mut i: usize = 0;
    while i < n
        invariant
            i <= n,
            n == s@.len(),
            words <= i,
            words == word_count(s@.take(i as int)),
            white == (i == 0 || is_white(s@[i - 1])),
        decreases n - i,
    {
        assert(s@.take(i + 1).drop_last() =~= s@.take(i as int));
        let c = s.get_char(i);
        if char_is_white(c) {
            white = true;
        } else {
            if white {
                words = words + 1;
            }
            white = false;
        }
        i = i + 1;
    }
    assert(s@.take(i as int) =~= s@);
    words
}

pub fn score_text(s: &str) -> (r: i32)
    ensures
        r == text_score(s@),
{
    let words: usize = count_words(s);
    let n: usize = if words < 1 {
        1
    } else {
        words
    };
    let more: i32 = if contains(s, "C") {
        0
    } else {
        1
    };
    (n as i32).wrapping_add(more)
}

/// Whether an atom shows as colorless mana.
pub open spec fn shows_colorless(atom: u16) -> bool {
    atom != GENERIC && atom != WHITE && atom != BLUE && atom != BLACK && atom != RED && atom
        != GREEN
}

pub open spec fn some_colorless(atoms: Seq<u16>) -> bool {
    exists|i: int| 0 <= i < atoms.len() && shows_colorless(#[trigger] atoms[i])
}

pub open spec fn one_if(b: bool) -> i32 {
    if b {
        1
    } else {
        0
    }
}

/// The score of atoms: one for each kind of them, and one more without colorless mana.
pub open spec fn atoms_score(atoms: Seq<u16>) -> Option<i32> {
    let kinds = one_if(atoms.contains(WHITE)) + one_if(atoms.contains(BLUE)) + one_if(
        atoms.contains(BLACK),
    ) + one_if(atoms.contains(RED)) + one_if(atoms.contains(GREEN)) + one_if(
        some_colorless(atoms),
    );
    if kinds == 0 {
        None
    } else {
        Some((kinds + one_if(!some_colorless(atoms))) as i32)
    }
}

fn has_colorless(atoms: &Vec<u16>) -> (r: bool)
    ensures
        r == some_colorless(atoms@),
{
    let mut i: usize = 0;
    while i < atoms.len()
        invariant
            i <= atoms@.len(),
            forall|k: int| 0 <= k < i ==> !shows_colorless(#[trigger] atoms@[k]),
        decreases atoms@.len() - i,
    {
        let a: u16 = atoms[i];
        if a != GENERIC && a != WHITE && a != BLUE && a != BLACK && a != RED && a != GREEN {
            assert(shows_colorless(atoms@[i as int]));
            return true;
        }
        i = i + 1;
    }
    false
}

fn number_if(b: bool) -> (r: i32)
    ensures
        r == one_if(b),
        0 <= r <= 1,
{
    if b {
        1
    } else {
        0
    }
}

pub fn score_atoms_for_autopay(atoms: &Vec<u16>) -> (r: Option<i32>)
    ensures
        r == atoms_score(atoms@),
{
    let plain = has_colorless(atoms);
    let kinds: i32 = number_if(has_atom(atoms, WHITE)) + number_if(has_atom(atoms, BLUE))
        + number_if(has_atom(atoms, BLACK)) + number_if(has_atom(atoms, RED)) + number_if(
        has_atom(atoms, GREEN),
    ) + number_if(plain);
    if kinds == 0 {
        None
    } else {
        Some(kinds + number_if(!plain))
    }
}

/// The score of a land that makes mana by its types.
pub open spec fn land_score(atom: u16) -> i32 {
    if atom != COLORLESS {
        3
    } else {
        2
    }
}

pub fn score_implicit_land_mana_ability(atom: u16) -> (r: i32)
    ensures
        r == land_score(atom),
{
    if atom != COLORLESS {
        3
    } else {
        2
    }
}

pub open spec fn first_atom(atoms: Seq<u16>) -> u16 {
    if atoms.len() > 0 {
        atoms[0]
    } else {
        COLORLESS
    }
}

/// The score of the mana of a way to pay.
pub open spec fn mana_score(m: RefView, chosen: Seq<u16>) -> i32 {
    if m.combo_color_identity || m.special {
        match atoms_score(m.atoms) {
            Some(n) => n,
            None => 2,
        }
    } else if m.any_like || m.mana_text == "Any"@ {
        7
    } else if m.mana_text == "1"@ && m.atoms.len() == 0 {
        1
    } else {
        text_score(text_replaced(m.mana_text, "Chosen"@, atoms_text(chosen)))
    }
}

/// The score of a way to pay; those with low scores are used first.
pub open spec fn source_score(game: GameState, m: RefView) -> i32 {
    match game.card_at(m.card_id) {
        Some(c) => {
            let base = match m.ability_index {
                Some(i) => mana_score(m, c.chosen_atoms@).wrapping_add(
                    if i < c.activated_abilities@.len() {
                        c.activated_abilities@[i as int].cost@.len() as i32
                    } else {
                        0
                    },
                ),
                None => land_score(first_atom(m.atoms)),
            };
            if c.types.creature {
                base.wrapping_add(26)
            } else {
                base
            }
        },
        None => 0,
    }
}

fn find_mana_score(m: &ManaAbilityRef, chosen: &Vec<u16>) -> (r: i32)
    ensures
        r == mana_score(m@, chosen@),
{
    if m.combo_color_identity || m.special {
        match score_atoms_for_autopay(&m.atoms) {
            Some(n) => n,
            None => 2,
        }
    } else if m.any_like || text_eq(m.mana_text.as_str(), "Any") {
        7
    } else if text_eq(m.mana_text.as_str(), "1") && m.atoms.len() == 0 {
        1
    } else {
        proof {
            reveal_strlit("Chosen");
        }
        let colors = atoms_as_mana_string(chosen);
        let text = replace_text(m.mana_text.as_str(), "Chosen", colors.as_str());
        score_text(text.as_str())
    }
}

pub fn autopay_source_score(game: &GameState, m: &ManaAbilityRef) -> (r: i32)
    ensures
        r == source_score(*game, m@),
{
    match game.card(m.card_id) {
        Some(c) => {
            let base: i32 = match m.ability_index {
                Some(i) => {
                    let more: i32 = if i < c.activated_abilities.len() {
                        c.activated_abilities[i].cost.len() as i32
                    } else {
                        0
                    };
                    find_mana_score(m, &c.chosen_atoms).wrapping_add(more)
                },
                None => {
                    let atom: u16 = if m.atoms.len() > 0 {
                        m.atoms[0]
                    } else {
                        COLORLESS
                    };
                    score_implicit_land_mana_ability(atom)
                },
            };
            if c.types.creature {
                base.wrapping_add(26)
            } else {
                base
            }
        },
        None => 0,
    }
}

// ---- candidates ----

/// All places of a list.
pub open spec fn all_places(n: nat) -> Seq<usize> {
    Seq::new(n, |i: int| i as usize)
}

pub fn list_places(n: usize) -> (r: Vec<usize>)
    ensures
        r@ == all_places(n as nat),
{
    let mut out: Vec<usize> = Vec::new();
    let mut i: usize = 0;
    while i < n
        invariant
            i <= n,
            out@.len() == i,
            forall|k: int| 0 <= k < i ==> out@[k] == k as usize,
        decreases n - i,
    {
        out.push(i);
        i = i + 1;
    }
    assert(out@ =~= all_places(n as nat));
    out
}

/// By score, then by place among the sources. With `prefer_higher`, of two abilities of a card
/// the one that makes more goes first.
pub struct ByScore<'a> {
    pub game: &'a GameState,
    pub refs: &'a Vec<ManaAbilityRef>,
    pub prefer_higher: bool,
}

pub open spec fn scored_before(game: GameState, a: RefView, b: RefView, prefer_higher: bool) -> bool {
    let s = source_score(game, a).wrapping_mul(1000);
    let t = source_score(game, b).wrapping_mul(1000);
    if s != t {
        s < t
    } else if prefer_higher && a.card_id == b.card_id && a.amount != b.amount {
        a.amount > b.amount
    } else {
        a.source_order < b.source_order
    }
}

impl<'a> Order<usize> for ByScore<'a> {
    open spec fn before(&self, a: usize, b: usize) -> bool {
        a < self.refs@.len() && b < self.refs@.len() && scored_before(
            *self.game,
            self.refs@[a as int]@,
            self.refs@[b as int]@,
            self.prefer_higher,
        )
    }

    fn goes_before(&self, a: usize, b: usize) -> (r: bool) {
        if a >= self.refs.len() || b >= self.refs.len() {
            return false;
        }
        let x = &self.refs[a];
        let y = &self.refs[b];
        let s: i32 = autopay_source_score(self.game, x).wrapping_mul(1000);
        let t: i32 = autopay_source_score(self.game, y).wrapping_mul(1000);
        if s != t {
            s < t
        } else if self.prefer_higher && x.card_id == y.card_id && x.amount != y.amount {
            x.amount > y.amount
        } else {
            x.source_order < y.source_order
        }
    }
}

pub open spec fn score_relation(game: GameState, refs: Seq<RefView>, prefer_higher: bool) -> spec_fn(
    usize,
    usize,
) -> bool {
    |a: usize, b: usize|
        a < refs.len() && b < refs.len() && scored_before(
            game,
            refs[a as int],
            refs[b as int],
            prefer_higher,
        )
}

/// The ways to pay in the order in which they are tried.
pub open spec fn candidates(game: GameState, refs: Seq<RefView>, prefer_higher: bool) -> Seq<usize> {
    sorted_by(all_places(refs.len()), score_relation(game, refs, prefer_higher))
}

pub fn collect_sorted_candidates_with_pref(
    game: &GameState,
    refs: &Vec<ManaAbilityRef>,
    prefer_higher: bool,
) -> (r: Vec<usize>)
    ensures
        r@ == candidates(*game, ref_views(refs@), prefer_higher),
{
    let places = list_places(refs.len());
    let order = ByScore { game, refs, prefer_higher };
    let r = sort_by(&places, &order);
    assert(relation::<usize, ByScore<'_>>(order) =~= score_relation(
        *game,
        ref_views(refs@),
        prefer_higher,
    ));
    r
}

pub fn collect_sorted_candidates(game: &GameState, refs: &Vec<ManaAbilityRef>) -> (r: Vec<usize>)
    ensures
        r@ == candidates(*game, ref_views(refs@), false),
{
    collect_sorted_candidates_with_pref(game, refs, false)
}

/// Whether a way to pay at a place pays a symbol.
pub open spec fn place_pays(refs: Seq<RefView>, i: usize, shard: ManaCostShard) -> bool {
    i < refs.len() && refs[i as int].pays(shard)
}

fn check_place(refs: &Vec<ManaAbilityRef>, i: usize, shard: ManaCostShard) -> (r: bool)
    ensures
        r == place_pays(ref_views(refs@), i, shard),
{
    i < refs.len() && refs[i].can_pay_shard(shard)
}

/// How many of some ways to pay pay a symbol.
pub open spec fn paying_count(refs: Seq<RefView>, list: Seq<usize>, shard: ManaCostShard) -> nat
    decreases list.len(),
{
    if list.len() == 0 {
        0
    } else {
        paying_count(refs, list.drop_last(), shard) + if place_pays(refs, list.last(), shard) {
            1nat
        } else {
            0
        }
    }
}

pub fn count_candidates_for_shard(
    refs: &Vec<ManaAbilityRef>,
    list: &Vec<usize>,
    shard: ManaCostShard,
) -> (r: usize)
    ensures
        r == paying_count(ref_views(refs@), list@, shard),
{
    let ghost all = list@;
    let ghost views = ref_views(refs@);
    let mut n: usize = 0;
    let mut i: usize = 0;
    while i < list.len()
        invariant
            i <= all.len(),
            all == list@,
            views == ref_views(refs@),
            n <= i,
            n == paying_count(views, all.take(i as int), shard),
        decreases all.len() - i,
    {
        assert(all.take(i + 1).drop_last() =~= all.take(i as int));
        if check_place(refs, list[i], shard) {
            n = n + 1;
        }
        i = i + 1;
    }
    assert(all.take(i as int) =~= all);
    n
}

// ---- which symbol to pay ----

/// The symbols that are neither generic nor of a variable amount.
pub open spec fn plain_shards(shards: Seq<ManaCostShard>) -> Seq<ManaCostShard>
    decreases shards.len(),
{
    if shards.len() == 0 {
        Seq::empty()
    } else {
        let before = plain_shards(shards.drop_last());
        let s = shards.last();
        if !s.variable() && s != generic_shard() && !before.contains(s) {
            before.push(s)
        } else {
            before
        }
    }
}

fn has_shard(v: &Vec<ManaCostShard>, s: ManaCostShard) -> (r: bool)
    ensures
        r == v@.contains(s),
{
    let mut i: usize = 0;
    while i < v.len()
        invariant
            i <= v@.len(),
            forall|k: int| 0 <= k < i ==> v@[k] != s,
        decreases v@.len() - i,
    {
        if v[i] == s {
            assert(v@[i as int] == s);
            return true;
        }
        i = i + 1;
    }
    false
}

fn list_plain_shards(shards: &Vec<ManaCostShard>) -> (r: Vec<ManaCostShard>)
    ensures
        r@ == plain_shards(shards@),
{
    let ghost all = shards@;
    let mut out: Vec<ManaCostShard> = Vec::new();
    let mut i: usize = 0;
    while i < shards.len()
        invariant
            i <= all.len(),
            all == shards@,
            out@ == plain_shards(all.take(i as int)),
        decreases all.len() - i,
    {
        assert(all.take(i + 1).drop_last() =~= all.take(i as int));
        let s = shards[i];
        if !s.is_variable() && s.mask != SHARD_GENERIC && !has_shard(&out, s) {
            out.push(s);
        }
        i = i + 1;
    }
    assert(all.take(i as int) =~= all);
    out
}

/// The symbols with the fewest ways to pay first, then by color.
pub struct ByScarcity<'a> {
    pub refs: &'a Vec<ManaAbilityRef>,
    pub list: &'a Vec<usize>,
}

pub open spec fn scarcer(
    refs: Seq<RefView>,
    list: Seq<usize>,
    a: ManaCostShard,
    b: ManaCostShard,
) -> bool {
    let n = paying_count(refs, list, a);
    let m = paying_count(refs, list, b);
    n < m || (n == m && color_rank(a) < color_rank(b))
}

impl<'a> Order<ManaCostShard> for ByScarcity<'a> {
    open spec fn before(&self, a: ManaCostShard, b: ManaCostShard) -> bool {
        scarcer(ref_views(self.refs@), self.list@, a, b)
    }

    fn goes_before(&self, a: ManaCostShard, b: ManaCostShard) -> (r: bool) {
        let n: usize = count_candidates_for_shard(self.refs, self.list, a);
        let m: usize = count_candidates_for_shard(self.refs, self.list, b);
        n < m || (n == m && shard_color_rank(a) < shard_color_rank(b))
    }
}

pub open spec fn scarcity(refs: Seq<RefView>, list: Seq<usize>) -> spec_fn(
    ManaCostShard,
    ManaCostShard,
) -> bool {
    |a: ManaCostShard, b: ManaCostShard| scarcer(refs, list, a, b)
}

/// The symbols in the order in which they are paid; generic mana comes last.
pub open spec fn shard_order(
    left: Seq<crate::mana::cost::ShardCount>,
    refs: Seq<RefView>,
    list: Seq<usize>,
) -> Seq<ManaCostShard> {
    let sorted = sorted_by(plain_shards(shards_of(left)), scarcity(refs, list));
    if shards_of(left).contains(generic_shard()) {
        sorted.push(generic_shard())
    } else {
        sorted
    }
}

pub fn shard_priority(
    unpaid: &ManaCostBeingPaid,
    refs: &Vec<ManaAbilityRef>,
    list: &Vec<usize>,
) -> (r: Vec<ManaCostShard>)
    ensures
        r@ == shard_order(unpaid@.left, ref_views(refs@), list@),
{
    let shards = unpaid.get_distinct_shards();
    let plain = list_plain_shards(&shards);
    let order = ByScarcity { refs, list };
    let mut sorted = sort_by(&plain, &order);
    assert(relation::<ManaCostShard, ByScarcity<'_>>(order) =~= scarcity(
        ref_views(refs@),
        list@,
    ));
    if has_shard(&shards, ManaCostShard { mask: SHARD_GENERIC }) {
        sorted.push(ManaCostShard { mask: SHARD_GENERIC });
    }
    sorted
}

/// Whether a symbol other than the current one is left to which a way to pay is the only key.
pub open spec fn is_sole_source(
    refs: Seq<RefView>,
    list: Seq<usize>,
    i: usize,
    current: ManaCostShard,
    shards: Seq<ManaCostShard>,
) -> bool {
    exists|k: int|
        0 <= k < shards.len() && needs_only(refs, list, i, current, #[trigger] shards[k])
}

pub open spec fn needs_only(
    refs: Seq<RefView>,
    list: Seq<usize>,
    i: usize,
    current: ManaCostShard,
    other: ManaCostShard,
) -> bool {
    other != current && other != generic_shard() && !other.variable() && place_pays(refs, i, other)
        && paying_count(refs, list, other) <= 1
}

pub fn is_sole_source_for_other_shard_candidates(
    refs: &Vec<ManaAbilityRef>,
    list: &Vec<usize>,
    i: usize,
    current: ManaCostShard,
    unpaid: &ManaCostBeingPaid,
) -> (r: bool)
    ensures
        r == is_sole_source(ref_views(refs@), list@, i, current, shards_of(unpaid@.left)),
{
    let shards = unpaid.get_distinct_shards();
    let mut k: usize = 0;
    while k < shards.len()
        invariant
            k <= shards@.len(),
            shards@ == shards_of(unpaid@.left),
            forall|j: int|
                0 <= j < k ==> !needs_only(
                    ref_views(refs@),
                    list@,
                    i,
                    current,
                    #[trigger] shards@[j],
                ),
        decreases shards@.len() - k,
    {
        let other = shards[k];
        if other != current && other.mask != SHARD_GENERIC && !other.is_variable() && check_place(
            refs,
            i,
            other,
        ) && count_candidates_for_shard(refs, list, other) <= 1 {
            assert(needs_only(ref_views(refs@), list@, i, current, shards@[k as int]));
            return true;
        }
        k = k + 1;
    }
    false
}

/// Whether a way to pay may be used for a symbol.
pub open spec fn is_usable(
    scene: SceneOfPayment,
    st: PayingView,
    refs: Seq<RefView>,
    i: usize,
    shard: ManaCostShard,
) -> bool {
    place_pays(refs, i, shard) && scene.spell != Some(refs[i as int].card_id) && non_tap_payable(
        scene,
        st,
        refs[i as int].card_id,
        refs[i as int].ability_index,
    )
}

pub(crate) fn check_usable(
    scene: PayScene<'_>,
    st: &Paying,
    refs: &Vec<ManaAbilityRef>,
    i: usize,
    shard: ManaCostShard,
) -> (r: bool)
    ensures
        r == is_usable(scene@, st@, ref_views(refs@), i, shard),
{
    if !check_place(refs, i, shard) {
        return false;
    }
    let m = &refs[i];
    let own = match scene.spell {
        Some(s) => s == m.card_id,
        None => false,
    };
    !own && can_pay_non_tap_mana_ability_costs(scene, st, m.card_id, m.ability_index)
}

/// The first usable way to pay.
pub open spec fn first_usable(
    scene: SceneOfPayment,
    st: PayingView,
    refs: Seq<RefView>,
    list: Seq<usize>,
    shard: ManaCostShard,
) -> Option<usize>
    decreases list.len(),
{
    if list.len() == 0 {
        None
    } else if is_usable(scene, st, refs, list[0], shard) {
        Some(list[0])
    } else {
        first_usable(scene, st, refs, list.skip(1), shard)
    }
}

/// The first usable way to pay that no other symbol hangs on.
pub open spec fn first_spare(
    scene: SceneOfPayment,
    st: PayingView,
    refs: Seq<RefView>,
    all: Seq<usize>,
    list: Seq<usize>,
    shard: ManaCostShard,
    shards: Seq<ManaCostShard>,
) -> Option<usize>
    decreases list.len(),
{
    if list.len() == 0 {
        None
    } else if is_usable(scene, st, refs, list[0], shard) && !is_sole_source(
        refs,
        all,
        list[0],
        shard,
        shards,
    ) {
        Some(list[0])
    } else {
        first_spare(scene, st, refs, all, list.skip(1), shard, shards)
    }
}

/// The way to pay a symbol: one that no other symbol hangs on, else the first usable one.
pub open spec fn least_versatile(
    scene: SceneOfPayment,
    st: PayingView,
    refs: Seq<RefView>,
    list: Seq<usize>,
    shard: ManaCostShard,
    shards: Seq<ManaCostShard>,
) -> Option<usize> {
    match first_spare(scene, st, refs, list, list, shard, shards) {
        Some(i) => Some(i),
        None => first_usable(scene, st, refs, list, shard),
    }
}

proof fn lemma_usable_in_range(
    scene: SceneOfPayment,
    st: PayingView,
    refs: Seq<RefView>,
    all: Seq<usize>,
    list: Seq<usize>,
    shard: ManaCostShard,
    shards: Seq<ManaCostShard>,
)
    ensures
        first_usable(scene, st, refs, list, shard) matches Some(i) ==> i < refs.len(),
        first_spare(scene, st, refs, all, list, shard, shards) matches Some(i) ==> i < refs.len(),
    decreases list.len(),
{
    if list.len() > 0 {
        lemma_usable_in_range(scene, st, refs, all, list.skip(1), shard, shards);
    }
}

pub fn choose_least_versatile_candidate(
    scene: PayScene<'_>,
    st: &Paying,
    refs: &Vec<ManaAbilityRef>,
    list: &Vec<usize>,
    shard: ManaCostShard,
    unpaid: &ManaCostBeingPaid,
) -> (r: Option<usize>)
    ensures
        r == least_versatile(
            scene@,
            st@,
            ref_views(refs@),
            list@,
            shard,
            shards_of(unpaid@.left),
        ),
        r matches Some(i) ==> i < refs@.len(),
{
    let ghost all = list@;
    let ghost views = ref_views(refs@);
    let ghost shards = shards_of(unpaid@.left);
    let mut fallback: Option<usize> = None;
    let mut k: usize = 0;
    assert(all.skip(0) =~= all);
    proof {
        lemma_usable_in_range(scene@, st@, views, all, all, shard, shards);
    }
    while k < list.len()
        invariant
            k <= all.len(),
            all == list@,
            views == ref_views(refs@),
            shards == shards_of(unpaid@.left),
            first_spare(scene@, st@, views, all, all, shard, shards) == first_spare(
                scene@,
                st@,
                views,
                all,
                all.skip(k as int),
                shard,
                shards,
            ),
            match fallback {
                Some(i) => first_usable(scene@, st@, views, all, shard) == Some(i) && i
                    < views.len(),
                None => first_usable(scene@, st@, views, all, shard) == first_usable(
                    scene@,
                    st@,
                    views,
                    all.skip(k as int),
                    shard,
                ),
            },
        decreases all.len() - k,
    {
        assert(all.skip(k as int).skip(1) =~= all.skip(k + 1));
        let i: usize = list[k];
        if check_usable(scene, st, refs, i, shard) {
            if fallback.is_none() {
                fallback = Some(i);
            }
            if !is_sole_source_for_other_shard_candidates(refs, list, i, shard, unpaid) {
                return Some(i);
            }
        }
        k = k + 1;
    }
    fallback
}

/// The next way to pay and the symbol it pays, over symbols in their order.
pub open spec fn candidate_among(
    scene: SceneOfPayment,
    st: PayingView,
    refs: Seq<RefView>,
    list: Seq<usize>,
    shards: Seq<ManaCostShard>,
    order: Seq<ManaCostShard>,
) -> Option<(usize, ManaCostShard)>
    decreases order.len(),
{
    if order.len() == 0 {
        None
    } else {
        match least_versatile(scene, st, refs, list, order[0], shards) {
            Some(i) => Some((i, order[0])),
            None => candidate_among(scene, st, refs, list, shards, order.skip(1)),
        }
    }
}

/// The next way to pay and the symbol it pays.
pub open spec fn next_candidate(
    scene: SceneOfPayment,
    st: PayingView,
    refs: Seq<RefView>,
    list: Seq<usize>,
    left: Seq<crate::mana::cost::ShardCount>,
) -> Option<(usize, ManaCostShard)> {
    candidate_among(scene, st, refs, list, shards_of(left), shard_order(left, refs, list))
}

pub fn choose_candidate(
    scene: PayScene<'_>,
    st: &Paying,
    refs: &Vec<ManaAbilityRef>,
    list: &Vec<usize>,
    unpaid: &ManaCostBeingPaid,
) -> (r: Option<(usize, ManaCostShard)>)
    ensures
        r == next_candidate(scene@, st@, ref_views(refs@), list@, unpaid@.left),
        r matches Some((i, _)) ==> i < refs@.len(),
{
    let order = shard_priority(unpaid, refs, list);
    let ghost all = order@;
    let ghost views = ref_views(refs@);
    let ghost shards = shards_of(unpaid@.left);
    let mut k: usize = 0;
    assert(all.skip(0) =~= all);
    while k < order.len()
        invariant
            k <= all.len(),
            all == order@,
            all == shard_order(unpaid@.left, views, list@),
            views == ref_views(refs@),
            shards == shards_of(unpaid@.left),
            candidate_among(scene@, st@, views, list@, shards, all) == candidate_among(
                scene@,
                st@,
                views,
                list@,
                shards,
                all.skip(k as int),
            ),
        decreases all.len() - k,
    {
        assert(all.skip(k as int).skip(1) =~= all.skip(k + 1));
        if let Some(i) = choose_least_versatile_candidate(
            scene,
            st,
            refs,
            list,
            order[k],
            unpaid,
        ) {
            return Some((i, order[k]));
        }
        k = k + 1;
    }
    None
}

// ---- which atom to make ----

/// The first of some atoms that pays a symbol.
pub open spec fn first_paying(atoms: Seq<u16>, shard: ManaCostShard) -> Option<u16>
    decreases atoms.len(),
{
    if atoms.len() == 0 {
        None
    } else if shard.payable_with(atoms[0]) {
        Some(atoms[0])
    } else {
        first_paying(atoms.skip(1), shard)
    }
}

/// The atom that a way to pay makes for a symbol.
pub open spec fn atom_for(m: RefView, shard: ManaCostShard) -> Option<u16> {
    if shard.colorless() && m.atoms.contains(COLORLESS) {
        Some(COLORLESS)
    } else if shard.generic_like() {
        if m.empty_identity() {
            Some(WHITE)
        } else if m.atoms.len() > 0 {
            Some(m.atoms[0])
        } else {
            None
        }
    } else {
        first_paying(m.atoms, shard)
    }
}

pub fn choose_atom_for_shard(m: &ManaAbilityRef, shard: ManaCostShard) -> (r: Option<u16>)
    ensures
        r == atom_for(m@, shard),
{
    if shard.is_colorless() && has_atom(&m.atoms, COLORLESS) {
        return Some(COLORLESS);
    }
    if shard.is_generic() {
        if m.is_empty_identity() {
            return Some(WHITE);
        }
        return if m.atoms.len() > 0 {
            Some(m.atoms[0])
        } else {
            None
        };
    }
    let ghost all = m.atoms@;
    let mut i: usize = 0;
    assert(all.skip(0) =~= all);
    while i < m.atoms.len()
        invariant
            i <= all.len(),
            all == m.atoms@,
            !(shard.colorless() && all.contains(COLORLESS)),
            !shard.generic_like(),
            first_paying(all, shard) == first_paying(all.skip(i as int), shard),
        decreases all.len() - i,
    {
        assert(all.skip(i as int).skip(1) =~= all.skip(i + 1));
        if shard.can_be_paid_with(m.atoms[i]) {
            return Some(m.atoms[i]);
        }
        i = i + 1;
    }
    None
}

/// Candidates without those of cards that were declined.
pub open spec fn not_declined(list: Seq<usize>, refs: Seq<RefView>, declined: Seq<CardId>) -> Seq<
    usize,
>
    decreases list.len(),
{
    if list.len() == 0 {
        Seq::empty()
    } else {
        let before = not_declined(list.drop_last(), refs, declined);
        let i = list.last();
        if i < refs.len() && declined.contains(refs[i as int].card_id) {
            before
        } else {
            before.push(i)
        }
    }
}

pub fn drop_declined(list: &Vec<usize>, refs: &Vec<ManaAbilityRef>, declined: &Vec<CardId>) -> (r:
    Vec<usize>)
    ensures
        r@ == not_declined(list@, ref_views(refs@), declined@),
{
    let ghost all = list@;
    let ghost views = ref_views(refs@);
    let mut out: Vec<usize> = Vec::new();
    let mut k: usize = 0;
    while k < list.len()
        invariant
            k <= all.len(),
            all == list@,
            views == ref_views(refs@),
            out@ == not_declined(all.take(k as int), views, declined@),
        decreases all.len() - k,
    {
        assert(all.take(k + 1).drop_last() =~= all.take(k as int));
        let i: usize = list[k];
        let dropped = if i < refs.len() {
            assert(views[i as int] == refs@[i as int]@);
            has_card(declined, refs[i].card_id)
        } else {
            false
        };
        if !dropped {
            out.push(i);
        }
        k = k + 1;
    }
    assert(all.take(k as int) =~= all);
    out
}

pub proof fn lemma_none_declined(list: Seq<usize>, refs: Seq<RefView>)
    ensures
        not_declined(list, refs, Seq::empty()) == list,
    decreases list.len(),
{
    if list.len() > 0 {
        lemma_none_declined(list.drop_last(), refs);
        assert(list.drop_last().push(list.last()) =~= list);
    } else {
        assert(list =~= Seq::empty());
    }
}

proof fn lemma_not_declined(list: Seq<usize>, refs: Seq<RefView>, declined: Seq<CardId>, k: int)
    requires
        0 <= k < not_declined(list, refs, declined).len(),
    ensures
        ({
            let i = not_declined(list, refs, declined)[k];
            i < refs.len() ==> !declined.contains(refs[i as int].card_id)
        }),
    decreases list.len(),
{
    if list.len() > 0 {
        let before = not_declined(list.drop_last(), refs, declined);
        if k < before.len() {
            lemma_not_declined(list.drop_last(), refs, declined, k);
        }
    }
}

proof fn lemma_usable_is_listed(
    scene: SceneOfPayment,
    st: PayingView,
    refs: Seq<RefView>,
    all: Seq<usize>,
    list: Seq<usize>,
    shard: ManaCostShard,
    shards: Seq<ManaCostShard>,
)
    ensures
        first_usable(scene, st, refs, list, shard) matches Some(i) ==> list.contains(i),
        first_spare(scene, st, refs, all, list, shard, shards) matches Some(i) ==> list.contains(i),
    decreases list.len(),
{
    if list.len() > 0 {
        let rest = list.skip(1);
        lemma_usable_is_listed(scene, st, refs, all, rest, shard, shards);
        assert(list.contains(list[0]));
        assert forall|i: usize| rest.contains(i) implies list.contains(i) by {
            let k = choose|k: int| 0 <= k < rest.len() && rest[k] == i;
            assert(list[k + 1] == i);
        }
    }
}

proof fn lemma_among_is_listed(
    scene: SceneOfPayment,
    st: PayingView,
    refs: Seq<RefView>,
    list: Seq<usize>,
    shards: Seq<ManaCostShard>,
    order: Seq<ManaCostShard>,
)
    ensures
        candidate_among(scene, st, refs, list, shards, order) matches Some((i, _)) ==> i
            < refs.len() && list.contains(i),
    decreases order.len(),
{
    if order.len() > 0 {
        lemma_usable_in_range(scene, st, refs, list, list, order[0], shards);
        lemma_usable_is_listed(scene, st, refs, list, list, order[0], shards);
        lemma_among_is_listed(scene, st, refs, list, shards, order.skip(1));
    }
}

/// A way to pay of a card that was declined is never the next one.
pub proof fn law_declined_is_not_next(
    scene: SceneOfPayment,
    st: PayingView,
    refs: Seq<RefView>,
    list: Seq<usize>,
    declined: Seq<CardId>,
    left: Seq<crate::mana::cost::ShardCount>,
)
    ensures
        next_candidate(scene, st, refs, not_declined(list, refs, declined), left) matches Some(
            (i, _),
        ) ==> i < refs.len() && !declined.contains(refs[i as int].card_id),
{
    let kept = not_declined(list, refs, declined);
    lemma_among_is_listed(scene, st, refs, kept, shards_of(left), shard_order(left, refs, kept));
    if let Some((i, _)) = next_candidate(scene, st, refs, kept, left) {
        let k = choose|k: int| 0 <= k < kept.len() && kept[k] == i;
        lemma_not_declined(list, refs, declined, k);
    }
}

} // verus!
