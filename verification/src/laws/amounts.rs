//! How much mana the use of an ability makes.

use vstd::prelude::*;
use crate::game::{GameState, TapTrigger};
use crate::mana::ability::{ability_used, RefView};
use crate::mana::atoms::{atoms_text, letter_of, letters, repeated, ManaCostShard};
use crate::mana::autopay::{after_use, ModeView, PaymentView, TapAnswerView};
use crate::mana::cost_parts::SceneOfPayment;
use crate::mana::pool::{text_atoms, word_atoms, words_atoms};
use crate::mana::produce::{
    amount_of, base_atoms, made_entries, made_text, requires_tap, triggered,
};
use crate::mana::sources::base_amount;
use crate::parsing::params::string_of;
use crate::text::{
    first_place, law_number_is_read, lemma_first_place, lemma_pieces_joined, number_text, pieces,
};
use crate::types::{CardId, PlayerId};

verus! {

/// A mana ability whose amount is written as a positive number makes its mana so often; one without
/// an amount makes it once, and so does one whose amount is written as a number that is not positive.
pub proof fn law_written_amount(n: i32, game: GameState, card: CardId, player: PlayerId)
    ensures
        n > 0 ==> base_amount(Some(number_text(n as int)), game, card, player) == n,
        n <= 0 ==> base_amount(Some(number_text(n as int)), game, card, player) == 1,
        base_amount(None, game, card, player) == 1,
{
    law_number_is_read(n);
}

/// Whether an atom is one of a color or colorless.
pub open spec fn is_plain(atom: u16) -> bool {
    atom == 1 || atom == 2 || atom == 4 || atom == 8 || atom == 16 || atom == 32
}

pub open spec fn all_plain(atoms: Seq<u16>) -> bool {
    forall|i: int| 0 <= i < atoms.len() ==> is_plain(#[trigger] atoms[i])
}

proof fn lemma_letters()
    ensures
        forall|a: u16| is_plain(a) ==> #[trigger] letter_of(a).len() == 1 && letter_of(a)[0] != ' ',
        forall|a: u16| is_plain(a) ==> word_atoms(#[trigger] letter_of(a)) == seq![a],
        letter_of(1)[0] == 'W',
        letter_of(2)[0] == 'U',
        letter_of(4)[0] == 'B',
        letter_of(8)[0] == 'R',
        letter_of(16)[0] == 'G',
        letter_of(32)[0] == 'C',
{
    reveal_strlit("W");
    reveal_strlit("U");
    reveal_strlit("B");
    reveal_strlit("R");
    reveal_strlit("G");
    reveal_strlit("C");
    assert("W"@[0] != "U"@[0] && "W"@[0] != "B"@[0] && "W"@[0] != "R"@[0] && "W"@[0] != "G"@[0]
        && "W"@[0] != "C"@[0]);
    assert("U"@[0] != "B"@[0] && "U"@[0] != "R"@[0] && "U"@[0] != "G"@[0] && "U"@[0] != "C"@[0]);
    assert("B"@[0] != "R"@[0] && "B"@[0] != "G"@[0] && "B"@[0] != "C"@[0]);
    assert("R"@[0] != "G"@[0] && "R"@[0] != "C"@[0]);
    assert("G"@[0] != "C"@[0]);
}

proof fn lemma_one_piece(s: Seq<char>, mark: char)
    requires
        !s.contains(mark),
    ensures
        pieces(s, seq![mark]) == seq![s],
{
    lemma_first_place(s, seq![mark]);
    if let Some(i) = first_place(s, seq![mark]) {
        assert(s.subrange(i, i + 1)[0] == mark);
        assert(s[i] == mark);
    }
}

proof fn lemma_words_on(a: Seq<Seq<char>>, b: Seq<Seq<char>>)
    ensures
        words_atoms(a + b) == words_atoms(a) + words_atoms(b),
    decreases b.len(),
{
    if b.len() == 0 {
        assert(a + b =~= a);
        assert(words_atoms(a) + words_atoms(b) =~= words_atoms(a));
    } else {
        lemma_words_on(a, b.drop_last());
        assert((a + b).drop_last() =~= a + b.drop_last());
        assert((a + b).last() == b.last());
        assert(words_atoms(a) + words_atoms(b) =~= words_atoms(a) + words_atoms(b.drop_last())
            + word_atoms(b.last()));
    }
}

/// The text of mana, read again, gives the mana.
pub proof fn law_mana_text_is_read(atoms: Seq<u16>)
    requires
        all_plain(atoms),
    ensures
        text_atoms(atoms_text(atoms)) == atoms,
    decreases atoms.len(),
{
    reveal_strlit(" ");
    assert(" "@ =~= seq![' ']);
    lemma_letters();
    assert(words_atoms(Seq::<Seq<char>>::empty()) =~= Seq::<u16>::empty());
    if atoms.len() == 0 {
        let none = Seq::<char>::empty();
        assert(!none.contains(' '));
        lemma_one_piece(none, ' ');
        reveal_strlit("W");
        reveal_strlit("U");
        reveal_strlit("B");
        reveal_strlit("R");
        reveal_strlit("G");
        reveal_strlit("C");
        assert(word_atoms(none) =~= Seq::<u16>::empty());
        assert(seq![none].drop_last() =~= Seq::<Seq<char>>::empty());
        assert(words_atoms(seq![none]) =~= Seq::<u16>::empty());
        assert(atoms =~= Seq::<u16>::empty());
    } else {
        let last = letter_of(atoms.last());
        assert(is_plain(atoms[atoms.len() - 1]));
        assert(!last.contains(' '));
        lemma_one_piece(last, ' ');
        assert(seq![last].drop_last() =~= Seq::<Seq<char>>::empty());
        assert(words_atoms(seq![last]) =~= seq![atoms.last()]);
        let less = atoms.drop_last();
        assert(all_plain(less)) by {
            assert forall|i: int| 0 <= i < less.len() implies is_plain(#[trigger] less[i]) by {
                assert(less[i] == atoms[i]);
            }
        }
        if atoms.len() == 1 {
            assert(letters(atoms)[0] == last);
            assert(atoms =~= seq![atoms.last()]);
        } else {
            law_mana_text_is_read(less);
            assert(letters(atoms).drop_last() =~= letters(less));
            assert(letters(atoms).last() == last);
            lemma_pieces_joined(atoms_text(less), ' ', last);
            lemma_words_on(pieces(atoms_text(less), " "@), seq![last]);
            assert(text_atoms(atoms_text(atoms)) =~= less + seq![atoms.last()]);
            assert(less + seq![atoms.last()] =~= atoms);
        }
    }
}

proof fn lemma_repeated_one(atom: u16, n: nat)
    ensures
        repeated(seq![atom], n).len() == n,
        forall|i: int| 0 <= i < n ==> #[trigger] repeated(seq![atom], n)[i] == atom,
    decreases n,
{
    if n > 0 {
        lemma_repeated_one(atom, (n - 1) as nat);
    }
}

/// Whether a way to pay makes an atom of the player's choice, `n` times, by what is written on the
/// card.
pub open spec fn makes_chosen(game: GameState, m: RefView, n: i32) -> bool {
    &&& ability_used(game, m.card_id, m.ability_index) matches Some(ab) && string_of(ab.amount)
        == Some(number_text(n as int))
    &&& m.fixed is None
    &&& !m.special
    &&& !m.empty_identity()
}

/// Using an ability with a written amount of `n` adds `n` mana of the chosen color to the pool, all
/// of it from that card, and leaves what was there; and its card is tapped where the ability says
/// so.
pub proof fn law_use_adds_the_amount(
    scene: SceneOfPayment,
    mode: ModeView,
    p: PaymentView,
    m: RefView,
    shard: ManaCostShard,
    atom: u16,
    answer: TapAnswerView,
    n: i32,
)
    requires
        n > 0,
        makes_chosen(scene.game, m, n),
        is_plain(atom),
        answer.replaced is None,
        scene.game.facts.tap_triggers@.len() == 0,
        !mode.incremental,
    ensures
        ({
            let after = after_use(scene, mode, p, m, shard, atom, answer);
            &&& after.pool.len() == p.pool.len() + n
            &&& forall|i: int| 0 <= i < p.pool.len() ==> #[trigger] after.pool[i] == p.pool[i]
            &&& forall|i: int|
                p.pool.len() <= i < after.pool.len() ==> (#[trigger] after.pool[i]).color == atom
                    && after.pool[i].source == m.card_id
            &&& requires_tap(scene.game, m) ==> after.st.is_tapped(scene.game, m.card_id)
        }),
{
    law_written_amount(n, scene.game, m.card_id, scene.player);
    lemma_repeated_one(atom, n as nat);
    let atoms = base_atoms(m, amount_of(scene.game, scene.player, m), atom);
    law_mana_text_is_read(atoms);
    let t = p.st.tapped;
    assert(t.push(m.card_id)[t.len() as int] == m.card_id);
}

/// What a fixed ability makes comes as often as its amount says, in its order.
pub proof fn law_fixed_mana_is_made(
    game: GameState,
    player: PlayerId,
    m: RefView,
    chosen: u16,
    atoms: Seq<u16>,
)
    requires
        m.fixed == Some(atoms),
        all_plain(atoms),
        !m.empty_identity(),
        amount_of(game, player, m) == 1,
    ensures
        text_atoms(made_text(game, player, m, chosen, None)) == atoms,
{
    assert(repeated(atoms, 0) =~= Seq::<u16>::empty());
    assert(repeated(atoms, 1) =~= atoms);
    law_mana_text_is_read(atoms);
}

/// Mana of a use comes from the card that is used, and is of snow exactly where the card is.
pub proof fn law_mana_comes_from_its_source(
    game: GameState,
    m: RefView,
    restricted: bool,
    atoms: Seq<u16>,
)
    ensures
        made_entries(game, m, restricted, atoms).len() == atoms.len(),
        forall|i: int|
            0 <= i < atoms.len() ==> {
                let e = #[trigger] made_entries(game, m, restricted, atoms)[i];
                &&& e.color == atoms[i]
                &&& e.source == m.card_id
                &&& game.card_at(m.card_id) matches Some(c) ==> e.is_snow == c.types.snow
                &&& !restricted ==> e.restriction is None && !e.riders.adds_no_counter
                &&& restricted ==> (ability_used(game, m.card_id, m.ability_index) matches Some(ab)
                    ==> e.restriction == string_of(ab.restrict_valid) && e.riders == ab.riders@)
            },
{
}

/// A trigger of tapping adds its mana as often as it fires and says, from its own card; one of another
/// card or another player adds nothing.
pub proof fn law_tap_triggers_add(
    game: GameState,
    triggers: Seq<TapTrigger>,
    t: TapTrigger,
    source: CardId,
    player: PlayerId,
    produced: Seq<char>,
    to_pay: ManaCostShard,
    colors: Seq<u16>,
)
    requires
        !t.reflects,
        !t.any_color,
        t.atoms@.len() > 0,
        is_plain(t.atoms@[0]),
        t.amount > 0,
    ensures
        ({
            let before = triggered(game, triggers, source, player, produced, to_pay, colors);
            let after = triggered(
                game,
                triggers.push(t),
                source,
                player,
                produced,
                to_pay,
                colors,
            );
            let n = (t.extra + 1) * t.amount;
            &&& t.source != source || t.player != player ==> after == before
            &&& t.source == source && t.player == player ==> after.0.len() == before.0.len() + n
                && after.1.len() == before.1.len() + n && (forall|i: int|
                0 <= i < before.0.len() ==> #[trigger] after.0[i] == before.0[i]) && (forall|i: int|
                before.0.len() <= i < after.0.len() ==> (#[trigger] after.0[i]).color == t.atoms@[0]
                    && after.0[i].source == t.host && after.0[i].restriction is None)
        }),
{
    assert(triggers.push(t).drop_last() =~= triggers);
    assert((t.extra + 1) * t.amount >= 0) by (nonlinear_arith)
        requires
            t.amount > 0,
            t.extra >= 0,
    ;
}

} // verus!
