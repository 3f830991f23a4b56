//! What the scripts of replacement effects change.

use vstd::prelude::*;
use crate::game::{svar_value, Card, Facts, GameState};
use crate::laws::effects::{is_damage, is_move};
use crate::laws::numbers::{lemma_number_chars, lemma_starts};
use crate::laws::operators::{law_comparisons, law_operands};
use crate::laws::turns::lemma_first_none;
use crate::parsing::params::{zone_value, zones_among};
use crate::replacement::effect::{ReplacementChainIr, ReplacementEffect};
use crate::replacement::event::{ReplacementEvent, ReplacementResult, ReplacementType, TokenEntry};
use crate::replacement::kinds::{effect_begun, replaceable, BegunView};
use crate::replacement::replace_damage::{passes_threshold, redirectable};
use crate::replacement::replace_lose_mana::mana_instead;
use crate::replacement::replace_moved::{exile_linked, has_links, linked_card, with_card, zone_listed};
use crate::replacement::replace_token::tokens_counted;
use crate::replacement::value::{chain_done, replace_number, replaced_number, variable_set};
use crate::spell::GameEntity;
use crate::svar::eval::bare_scene;
use crate::svar::math::operated;
use crate::text::{
    has_prefix, int_value, is_white, lemma_mark_between, lowered, pieces, same_ignoring_case,
    trimmed, two_bytes,
};
use crate::types::{zone_named, CardId, ZoneType};

verus! {

/// A text that neither starts nor ends with white space has none to cut off.
pub proof fn lemma_no_white_ends(t: Seq<char>)
    requires
        t.len() > 0,
        !is_white(t[0]),
        !is_white(t.last()),
    ensures
        trimmed(t) == t,
{
}

// ---- numbers ----

/// A number of a script that counts what is replaced is the amount of damage, changed by its
/// operator.
pub proof fn law_replaced_damage_is_counted(
    game: GameState,
    source: CardId,
    event: ReplacementEvent,
    target: GameEntity,
    amount: i32,
    from: Option<CardId>,
    is_combat: bool,
    op: Seq<char>,
    k: Seq<char>,
)
    requires
        is_damage(event, target, amount as int, from, is_combat),
        game.card_at(source) matches Some(c) && svar_value(
            c.svars@,
            "ReplaceCount$"@ + ("DamageAmount"@ + seq!['/'] + (op + seq!['.'] + k)),
        ) is None,
        !op.contains('.'),
        int_value(k) is Some,
    ensures
        replace_number(
            "ReplaceCount$"@ + ("DamageAmount"@ + seq!['/'] + (op + seq!['.'] + k)),
            game,
            source,
            event,
        ) == Some(operated(amount, op, int_value(k)->0 as i32)),
{
    let field = "DamageAmount"@;
    let ops = op + seq!['.'] + k;
    let rest = field + seq!['/'] + ops;
    let t = "ReplaceCount$"@ + rest;
    reveal_strlit("ReplaceCount$");
    reveal_strlit("DamageAmount");
    reveal_strlit("/");
    assert("/"@ =~= seq!['/']);
    lemma_number_chars(k, 'R');
    assert(t[0] == 'R');
    assert(t.last() == k.last());
    assert(trimmed(k) == k);
    assert(!is_white(k.last())) by {
        if is_white(k.last()) {
            crate::text::lemma_trimmed_stays(k);
            crate::text::lemma_trim_end_len(k.drop_last());
        }
    }
    lemma_no_white_ends(t);
    if int_value(t) is Some {
        lemma_number_chars(t, 'R');
        assert(t.contains('R'));
    }
    lemma_starts("ReplaceCount$"@, rest);
    lemma_mark_between(field, '/', ops);
    let host = game.card_at(source)->0;
    law_operands(
        bare_scene(game, source, host.controller),
        crate::svar::eval::MAX_SVAR_RESOLUTION_DEPTH,
        amount,
        op,
        k,
    );
}

/// Damage is above, below or at the number that an effect asks for, by the two letters before the
/// number.
pub proof fn law_thresholds(
    op: Seq<char>,
    k: Seq<char>,
    amount: i32,
    game: GameState,
    host: Card,
    event: ReplacementEvent,
)
    requires
        op == "GE"@ || op == "LE"@ || op == "GT"@ || op == "LT"@ || op == "EQ"@,
        int_value(k) is Some,
    ensures
        op == "GE"@ ==> (passes_threshold(op + k, amount, game, host, event) <==> amount
            >= int_value(k)->0),
        op == "LE"@ ==> (passes_threshold(op + k, amount, game, host, event) <==> amount
            <= int_value(k)->0),
        op == "GT"@ ==> (passes_threshold(op + k, amount, game, host, event) <==> amount
            > int_value(k)->0),
        op == "LT"@ ==> (passes_threshold(op + k, amount, game, host, event) <==> amount
            < int_value(k)->0),
        op == "EQ"@ ==> (passes_threshold(op + k, amount, game, host, event) <==> amount
            == int_value(k)->0),
{
    reveal_strlit("GE");
    reveal_strlit("LE");
    reveal_strlit("GT");
    reveal_strlit("LT");
    reveal_strlit("EQ");
    let t = op + k;
    assert(op.len() == 2);
    assert(t[0] == op[0] && t[1] == op[1]);
    assert((op[0] as u32) < 0x80 && (op[1] as u32) < 0x80);
    assert(two_bytes(t) == Some(2int));
    assert(t.take(2) =~= op);
    assert(t.skip(2) =~= k);
    lemma_number_chars(k, ' ');
    law_comparisons(amount, op, int_value(k)->0 as i32);
}

// ---- variables ----

/// Whether a name is that of the amount of an event, and of nothing else.
pub open spec fn names_the_amount(name: Seq<char>) -> bool {
    name != "DicePTExchanges"@ && name != "Result"@ && name != "Affected"@ && name != "Ignore"@
        && name != "IgnoreChosen"@
}

/// A script that sets the amount of damage to a number leaves that much damage, and none where the
/// number is negative; target, source and kind of the damage stay.
pub proof fn law_damage_is_set(
    chain: ReplacementChainIr,
    name: String,
    value: String,
    game: GameState,
    host: CardId,
    before: ReplacementEvent,
    after: ReplacementEvent,
    updated: bool,
    target: GameEntity,
    amount: i32,
    source: Option<CardId>,
    is_combat: bool,
)
    requires
        chain matches ReplacementChainIr::ReplaceEffect { var_name, var_value, sub_ability, .. }
            && var_name == Some(name) && var_value == Some(value) && sub_ability is None,
        names_the_amount(name@),
        int_value(value@) is Some,
        is_damage(before, target, amount as int, source, is_combat),
        chain_done(chain, game, host, None, before, after, updated),
    ensures
        updated,
        is_damage(
            after,
            target,
            if int_value(value@)->0 > 0 {
                int_value(value@)->0
            } else {
                0
            },
            source,
            is_combat,
        ),
{
    lemma_number_chars(value@, ' ');
}

/// The same of life that is gained and of cards that are drawn.
pub proof fn law_amounts_are_set(
    chain: ReplacementChainIr,
    name: String,
    value: String,
    game: GameState,
    host: CardId,
    before: ReplacementEvent,
    after: ReplacementEvent,
    updated: bool,
)
    requires
        chain matches ReplacementChainIr::ReplaceEffect { var_name, var_value, sub_ability, .. }
            && var_name == Some(name) && var_value == Some(value) && sub_ability is None,
        names_the_amount(name@),
        int_value(value@) is Some,
        int_value(value@)->0 >= 0,
        chain_done(chain, game, host, None, before, after, updated),
    ensures
        before matches ReplacementEvent::GainLife { player, .. } ==> (
        after matches ReplacementEvent::GainLife { player: p, amount, .. } && p == player && amount
            == int_value(value@)->0),
        before matches ReplacementEvent::DrawCards { player, .. } ==> (
        after matches ReplacementEvent::DrawCards { player: p, count, .. } && p == player && count
            == int_value(value@)->0),
        before matches ReplacementEvent::Mill { player, .. } ==> (
        after matches ReplacementEvent::Mill { player: p, count, .. } && p == player && count
            == int_value(value@)->0),
        before matches ReplacementEvent::Scry { player, .. } ==> (
        after matches ReplacementEvent::Scry { player: p, count, .. } && p == player && count
            == int_value(value@)->0),
        before matches ReplacementEvent::AddCounter { target, .. } ==> (
        after matches ReplacementEvent::AddCounter { target: t, count, .. } && t == target && count
            == int_value(value@)->0),
{
    lemma_number_chars(value@, ' ');
}

/// Redirected damage goes to the player that the script names, with its amount and source: the one who
/// controls the card of the effect, or the one who controls the source of the damage.
pub proof fn law_damage_is_redirected(
    value: Seq<char>,
    game: GameState,
    host: CardId,
    before: ReplacementEvent,
    after: ReplacementEvent,
    updated: bool,
    target: GameEntity,
    amount: i32,
    source: CardId,
    is_combat: bool,
)
    requires
        is_damage(before, target, amount as int, Some(source), is_combat),
        game.card_at(host) is Some,
        game.card_at(source) is Some,
        variable_set(
            "Affected"@,
            Some("Player"@),
            None,
            Some(value),
            game,
            host,
            before,
            after,
            updated,
        ),
    ensures
        value == "You"@ ==> is_damage(
            after,
            GameEntity::Player(game.card_at(host)->0.controller),
            amount as int,
            Some(source),
            is_combat,
        ),
        value == "ReplacedSourceController"@ ==> is_damage(
            after,
            GameEntity::Player(game.card_at(source)->0.controller),
            amount as int,
            Some(source),
            is_combat,
        ),
{
    reveal_strlit("Affected");
    reveal_strlit("DicePTExchanges");
    reveal_strlit("Result");
    assert("Affected"@.len() == 8 && "DicePTExchanges"@.len() == 15 && "Result"@.len() == 6);
    reveal_strlit("Player");
    reveal_strlit("Card");
    assert("Player"@.len() == 6 && "Card"@.len() == 4);
    reveal_strlit("You");
    reveal_strlit("Opponent");
    reveal_strlit("ReplacedSourceController");
    assert("You"@.len() == 3 && "ReplacedSourceController"@.len() == 24 && "Opponent"@.len() == 8);
    if value == "You"@ {
        assert(value[0] == 'Y' && value.last() == 'u');
        lemma_no_white_ends(value);
    }
    if value == "ReplacedSourceController"@ {
        assert(value[0] == 'R' && value.last() == 'r');
        lemma_no_white_ends(value);
    }
}

/// Damage to whoever it cannot be redirected from is not, nor to a player who has left.
pub proof fn law_no_redirection(
    def: Seq<char>,
    event: ReplacementEvent,
    game: GameState,
    host: Card,
    i: int,
)
    requires
        redirectable(def, event, game, host),
    ensures
        event matches ReplacementEvent::DamageToCard { target, .. } ==> (game.card_at(target) matches Some(
            c,
        ) ==> !c.keyword("Damage that would be dealt to CARDNAME can't be redirected."@)),
        !has_prefix(def, "Replaced"@) && 0 <= i < game.facts.players_defined(def, host.id).len() ==> (
        game.player_at(game.facts.players_defined(def, host.id)[i]) matches Some(p)
            ==> !p.left_game),
        !has_prefix(def, "Replaced"@) && 0 <= i < game.facts.cards_defined(def, host.id).len() ==> (
        game.card_at(game.facts.cards_defined(def, host.id)[i]) matches Some(c)
            ==> c.can_be_dealt_damage),
{
}

// ---- zones ----

/// The names of zones, whatever the case of their letters.
pub proof fn law_names_of_zones(name: Seq<char>)
    ensures
        same_ignoring_case(name, "None"@) ==> zone_named(name) == Some(ZoneType::Nowhere),
        same_ignoring_case(name, "Library"@) ==> zone_named(name) == Some(ZoneType::Library),
        same_ignoring_case(name, "Hand"@) ==> zone_named(name) == Some(ZoneType::Hand),
        same_ignoring_case(name, "Battlefield"@) ==> zone_named(name) == Some(ZoneType::Battlefield),
        same_ignoring_case(name, "Graveyard"@) ==> zone_named(name) == Some(ZoneType::Graveyard),
        same_ignoring_case(name, "Exile"@) ==> zone_named(name) == Some(ZoneType::Exile),
        same_ignoring_case(name, "Stack"@) ==> zone_named(name) == Some(ZoneType::Stack),
        same_ignoring_case(name, "Command"@) ==> zone_named(name) == Some(ZoneType::Command),
        same_ignoring_case(name, "Sideboard"@) ==> zone_named(name) == Some(ZoneType::Sideboard),
        same_ignoring_case(name, "Ante"@) ==> zone_named(name) == Some(ZoneType::Ante),
{
    reveal_strlit("None");
    reveal_strlit("Library");
    reveal_strlit("Hand");
    reveal_strlit("Battlefield");
    reveal_strlit("Graveyard");
    reveal_strlit("Exile");
    reveal_strlit("Stack");
    reveal_strlit("Command");
    reveal_strlit("Sideboard");
    reveal_strlit("Ante");
    assert(lowered("None"@).len() == 4);
    assert(lowered("Library"@).len() == 7);
    assert(lowered("Hand"@).len() == 4);
    assert(lowered("Battlefield"@).len() == 11);
    assert(lowered("Graveyard"@).len() == 9);
    assert(lowered("Exile"@).len() == 5);
    assert(lowered("Stack"@).len() == 5);
    assert(lowered("Command"@).len() == 7);
    assert(lowered("Sideboard"@).len() == 9);
    assert(lowered("Ante"@).len() == 4);
    assert(lowered("None"@)[0] != lowered("Hand"@)[0]);
    assert(lowered("None"@)[0] != lowered("Ante"@)[0]);
    assert(lowered("Library"@)[0] != lowered("Command"@)[0]);
    assert(lowered("Hand"@)[0] != lowered("Ante"@)[0]);
    assert(lowered("Graveyard"@)[0] != lowered("Sideboard"@)[0]);
    assert(lowered("Exile"@)[0] != lowered("Stack"@)[0]);
}

proof fn lemma_one_zone(t: Seq<char>, z: ZoneType, zone: ZoneType)
    requires
        !t.contains(','),
        zone_value(t) == Some(z),
        trimmed(t) != "Any"@,
    ensures
        zone_listed(t, zone) <==> zone == z,
{
    reveal_strlit(",");
    assert(","@ =~= seq![',']);
    lemma_first_none(t, ',');
    let words = seq![t];
    assert(pieces(t, ","@) == words);
    assert(words.drop_last() =~= Seq::<Seq<char>>::empty());
    assert(zones_among(words.drop_last()) =~= Seq::<ZoneType>::empty());
    let v = zones_among(words);
    assert(v =~= seq![z]);
    if zone == z {
        assert(v[0] == zone);
    }
    if v.contains(zone) {
        let i = choose|i: int| 0 <= i < v.len() && v[i] == zone;
        assert(i == 0);
    }
}

/// An effect on moves that names where cards go, do not go or come from applies only to moves that do
/// or do not; one that names nothing else applies to all of those.
pub proof fn law_zones_of_moves(
    e: ReplacementEffect,
    event: ReplacementEvent,
    game: GameState,
    host: Card,
    id: CardId,
    from: ZoneType,
    to: ZoneType,
    z: ZoneType,
)
    requires
        e.event == ReplacementType::Moved,
        is_move(event, id, from, to),
    ensures
        e.destination matches Some(t) && !t@.contains(',') && zone_value(t@) == Some(z) && trimmed(
            t@,
        ) != "Any"@ && replaceable(e, event, game, host) ==> to == z,
        e.origin matches Some(t) && !t@.contains(',') && zone_value(t@) == Some(z) && trimmed(t@)
            != "Any"@ && replaceable(e, event, game, host) ==> from == z,
        e.exclude_destination matches Some(t) && !t@.contains(',') && zone_value(t@) == Some(z)
            && trimmed(t@) != "Any"@ && replaceable(e, event, game, host) ==> to != z,
        e.destination matches Some(t) && !t@.contains(',') && zone_value(t@) == Some(z) && trimmed(
            t@,
        ) != "Any"@ && e.discard is None && e.exclude_destination is None && e.origin is None
            && e.valid_card is None && !e.flashback_cast && !e.harmonize_cast && e.valid_lki is None
            && e.valid_stack_sa is None && e.fizzle is None && to == z && z
            != ZoneType::Battlefield ==> replaceable(e, event, game, host),
{
    if let Some(t) = e.destination {
        if !t@.contains(',') && zone_value(t@) == Some(z) && trimmed(t@) != "Any"@ {
            lemma_one_zone(t@, z, to);
        }
    }
    if let Some(t) = e.origin {
        if !t@.contains(',') && zone_value(t@) == Some(z) && trimmed(t@) != "Any"@ {
            lemma_one_zone(t@, z, from);
        }
    }
    if let Some(t) = e.exclude_destination {
        if !t@.contains(',') && zone_value(t@) == Some(z) && trimmed(t@) != "Any"@ {
            lemma_one_zone(t@, z, to);
        }
    }
}

proof fn lemma_links(c: Card, d: Card, exiled: bool, exiler: CardId, moving: Option<CardId>)
    requires
        linked_card(c, d, exiled, exiler, moving),
    ensures
        d.exiled_by == (if exiled {
            Some(exiler)
        } else {
            c.exiled_by
        }),
        moving matches Some(m) ==> d.remembered_cards@ == with_card(c.remembered_cards@, m),
        moving is None ==> d.remembered_cards == c.remembered_cards,
        d.zone == c.zone,
        d.controller == c.controller,
{
    reveal(has_links);
}

/// A card that is exiled with another knows by which it was exiled, and that one remembers it; other
/// cards know nothing of it.
pub proof fn law_exile_is_remembered(
    before: GameState,
    after: GameState,
    moving: CardId,
    exiler: CardId,
    other: CardId,
)
    requires
        exile_linked(before, after, moving, exiler),
        before.card_at(moving) is Some,
        before.card_at(exiler) is Some,
        before.card_at(other) is Some,
    ensures
        after.card_at(moving) matches Some(c) && c.exiled_by == Some(exiler),
        after.card_at(exiler) matches Some(c) && c.remembered_cards@.contains(moving),
        other != moving ==> (after.card_at(other) matches Some(c) && c.exiled_by == before.card_at(
            other,
        )->0.exiled_by),
        other != exiler ==> (after.card_at(other) matches Some(c) && c.remembered_cards
            == before.card_at(other)->0.remembered_cards),
{
    let a = moving.0 as int;
    let b = exiler.0 as int;
    let o = other.0 as int;
    let known = |i: int|
        if i == exiler.0 {
            Some(moving)
        } else {
            None
        };
    assert(after.cards@[a] == after.cards@[a]);
    lemma_links(before.cards@[a], after.cards@[a], a == moving.0, exiler, known(a));
    lemma_links(before.cards@[b], after.cards@[b], b == moving.0, exiler, known(b));
    lemma_links(before.cards@[o], after.cards@[o], o == moving.0, exiler, known(o));
    let v = before.cards@[b].remembered_cards@;
    if !v.contains(moving) {
        assert(v.push(moving)[v.len() as int] == moving);
    }
}

// ---- tokens and mana ----

proof fn lemma_tokens(entries: Seq<TokenEntry>, e: ReplacementEffect, facts: Facts, host: Card)
    requires
        forall|i: int| 0 <= i < entries.len() ==> (#[trigger] entries[i]).amount >= 0,
    ensures
        tokens_counted(entries, e, facts, host) > 0 <==> exists|i: int|
            0 <= i < entries.len() && (#[trigger] entries[i]).amount > 0 && (e.valid_player is Some
                ==> facts.matches_player(
                e.valid_player->0@,
                host.id,
                host.controller,
                entries[i].player,
            )) && (e.valid_token is Some ==> facts.matches_card(
                e.valid_token->0@,
                host.id,
                host.controller,
                entries[i].token,
            )),
    decreases entries.len(),
{
    if entries.len() > 0 {
        let short = entries.drop_last();
        assert forall|i: int| 0 <= i < short.len() implies (#[trigger] short[i]).amount >= 0 by {
            assert(short[i] == entries[i]);
        }
        lemma_tokens(short, e, facts, host);
        assert(entries[entries.len() - 1] == entries.last());
        if tokens_counted(short, e, facts, host) > 0 {
            let i = choose|i: int|
                0 <= i < short.len() && (#[trigger] short[i]).amount > 0 && (e.valid_player is Some
                    ==> facts.matches_player(
                    e.valid_player->0@,
                    host.id,
                    host.controller,
                    short[i].player,
                )) && (e.valid_token is Some ==> facts.matches_card(
                    e.valid_token->0@,
                    host.id,
                    host.controller,
                    short[i].token,
                ));
            assert(entries[i] == short[i]);
        }
        assert forall|i: int| 0 <= i < short.len() implies #[trigger] entries[i] == short[i] by {}
    }
}

/// An effect on tokens applies exactly where tokens that it means would be made for a player that it
/// means.
pub proof fn law_which_tokens_are_replaced(
    e: ReplacementEffect,
    event: ReplacementEvent,
    game: GameState,
    host: Card,
)
    requires
        e.event == ReplacementType::CreateToken,
        !e.effect_only,
        e.valid_player is None,
        event matches ReplacementEvent::CreateToken { token_table, .. } && forall|i: int|
            0 <= i < token_table.entries@.len() ==> (#[trigger] token_table.entries@[i]).amount >= 0,
    ensures
        replaceable(e, event, game, host) <==> exists|i: int|
            0 <= i < event->token_table.entries@.len() && (
            #[trigger] event->token_table.entries@[i]).amount > 0 && (e.valid_token is Some
                ==> game.facts.matches_card(
                e.valid_token->0@,
                host.id,
                host.controller,
                event->token_table.entries@[i].token,
            )),
{
    lemma_tokens(event->token_table.entries@, e, game.facts, host);
}

/// Mana that would be lost is kept where the effect says so, and turned into the mana that it names.
pub proof fn law_lost_mana(
    e: ReplacementEffect,
    game: GameState,
    source: CardId,
    before: ReplacementEvent,
    after: ReplacementEvent,
    begun: BegunView,
)
    requires
        e.event == ReplacementType::LoseMana,
        before is LoseMana,
        effect_begun(e, game, source, before, after, begun),
    ensures
        e.prevents || e.skips ==> after == before && begun == BegunView::Over(
            ReplacementResult::Skipped,
        ),
        !e.prevents && !e.skips ==> begun == BegunView::Over(ReplacementResult::Replaced),
        !e.prevents && !e.skips && mana_instead(e, game.card_at(source)) is None ==> after == before,
        !e.prevents && !e.skips ==> (mana_instead(e, game.card_at(source)) matches Some(m) ==> (
        after matches ReplacementEvent::LoseMana { player, mana } && mana == m && player
            == before->LoseMana_player)),
{
}

/// Damage is redirected to who controls its source or its target only where there is one, and they have
/// not left the game.
pub proof fn law_redirection_to_controllers(
    event: ReplacementEvent,
    game: GameState,
    host: Card,
)
    ensures
        redirectable("ReplacedSourceController"@, event, game, host) ==> {
            &&& event matches ReplacementEvent::DamageToPlayer { source, .. } ==> source is Some && (
            game.card_at(source->0) matches Some(c) ==> (game.player_at(c.controller) matches Some(p)
                ==> !p.left_game))
        },
        redirectable("ReplacedTargetController"@, event, game, host) ==> (
        event matches ReplacementEvent::DamageToCard { target, .. } ==> (game.card_at(
            target,
        ) matches Some(c) ==> (game.player_at(c.controller) matches Some(p) ==> !p.left_game))),
        event is DamageToPlayer ==> !redirectable("ReplacedTargetController"@, event, game, host),
{
    reveal_strlit("Replaced");
    reveal_strlit("ReplacedSourceController");
    reveal_strlit("ReplacedTargetController");
    let a = "ReplacedSourceController"@;
    let b = "ReplacedTargetController"@;
    assert(a.subrange(0, 8) =~= "Replaced"@);
    assert(b.subrange(0, 8) =~= "Replaced"@);
    assert(a[8] == 'S' && b[8] == 'T');
}

// ---- dice ----

/// How many dice are ignored can be counted and set; it is never negative, and the roll is the same
/// otherwise.
pub proof fn law_ignored_dice(
    value: Seq<char>,
    game: GameState,
    source: CardId,
    before: ReplacementEvent,
    after: ReplacementEvent,
    updated: bool,
)
    requires
        before is RollDice,
        int_value(value) is Some,
        variable_set(
            "Ignore"@,
            None,
            None,
            Some(value),
            game,
            source,
            before,
            after,
            updated,
        ),
    ensures
        updated,
        before matches ReplacementEvent::RollDice { player, sides, number, .. } ==> (
        after matches ReplacementEvent::RollDice { player: p, sides: s, number: n, ignore, .. } && p
            == player && s == sides && n == number && ignore == (if int_value(value)->0 > 0 {
            int_value(value)->0
        } else {
            0
        })),
        before matches ReplacementEvent::RollDice { ignore, number, .. } ==> replaced_number(
            "Ignore"@,
            before,
        ) == Some(ignore) && replaced_number("Number"@, before) == Some(number),
{
    lemma_number_chars(value, ' ');
    let w = "Ignore"@;
    reveal_strlit("Ignore");
    reveal_strlit("DicePTExchanges");
    reveal_strlit("Result");
    reveal_strlit("Affected");
    reveal_strlit("DamageAmount");
    reveal_strlit("LifeGained");
    reveal_strlit("Amount");
    reveal_strlit("Number");
    reveal_strlit("TokenNum");
    reveal_strlit("CounterNum");
    reveal_strlit("Num");
    assert(w[0] == 'I');
    assert("Result"@[0] == 'R' && "Amount"@[0] == 'A' && "Number"@[0] == 'N');
    assert(w.len() == 6 && "DicePTExchanges"@.len() == 15 && "Affected"@.len() == 8
        && "DamageAmount"@.len() == 12 && "LifeGained"@.len() == 10 && "TokenNum"@.len() == 8
        && "CounterNum"@.len() == 10 && "Num"@.len() == 3);
}

/// A roll of a planar die can be given another face, for the same player.
pub proof fn law_faces_of_dice(
    value: Seq<char>,
    game: GameState,
    source: CardId,
    before: ReplacementEvent,
    after: ReplacementEvent,
    updated: bool,
)
    requires
        before is PlanarDiceResult,
        crate::replacement::event::face_named(value) is Some,
        variable_set(
            "Result"@,
            None,
            None,
            Some(value),
            game,
            source,
            before,
            after,
            updated,
        ),
    ensures
        updated,
        before matches ReplacementEvent::PlanarDiceResult { player, .. } ==> (
        after matches ReplacementEvent::PlanarDiceResult { player: p, result } && p == player
            && Some(result) == crate::replacement::event::face_named(value)),
{
    reveal_strlit("Result");
    reveal_strlit("DicePTExchanges");
    assert("Result"@.len() == 6 && "DicePTExchanges"@.len() == 15);
}

} // verus!
