# manabrew_engine

Rules of a trading card game, written and proved in Verus: reading card scripts, script variables,
static abilities, triggers, replacement effects, the untap step, and automatic payment of mana.

* `src/` is the library. Every function states in its contract what it returns or changes; the
  functions named `law_...` state what holds of several of them together.
  * `parsing/` parameter lists and selectors; `svar/` numbers that scripts compute
  * `staticability/`, `trigger/`, `phase/` what the abilities of cards do
  * `replacement/` what happens to an event before it happens, one event at a time or damage in
    batches
  * `mana/` costs, pools, sources, payments and the question whether a cost can be paid
  * `game.rs`, `spell.rs`, `types.rs` the state that all of this reads; `setup.rs` makes it
  * `text.rs`, `lists.rs`, `sorting.rs`, `ordered_map.rs` what the rest is built from
* `tests/` runs the library.
* `app/` is ordinary Rust around it: players who answer questions, warnings, storage.

What a card selector, a player selector or an ability filter matches is not decided here: the game
state brings it along as facts, and the rules read them.
