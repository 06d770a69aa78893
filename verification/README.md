# phase_ai

The decision logic of an AI player for a trading card game, verified with Verus.

The rules of the game live in a rules engine. The engine fills in a position as
plain values (`src/model.rs`), and everything the AI decides is a function of
those values with a contract.

| Where | What |
| --- | --- |
| `src/eval.rs` | board evaluation: totals, creature values, threat levels, features, weights |
| `src/policies/` | the tactical policies, each with the ruling it gives on a candidate |
| `src/auto_play.rs` | batches of AI actions and the driver with its exact action cap |
| `src/harvest.rs` | labelled feature rows of played games |
| `src/mana_colors.rs` | the colors a land makes, and the color a cast asks for |
| `src/commander.rs`, `src/duel.rs`, `src/bench.rs` | arguments, tallies, outcomes and exit codes of the runners |
| `src/decks.rs`, `src/json.rs` | decks out of a JSON feed |
| `app/` | the runners themselves: arguments, files, console, threads |

Scores, weights and commitments are whole numbers of millionths.

Laws that relate several functions are public proof functions whose names begin
with `law_`.

What is believed without proof is what `src/json.rs` says of `serde_json`, and
that what `Debug` writes of a text depends on the text alone (`src/text.rs`).

`app/` is generic over a `Host`, which supplies the rules engine, the card
database and the search.
