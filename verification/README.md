# wwmtf_app

The rules of a private multi-player word-tile game service: accounts and sign-in through Google,
profiles and avatars, challenges, invitations and lobbies, the event journal of every game, the
projections that are rebuilt from it, and what a signed-in player is shown.

## Layout

- `src/` is the verified library.
  - `script.rs` holds the shape that every workflow has: a function of the replies received so far
    that ends in a result, an error, or the next request. Nothing in the library reads or writes
    anything itself.
  - The modules named after a subject (`accounts`, `journal`, `lobbies`, ...) hold the rules. The
    contract of each workflow says for every list of replies what it asks next or how it ends.
  - `model.rs` describes a store that answers statements. The modules named `*_laws`, and
    `exactly_once`, `transactions`, `read_back` and `totals`, state over it what holds of several
    workflows together. `steady`, `frames` and `stages` are what their proofs share.
- `app/` carries requests out: the database, HTTP, sessions, serialization and start-up.
- `tests/rules.rs` runs the rules; `tests/workflows.rs` runs the workflows over a store in memory.

## What is taken on trust

Functions marked `#[verifier::external_body]` call into another crate each, with what that call
needs to be set up, and say what is believed of it: `argon2`, `base64`, `image`, `openidconnect`,
`rand_core`, `reqwest`'s addresses, `serde_json`, `sha2`, `time` and `uuid`.
