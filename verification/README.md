# werewolf

A werewolf party game, verified with Verus.

- `src/types.rs` — messages, statuses, roles, players and the game; the
  well-formedness of a dealt game (`Game::well_formed`).
- `src/util.rs` — dealing the role cards along a shuffled seating
  (`deal_cards`, `assign_card`); the shuffle itself is `rand`'s.
- `src/actions.rs` — the night actions (wolves, witch, hunter, seer), the
  role lookups and the list of the fallen.
- `src/game.rs` — the narrator's script for the first night as a state
  machine (`Night::step`), and reading numbers out of chat lines.
- `src/chat.rs` — the chat line a user's text becomes and who receives it.
- `src/laws.rs` — properties that span several functions.
- `app/` — the websocket chat server, sound playback and the loop that
  feeds replies to `Night::step` and performs its actions.
