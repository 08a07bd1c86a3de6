# twitch_plays_btd

Lets a Twitch chat play a tower defence game: viewers vote in chat, and at
the end of each round the most-voted command is carried out with the
keyboard and the mouse.

- `src/` is the verified library (Verus):
  - `voting.rs` — which chat messages are votes, per game phase;
  - `location.rs` — tile names of the play grid and their screen points;
  - `actions.rs` — what a winning vote does: key press or mouse action, and
    the next phase;
  - `ballot.rs` — one vote per user, counting, and closing a round;
  - `round_timer.rs` — the round countdown;
  - `config.rs` — lines of the configuration file;
  - `text.rs` — character helpers and the standard-library text calls.
- `app/` is the program around it: reading `config.cfg`, the Twitch chat
  connection, the round timer task, and driving keyboard and mouse.
- `tests/` runs the library on concrete inputs.
