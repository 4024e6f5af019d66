# zellij-attention

A Zellij plugin that marks the tabs whose panes want attention. A pane speaks up through a pipe:

```bash
zellij pipe --name "zellij-attention::waiting::$ZELLIJ_PANE_ID"
zellij pipe --name "zellij-attention::completed::$ZELLIJ_PANE_ID"
```

The tab of the pane then carries an icon until the pane gets the focus.

## Layout

- `src/` decides. It is verified with Verus: every function has a contract, and `laws.rs` and
  `laws_shared.rs` state what holds of the whole.
  - `text.rs`: text over sequences of characters
  - `message.rs`: what a pipe message means
  - `state.rs`, `codec.rs`: notifications, and the bytes of the state file
  - `config.rs`, `host.rs`: the configuration, and what passes between plugin and host
  - `panes.rs`: which panes have notifications, which have the focus, which exist
  - `plugin.rs`: icons behind tab names, without a state file
  - `shared.rs`: icons before tab names, with a state file that all instances share
- `app/` talks to Zellij and to the file system.
- `tests/` runs the library.

The contracts of three calls are taken on trust: bincode's encoder and decoder (`codec.rs`), and
`str::to_lowercase` of the standard library (`message.rs`).
