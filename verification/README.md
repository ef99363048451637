# canvas_graph

The verified core of a canvas of terminal, text, image, decision, group and
script nodes joined by edges, written in Verus.

- `src/` — the library, verified against its contracts (calls into std and
  outside crates go through a few small trusted wrappers):
  the node graph model (`model`, `workspace`), creating, removing, grouping,
  reordering and moving nodes (`creation`, `nodes`, `groups`, `ordering`),
  undo and redo (`history`), the inline editors (`editing`, `buttons`,
  `text_menu`),
  copy and paste (`clipboard`), route keys and message forwarding between
  nodes (`routes`, `forwarding`, `queue`), terminal shells (`terminal`,
  `shells`), saving and loading (`persistence`), workspace names (`naming`),
  the automation API (`protocol`, `automation`), the `canvas` command line
  (`cli`, `jsonpath`), menus, imports and shortcuts (`menu`, `import`,
  `shortcuts`), and the laws that span operations (`laws`, `queue_laws`).
- `tests/` — tests of the library on concrete values.
- `app/` — the `canvas` command (HTTP calls to the running canvas), the event
  server and the automation loop, the JSON forms of the protocol messages and
  of the saved workspace file with saving and loading it, and the `f32`
  geometry and colour arithmetic.
