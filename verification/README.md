# renderer

The verified core of a browser renderer process, written in Verus.

`src/` holds the logic with its contracts and proofs:

- `channel`: the framed platform channel (16-byte header, control and body
  frames, size caps); a read gives back what a write wrote.
- `encoding`, `data_url`, `chardata`: byte-level decoding — encoding
  sniffing with the `<meta charset>` prescan, streamed body decoding,
  `data:` URLs, percent and base64 decoding, UTF-16 `CharacterData` edits.
- `names`, `tokens`, `exceptions`, `elements`, `forms`, `interfaces`,
  `mutation`: DOM and HTML rules — qualified names, `DOMTokenList`,
  `DOMException` codes, element interfaces, form helpers,
  `MutationObserver` options and registrations; `attributes`: setting an
  `Attr` node.
- `tree`: `isEqualNode`, descendant text, namespace lookups and the focus
  fixup over a document tree.
- `tasks`, `loads`, `frames`, `messaging`, `documents`, `stop`: a document's
  timers and event log, fetch and load-event bookkeeping, child-frame
  navigation, message routing, document storage and the stop flag.

`encoding_rs` and `url` are called from `src/` through small trusted
wrappers whose contracts name what those crates compute.

`app/` is the I/O edge: the channel over `std::io` streams with JSON control
messages (`serde_json`), and a body decoder that panics where the original
does.

`tests/` exercises the library on concrete values.
