# my_notice_app

Desktop notifications, with their logic verified by Verus.

- `src/` is the verified library:
  - `sse/` — an incremental Server-Sent Events parser (`SseParser`) and the
    decisions of the notification center's SSE client (states, labels,
    reconnect backoff, endpoints);
  - `models/notification.rs` — the notification model, the SSE event envelope
    (`SseServerEvent::parse`) over a plain JSON value, and flexible timestamps;
  - `app.rs` — the notification center's state (list, filter, read marks);
  - `notice_model.rs`, `notice_sse.rs`, `notice_app/` — the notice box: its
    message model, the line-by-line SSE reader and reconnect backoff, the store
    with its filter and counters, the toast stack and the texts it shows;
  - `model.rs`, `store.rs`, `popup.rs`, `notifier.rs`, `config.rs`,
    `backend.rs`, `feed.rs`, `win32.rs` — the pop-up notifier: messages and
    items, the notification center's store, the pop-up queue, the event step
    that ties them together, settings and backend decisions;
  - `text.rs`, `fmt.rs` — character-level specifications and the string
    routines (trimming, number reading and writing, searching, joining) that
    the parsers use.
- `app/` is ordinary Rust around the library: the network connections, the
  settings file, `serde` copies of the library types, and a terminal front end.
- `tests/` exercises the library from outside.

Verify with Verus; contracts are stated over the `View` models of the types,
and the laws of each store (deduplication, ordering, limits, idempotence,
chunking of the SSE stream) are public proof functions.
