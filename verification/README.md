# servo_ws_net

The WebSocket and connection layer of a browser engine, with its decisions
verified by Verus.

- `src/` is the verified library: the handshake request and its response, the
  start of a connection and its message loop, the mapping of messages between
  the page and the wire, the host table's say in name resolution, certificate
  overrides, and the navigator persona. Calls into other crates stand in
  `src/foreign/`, each with what is relied on.
- `app/` is the code around it: the `wreq` transport, channels, locks, threads.
- `tests/` runs the library on concrete values.

The public proof functions whose names begin with `law_` state what holds of the
library as a whole: that a refused response leaves no trace in the cookie jar,
that a connection is closed at most once, that what the page sends comes back
unchanged from an echo.
