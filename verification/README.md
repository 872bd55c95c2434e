# tokio-ws

A WebSocket server protocol, verified with Verus.

- `src/` is the library. `wsframe` lays frames out on the wire and reads them, `http` holds the
  messages of the opening handshake, `codec` turns bytes into messages and back, `proto` answers
  the handshake, and `transport` stands between frames and the payloads that a user sees: it
  answers pings on its own. `outside` holds the contracts of the calls into other crates, which
  are taken on trust.
- `app/` puts the library behind the traits of futures, tokio-core and tokio-proto, and has an
  echo server on top.
- `tests/` runs the library from outside.

The transport does no I/O. A call of it is a run of steps: each step takes what has just happened
and says what is to be done next, and whoever owns the connection does it.

A pong that the connection does not take at once waits, and is offered again when the connection
is flushed; until it is out no payload is taken. Whatever follows the first frame in a buffer is
dropped with it, and so is a frame that has come only in part.
