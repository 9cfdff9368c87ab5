# async_io_converse

Send serde-compatible values over any duplex connection (anything with an `AsyncRead`
half and an `AsyncWrite` half), and receive replies to them from the peer.

- `src/` is the verified core (Verus): the envelope of a message, the numbering of
  questions, the book of questions awaiting an answer and the routing of every incoming
  message, the settling of what an asker receives, and the error type.
- `app/` is the asynchronous plumbing around it: the typed transport (`async-io-typed`),
  the shared write half, tokio tasks and timeouts, and the serde forms of the types.
- `tests/` exercises the core.
