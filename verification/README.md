# rchat

A simple chat client and server over gRPC.

- `src/` is the verified library: the session registry and the append-only
  message log of the server (`server.rs`), the messages and the service
  interface (`protos/`), the requests a client sends (`client.rs`), the
  trimming of chat lines (`text.rs`), and the properties that hold across
  operations (`laws.rs`).
- `app/` is the program: command-line options, the gRPC transport and the
  protocol-buffer encoding, the locking and waiting around the shared server,
  and terminal input and output.
