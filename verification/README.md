# hyper

The core of an HTTP client library, written and proved in Verus.

`src/` is the verified library:

- `body`: the length of a body, and bodies that are received from a channel, an
  HTTP/2 stream or the application;
- `headers`: the rules on `connection`, `content-length` and `transfer-encoding`;
- `client`: the hand-over of requests and replies between a client and its
  connection, and the options of HTTP/1 and HTTP/2 connections;
- `error`: errors, their kinds and their causes;
- `ext`: reason phrases, protocols, and the case and order of headers;
- `ffi`: the types and rules behind the C interface;
- `common`: buffers, dates, timers, notifications and small texts;
- `outside`: what is taken from other crates, with the contracts that are
  believed of it.

`app/` is ordinary Rust round the library: futures, destructors, the traits of
other crates and the functions that a program in C calls.

`tests/` runs the library with the real crates behind it.
