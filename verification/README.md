# phonowire

Reception, decoding and recording of incoming AudioSocket calls. The library in
`src/` is verified with Verus: every function states what it returns or changes,
and Verus proves it, except for a few functions that call `std` or `libc`. What
those state is taken on trust. Two of them state nothing of what they return: the
reading of the clock and the text of a platform's error.

## What the library holds

* The codec: `wire_type`, `audio`, `message`, `envelope`, `decoder`, `encoder`,
  `session`. Frames are decoded from input that arrives in pieces of any size,
  into storage that the caller provides, and the session policy accepts one
  identity, then media.
* The receiver: `memory` accounts for retained bytes, `scheduler` and `fifo` give
  out turns and resource credit in order of request, `task` and `connection`
  advance one connection in turns of bounded work, `accept` classifies and paces
  accepts, `worker` puts them together, `pass` is the order in which a worker attends
  to everything, and `handoff`, `signals`, `control` and
  `retention` hold the state that threads share. `platform` is what the library
  reads of the errors of `std::io`.
* The recording: `recording` turns a connection's records into a wire file, a
  wave file and an event log, `description` and `text` are the log's wording, and
  `capture` decides what a run records.
* The program's surface: `options`, `report`, `summary`, `wording`.

`transcript` says, over plain sequences, what a connection observes of the bytes
that it reads. The contracts of `connection` and `recording` speak of it, and
`replay` relates the two.

Properties that span several functions stand as proof functions whose names begin
with `law_`.

The library makes no system calls. Where sockets, files or the channel between
threads are needed, a type of the library says what is to be done (`Action`,
`TaskStep`, `Step`) and takes back what came of it (`ReadOutcome`, `SendOutcome`,
`Outcome`).

## Around it

`app/` is the capture program: it owns the poller, the sockets, the files, the
threads and the signal handler, and asks the library what to do with them.
`tests/` runs the library on concrete values.

    phonowire-capture --output DIRECTORY [--listen ADDRESS] [limits]

`--help` lists the limits. A run writes one directory for each recorded
connection, with `wire.bin`, `audio.wav`, `events.log` and `summary.json`, and
`run-status.json` when it is over.
