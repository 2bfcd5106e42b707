# Metra

Metra moves large files over QUIC. A file is cut into lanes that are sent side by side; each lane can
be resumed where it stopped, and what arrived is moved into place only when every lane is whole.

- `src/` is the verified core: messages and their rules, payload frames and their encryption, the
  division of a file into lanes, checkpoints, the registry of transfers, the course of an upload
  stream on the server, the sending side, and the rules of benchmarks, tuning and policies. Every
  function states what it returns; the laws that relate functions are public proof functions.
- `tests/` runs the core on concrete values.
- `app/` is the program around the core: the REST and QUIC servers, files, the SQLite store, metrics,
  the command line and the terminal interface.

The core never reads a clock, draws a random number or touches a file. It takes times, identifiers
and what was read as arguments, and says what is to be done next.
