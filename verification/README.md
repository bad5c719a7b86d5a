# tftp

A small TFTP client and server whose packet format and transfer decisions are
verified with Verus.

- `src/packet.rs` builds read and write requests, data packets and
  acknowledgements, and reads and updates the opcode and block number of a
  packet in place (`Packet`). Every function is specified over the packet's
  bytes, with lemmas on how the fields read back.
- `src/agent.rs` holds the state of one end of a transfer (`Agent`): how a
  client or a server sets it up from a request, and what it does with each
  received packet, each failed receive and each piece of the file read or
  written. Sockets and files are not part of it.
- `src/error.rs` lists the errors of a transfer.
- `app/` is the program around the library: option parsing, sockets, files,
  threads and logging. `app/main.rs server` runs the server; otherwise it runs
  the client with `-r FILE`, `-w FILE` or `-a ADDRESS`.
- `tests/` exercises the library on concrete packets.
