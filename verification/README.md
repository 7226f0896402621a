# jcan

CAN frames and bus bookkeeping for SocketCAN, with their behaviour stated and proved.

- `src/frame.rs`: `JFrame`, a frame of an id and at most eight data bytes, printed in the
  form that `cansend` takes.
- `src/id.rs`: standard and extended identifiers and the choice between them.
- `src/filter.rs`: receive filters and which ids they let through.
- `src/bus.rs`: which bus requests are accepted in which state, the requests that opened
  and closed the bus, and the decisions of the worker threads.
- `src/buffer.rs`: the bounded receive buffer.
- `src/callbacks.rs`: callbacks by frame id, the frames a spin hands to them, and its result.
- `src/command.rs`: the commands of the example program.
- `src/dump.rs`, `src/jorza_bus.rs`, `src/jorza_socket.rs`: other printed forms of frames.
- `src/text.rs`, `src/error.rs`: number formatting and error messages.
- `app/`: the socket I/O, the worker threads and a command-line dumper.
