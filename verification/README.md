# mousehop

Reliable, recoverable input transport for a shared keyboard and mouse, with its
decisions verified by Verus.

- `src/` is the library. It performs no I/O and reads no clock: every function
  takes the time, the bytes or the answer of a system call as an argument.
  - `frame`, `protocol`, `motion`: wire formats, each with its round trip and
    its canonical form proved.
  - `engine`, `session`: one KCP session, from negotiation to stall deadlines.
    KCP computes with 32-bit clocks and numbers. The session starts the engine's
    clock anew when it can, leaves out datagrams whose numbers the engine cannot
    compare, as if they were lost, and numbers at most 2^31 - 129 segments.
  - `recovery`, `agreement`, `timing`, `lifecycle`: how two peers freeze input,
    agree on a baseline and resume in a new epoch, and by when.
  - `driver`, `peer`: the decisions of a connection's event loop.
  - `keyboard`, `injector`, `windows`: what an operating system is told.
  - `gate`, `token`: which local and remote input passes.
- `app/` is the asynchronous half: connections, timers, tasks and files.
- `tests/` runs the library on virtual clocks and lossy wires.

The event format belongs to the application, which hands the library a `Codec`.
Pointer coordinates are IEEE-754 doubles that the library carries as bit
patterns.
