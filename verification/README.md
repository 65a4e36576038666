# hydrogen

A non-blocking, epoll driven socket server whose deciding logic is written in
Verus and proved against its contracts.

## Layout

- `src/` — the verified library.
  - `frame`, `decoder`, `txqueue`: the wire framing (start byte, 16-bit
    length, payload, end byte), the incremental frame decoder and the
    transmit queue with its send rounds.
  - `nbstream`, `socket`, `bstream`, `stream`: a framed stream over a socket
    descriptor, with its random identifier.
  - `connection`, `registry`, `streamlist`: the per-connection I/O state
    machine, the slab of connections and the readiness bookkeeping of the
    event loop.
  - `stats`, `procfs`: server counters and the parsers of the `/proc` text
    that the resource statistics read.
  - `workers`, `ipc`: the worker ring and the inter-process message types.
- `tests/` — tests of the library on concrete values.
- `app/` — the parts that perform I/O: sockets through libc, epoll, the
  thread pool, TLS streams through openssl, and the statistics report. It
  calls the library for every decision and hands it plain values.

Laws that span several functions (frames read in chunks cut anywhere decode
to their payloads, in order; a send writes what earlier sends left queued,
then its own frame; a partial write keeps exactly the unwritten bytes; a
receive keeps a pending write interest; a read event moves its stream to
the end of the stream list and a drop event removes it; counters of opened and closed
connections cancel out; the k-th choice of the worker ring is worker k mod
the ring's size) are public proof functions next to the functions they
speak of.
