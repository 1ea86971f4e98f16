# vsock_muxer

The device-facing connection multiplexer of a virtio vsock device, verified
with Verus.

The muxer routes packets between a guest's vsock driver and the connections to
host applications, dispatches epoll events to whoever listens for them, creates
connections that either side requests, and terminates connections that take too
long to shut down.

- `src/` is the verified library. It holds the bookkeeping and makes the
  decisions; it performs no input or output. `muxer` is the place to start,
  `state` the model that its contracts speak of, and `laws` what holds across
  the operations.
- `app/` is ordinary Rust around it: it owns the streams, the connection
  objects, the backends, epoll and the clock, does what the library asks for,
  and hands the outcome back.
- `tests/` runs the library on concrete values.

## How the parts work together

An operation that needs outside work is cut in two. The first half returns a
step that says what to do; the second takes the outcome:

| operation | first | outside | then |
| --- | --- | --- | --- |
| deliver a packet | `recv_pkt` | ask the connection | `recv_pkt_fetched` |
| take a connection request | `send_pkt` | ask the backend, epoll | `peer_connected`, `peer_registered` |
| accept a host stream | `handle_event` | accept, epoll | `stream_accepted`, `add_listener` |
| read a host's request | `handle_event` | read | `local_init`, `add_connection`, `insert_connection` |
| let a connection work | `conn_ack`, `apply_conn_mutation` | epoll | `conn_mutation_done` |
| add a backend | `add_backend` | epoll | `register_backend` |

Times are numbers on one monotonic clock, and one call sees one time.

## What is taken on trust

Three calls out of the library have contracts that are believed: the bit of
`epoll::Events::EPOLLIN`, `epoll::Events::from_bits`, and
`std::str::from_utf8`. Their doc comments say what is claimed of them.
