# dmesh

The rules of a service-mesh proxy whose connections arrive from a DMA datapath
instead of a socket, written in Verus: executable Rust with contracts that are
proved.

## Layout

- `src/` is the library. Everything in it is verified.
  - `session`, `acceptor`, `backend`, `stacks`: the identity of sessions, the
    tasks and channels that belong to them, and the stack that serves them.
  - `io`, `runtime`, `driver`: the endpoint that the proxy reads and writes, and
    the loops that drive the datapath.
  - `connect`, `policy`: how an address is reached, and who is let in.
  - `h2`: an HTTP/2 engine on top of a session library: header blocks, bodies
    with explicit flow control, streams, keepalive and the connection's loop.
  - `serve`, `memo`: how an HTTP connection is set up and a route service kept.
  - `router`: a minimal router on the same datapath.
  - `fixtures`: the policies that stand-in controllers serve.
  - `metrics`, `headers`, `workers`, `fifo`, `table`, `split`, `text`, `net`:
    what the others share.
- `app/` is ordinary Rust around it: sockets, tasks, clocks, the foreign
  interface of the session library and of the datapath, and `main`.
- `tests/` exercises the compiled library.

## How it is put together

Where the proxy waits (on a descriptor, a timer or another task), the decision
is a state machine in the library: the program performs the action that the
machine names and reports the event. Its contract is a function from state and
event to state and action, and what holds of every run is stated as a law, a
public `proof fn`.

Header maps, shared buffers, URIs, certificates and metrics come from outside
crates. Each call into one stands behind a small function whose doc comment
says what is taken on trust.
