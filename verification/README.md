# testctl

A test control protocol between a master (the test coordinator) and remote
devices (units under test and slaves) linked by USB gadget networking, with
power control and reservations of USB hub ports on the remote side.

The library under `src/` is written in Verus; every function in it is verified
against its `requires`/`ensures` contract.

- `protocol/` — the messages, their length-prefixed framing (with the laws that
  a frame decodes back to its payload), and the network setup commands of the
  gadget link.
- `usb_hub/` — hubs, ports and reservations; building `uhubctl` invocations and
  reading their output; the hub manager, whose operations are specified over a
  map from hub IDs to hubs; `laws.rs` proves what reserving, releasing, powering,
  expiring and refreshing promise together, and `listing_laws.rs` what reading
  a hub report yields (its hubs follow the well-formed header lines, every port
  comes from a port line and belongs to the hub whose header precedes it, joined reports list their hubs one after the other).
- `remote.rs` — the state of a remote device and how it answers each request.
- `master.rs` — which request each command line or interactive line sends, and
  how the answer to a request is recognised.
- `text.rs`, `store.rs`, `command.rs` — text helpers with their specifications,
  a keyed store, and the shape of a program invocation and its output.

`app/` holds the two programs (`master_cli`, `remote_cli`) and everything the
library leaves to its caller: JSON encoding, sockets, running programs, the
file system and the terminal.
