# multiplex

Many channels over one ordered, reliable link.

`src/` is the library: the decisions of the multiplexer as state machines, written
and proved in Verus. It neither waits nor locks nor performs I/O: a caller hands in
an event and is told what to do about it. `src/lib.rs` lists the modules.

* Port numbers are random and unique while they are in use.
* A channel sends while its send lock allows it, and stops once it is closed.
* A receive buffer is bounded, hands items out in order, and pauses and resumes the
  sender at the other end.
* Two multiplexers that talk to each other never break the protocol, and data
  arrives complete and in order, whatever else is under way. `src/laws.rs` and
  `src/conversation.rs` state and prove what holds of the whole.
* `src/lower` is a simpler multiplexor whose channels have fixed identifiers.
* `src/external.rs` holds what is believed of the `futures` and `rand` crates.

`app/` puts locks, queues, tasks and a transport around the library.

`tests/` runs the library on concrete values.
