# rusty_p4

A library for writing P4Runtime controllers, verified with Verus.

`src/` holds the verified library:

- `value`, `buffer`: match values, MAC and IP addresses, and their byte
  encodings, held in `bytes::Bytes`.
- `packet`, `ethernet`, `arp`: packet layers read from and written to bytes,
  with the laws that reading what was written gives it back.
- `p4info`, `pure`, `runtime`, `flow`: the P4Info lookups that turn flows into
  table entries, and the P4Runtime messages the controller sends.
- `representation`, `event`, `common`: devices, hosts and links, and how each
  event changes the network state that applications share.
- `proxyarp`, `extended`, `handle`: proxy ARP decisions, the hooks of the
  extended application core, and the writes of flows and entities that
  applications ask for.
- `pipeconf`, `entity`, `core_state`, `statistic`, `restore`, `sync_app`,
  `async_app`, `bmv2`, `context`, `error`, `util`: pipeconfs, entities, the
  core's connection decisions, interface loads, saved devices and the
  ordering of applications.

`app/` holds what runs around the library: conversions to `std::net`, the
file of saved devices, and the extended core that runs hooks.

`tests/` holds the tests.
