# vm_devices

Device logic for virtual machines, proved with Verus.

- `src/` holds the library: an emulated network adapter (registers, hardware channel, network
  commands, data path, receive hashing), a DHCP server for a user-mode network, a one-line
  description of network frames, an SR-IOV capability, and a serial port over sockets. Every
  function has a contract over mathematical models of its data; properties that span several
  functions are proved as public proof functions beside them.
- `tests/` runs the library on concrete values.
- `app/` connects the library to a host: it drives the channel and the data path tasks, performs the
  register accesses, and owns the sockets.

Only the calls into `slab`, `smoltcp` and `heapless` are taken on trust. Their contracts are in
`src/table.rs` and `src/wire.rs`.
