# vulkano_device

Devices and queues of the Vulkan API, with proofs.

The library decides what a driver is asked for when a device is created, what becomes of its
replies, which pools a device hands out, and how it is taken down again. It is written in Verus:
each function states in its contract what it does, and the contracts are proved. The library never
calls the driver itself. A function that needs the driver takes the call as an argument.

- `src/create.rs` works out, from what is asked of a physical device, how the device is to be
  created, or why it cannot be.
- `src/device.rs` and `src/queue.rs` hold the device and its queues.
- `src/pools.rs` holds the pools that a device remembers, and the calls that take it down.
- `src/object.rs` holds the traits of objects that have a handle and of objects that belong to a
  device.
- `src/physical.rs`, `src/extensions.rs`, `src/features.rs`, `src/version.rs`, `src/priority.rs`,
  `src/names.rs` and `src/error.rs` hold what those are about.
- `src/hashing.rs` says what hashers are fed.
- `src/lists.rs` holds the short lists, which live in the `smallvec` crate.
- `src/laws.rs` states and proves what holds of the library as a whole.

`app/` is ordinary Rust around the library: it calls the driver through the `ash` crate and keeps
what threads share behind locks.

What is not proved stands in a few items marked `external_body`: in `src/lists.rs` for `smallvec`, in
`src/error.rs` and `src/object.rs` for `ash`, and in `src/hashing.rs` for the hashing of numbers. The
comment above each says what is claimed.
