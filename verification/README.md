# hailort_networked

Distributed inference on HailoRT accelerators. A *worker* owns one Hailo device
and serves the models loaded on it over gRPC; a *master* finds workers on the
local network by multicast DNS and sends them commands.

The library holds the decisions of both and is verified with Verus. It makes no
device or network call itself. An operation that needs one hands out the call
(`call`), tests a reply (`accepts`) and takes it (`advance`) until it is finished.

- `src/hailo`: opening a device, loading and unloading models, inference, and
  the laws of what is acquired and released.
- `src/discovery`: what a worker announces, and what browsing finds.
- `src/master`: the pool of workers, which of them a command addresses, and how
  a command goes through them.
- `src/worker.rs`: what a worker answers.
- `src/messages.rs`, `src/text.rs`: the messages, and plain text.
- `app`: the program around the library: command line, HailoRT calls, gRPC and
  multicast DNS.
- `tests`: the library on concrete values.
