# vume

Instant microVM provisioning with Firecracker and ZFS, with its logic
verified by Verus.

- `src/` is the library. It holds the settings (`config`), the VM registry
  with its table rules (`state`), the lifecycle of a VM (`vm`), running
  commands in a VM (`ssh`), the host network (`network`), the Firecracker
  API requests (`firecracker`) and the text that the command line builds
  (`cli`). Where a job alternates outside work with decisions (starting,
  stopping or destroying a VM, setting up the bridge, stopping a process,
  running commands over SSH), the library is a state machine: each step takes
  the outcome of the last piece of work and returns the next one.
- `app/` is the `vume` program: argument parsing, the SQLite registry,
  processes, HTTP over the Firecracker socket and SSH sessions. It performs
  the work that the library's machines ask for.
- `tests/` runs the library on concrete values.
