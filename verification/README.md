# rapace (verified core)

The verified core of the rapace RPC framework, written in Verus. Every
function in `src/` carries a contract that Verus proves.

- `descriptor`, `flags`, `frame`, `limits`, `validation`: the 64-byte frame
  descriptor, frame flags, frames and their payloads, and descriptor
  validation against transport limits.
- `protocol`: wire types of the protocol, the little-endian descriptor
  encoding, and method IDs.
- `error`, `text`: error types with their messages.
- `session`: an RPC session's bookkeeping and decisions (ID allocation,
  pending calls, tunnels, frame routing, control frames, handshake checks,
  error response payloads).
- `shm`: the shared-memory segment layout, the descriptor ring, slot
  allocators, the hub allocator, and a segment pipe that carries frames in
  order with their payloads.
- `buffer_pool`, `pooled_writer`: pooled byte buffers (handed out empty)
  and a writer that falls back to the heap when a pooled buffer is full.
- `codegen`: what the service attribute decides before writing code: method
  kinds from return-type tokens, method IDs with collision detection, crate
  paths and the names of generated items.
- `cell`, `crate_name`, `http`, `explorer`, `tracing`, `control`: the cell
  runtime's decisions, crate name resolution for generated code, and the data
  types of the HTTP, explorer and tracing services.

`app/` holds what stays outside the verified library: futex syscalls, process
lifetime, reading the environment and command line, and floating-point
metrics output. `tests/` exercises the library on concrete values.
