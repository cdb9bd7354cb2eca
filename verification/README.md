# vivid

A small game-engine core whose data structures are verified with Verus.

- `src/` — the verified library:
  - `entity` — generational entity handles and their allocator (LIFO index
    reuse, generation bump at death, bit packing);
  - `pool` — sparse-set component storage with orphan eviction;
  - `component`, `event` — type interning tables, double-buffered event
    queues, the type-erased pool/queue traits, despawning across pools, and growing
    the per-type slot lists;
  - `time` — the fixed-step clock, in nanoseconds;
  - `input` — keyboard key sets and press/hold state;
  - `schedule` — ordered, named system lists;
  - `frame` — the engine loop's decisions, one frame at a time, and the
    wait for the window;
  - `surface` — what the renderer does with a surface status or a size
    request;
  - `buffer` — growth of GPU buffer capacity;
  - `position`, `mesh` — the interpolated position component and the cube's
    triangle list.
- `tests/` — the test suite.
- `app/` — the demo program: the type-erased `World`, the window and event
  pump (`winit`), the renderer (`wgpu`), the wall clock, and the engine loop.
