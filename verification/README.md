# echosync

The audio-delivery core of EchoSync, verified with Verus.

- `src/` — the verified library:
  - `streaming/`: audio packets and their flags, the engine's configuration
    and errors, and the engine's decisions (lifecycle transitions, queue
    admission, worker moves, send retries).
  - `buffer/`: the sequence window (duplicate, loss and reorder tracking)
    and the jitter buffer that releases packets in sequence order after the
    target delay.
  - `scheduler/`: the earliest-deadline-first playback queue, the playback
    timeline and the scheduler that classifies, queues and releases packets.
  - `clock_sync.rs`: the checks of a clock-synchronization configuration.
  - `api/`: the room API — request framing and parsing, routing, the room
    registry, JSON escaping and reading, room ids, and response text.
  - `time_span.rs`, `text.rs`, `clock.rs`: spans of time, character-sequence
    helpers, and the one wall-clock reading.
- `app/` — the program around it: the HTTP server, the async runtimes of the
  streaming engine, buffer manager and playback scheduler, and the
  floating-point clock synchronizer.
- `tests/` — tests of the library on concrete values.
