# presence

A client that shows Discord rich presences: named presences, each a
slideshow of time presences, edited in a window and shown one at a time on
the user's profile.

- `src/` is the verified library (Verus).
  - `model`: presences, time presences, the state and the window state.
  - `keyed`: pushing into and swapping within integer-keyed maps.
  - `decimal`: decimal notation of numbers, for default presence names.
  - `host`: the window's requests (add, delete, rename, reorder, activate,
    update presences), the table of their names and argument counts, and
    their dispatch.
  - `update`: one step of the updater, the rich presence of a slide, and the
    connection bookkeeping.
  - `window`: the main loop's decision on the window state.
  - `discord`: the rich presence record, the NUL-byte checks of C strings and
    the conversion into the fields that the Discord RPC C library takes.
- `app/` is the program around it: the window (sciter), the saved
  configuration (serde, JSON), the C calls into the Discord RPC library and
  the updater thread.
- `tests/` runs the library on concrete values.

Durations and times are whole nanoseconds in the library; the saved
configuration keeps them as floating-point seconds, read as
`FloatDuration::to_std` converts them.
