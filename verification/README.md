# bloodthief_autosplitter

Memory walking and split decisions for an auto splitter of the game
Bloodthief (a Godot game), verified with Verus.

The library never touches the game process. Every routine that walks the
game's memory is a small machine: it names the read it needs next
(`memory::Request`), the host makes the read and hands back what it got
(`memory::Reply`), and the machine asks for another read or finishes
(`memory::Step`). Each machine's `resume` is specified step by step, and a
law proves that running it against a frozen snapshot of memory gives what is
stored there.

- `src/memory.rs`: requests, replies, steps, snapshots, address arithmetic.
- `src/bt_memory.rs`: offsets per operating system, and reading Godot string
  names, node names and script variables.
- `src/dictionary.rs`: walking a Godot `Dictionary`.
- `src/splitter.rs`: level numbers, the per-tick timer decisions, and finding
  the game's nodes after attaching.
- `app/`: the auto splitter program on the LiveSplit auto splitter runtime
  (`asr`), which makes the reads, keeps the floating-point in-game time and
  drives the timer.
