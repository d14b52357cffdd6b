# dvsynth

The core of DVSynth, a real-time graph-based video compositor: nodes with typed channels,
the graph that connects them, the schedule that orders their execution, and the allocator
that holds the values they pass around. The library is written in Verus; each public
function carries a contract that Verus proves.

## Layout

- `src/node/`: channels and node configurations (`mod.rs`), the node behaviours and their
  messages (`behaviour.rs`), the output window node and the decisions of its executor
  (`window.rs`), and the value types in `ty/`: the type descriptions, byte views, pointers,
  lists, options, owned values, and the swapping of values.
- `src/graph/`: channel connections (`mod.rs`), the graph store over petgraph
  (`store.rs`), graph validation (`execution.rs`), the check that a graph can be handed to
  validation and scheduling (`precheck.rs`), schedule construction (`schedule.rs`),
  where the tasks of a schedule read their inputs (`run.rs`), and the value allocator with
  its refcounts (`allocator.rs`).
- `src/widgets/`, `src/style.rs`, `src/util.rs`: the state the editor keeps for its panes
  and widgets.
- `app/`: the executable around the library: the global allocator, the run of a schedule
  with dynamically typed node behaviours (the library resolves the inputs, finds the
  pointers in values and counts the references), a console stand-in for the output
  window, and the float-valued parts.
- `tests/`: tests of the library on concrete values.

## The free list of the allocator

The allocator hands freed slots out again first-in first-out. It keeps them in a
`VecDeque`, a queue whose operations vstd specifies, rather than in a lock-free
`crossbeam::deque::Injector`: `Injector::steal` may answer `Steal::Retry` any number of
times, so a loop that retries until it gets an index has no decreasing measure, and every
loop in the library must have one. The library is used from one thread at a time (the
executable keeps the allocator behind a mutex), so the queue gives the same order.
