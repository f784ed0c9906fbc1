# node_scheduler

Names, payloads and the bookkeeping of a small scheduler that passes messages
between nodes: broadcasts on topics, and asynchronous calls whose answers go to
callbacks.

- `src/` is verified with Verus. It holds the name rule (`name_rule`), the node
  and payload types (`core_node`, `node`, `payload`, `component`), the tables of
  registered nodes and topic subscribers with their laws (`registry`), the
  first-in-first-out law of queues (`queue`), and the state of each scheduler
  (`local_single_scheduler`, `simple_scheduler`, the component scheduler in
  `scheduler`, and the two MQTT schedulers, which do nothing yet). A scheduler's
  state decides what happens next; it never calls a node itself.
- `app/` holds what Verus does not take: the `Node`, `Context`, `Component` and
  `Payload` traits, the error messages, serde encoding, and the loops that call
  the nodes and callbacks that a scheduler's state names.
- `tests/` exercises the library.
