# mip_solver_node

A node of a cluster that solves mixed-integer linear programs. A master parts a
model into jobs by branching on fractional variables, hands the jobs to workers
over a message bus, and puts the results together; workers solve a job, split it
further, or find that it has no solution. Models can be edited live by streamed
commands, solves can be cancelled, and what was solved is stored.

- `src/` is the verified library: models and their validation, live editing,
  branching and the frontier, the jobs of a solve and their retries, splits and
  requeues, aggregation of results, the registry of solves and tasks,
  cancellation, wire documents, HTTP framing, and the replies and pages of the
  service. Numbers are held as their IEEE bits; arithmetic on them is left to the
  program.
- `app/` is the program around it: HTTP, the bus, the database, the cache, the
  solver engines and the GPU.
- `tests/` runs the library on concrete values.
