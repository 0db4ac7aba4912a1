# swarmonomicon

A multi-agent assistant toolkit whose decision logic is verified with Verus.

- `src/` is the verified library: agent registry and state machines, the
  greeter, haiku, version-control, fleet and project agents' replies, the
  task-intelligence pipeline (features, priorities, decomposition, learned
  dependency rules, dependency graphs and their topological order), swarm
  consensus, delegation, emergence detection and contribution metrics, and
  the checkpoint bookkeeping of the reinforcement-learning models.
- `app/` holds what stays outside verification: running `git` and `balena`,
  file handling of checkpoints, JSON on the wire, and the scores that are
  computed in floating point.
- `tests/` exercises the library on concrete values.
