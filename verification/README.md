# black_hole_flux

The verified core of an orchestration system for machine-learning graphs.

A *Sun* is a static, port-aware, acyclic graph. Each vertex is an animal that
runs one operation; vertices exchange artifacts through mailboxes in void
storage. The library decides everything that happens on the way and proves it
with Verus; it performs no outside work itself.

| module | what it holds |
| --- | --- |
| `ids`, `message`, `contract`, `error`, `failure`, `text` | identifiers, messages, operation contracts, and the texts of failures |
| `topology` | the graph: validation, dependency frontier, observable view |
| `compile`, `sun` | registering vertices, typed or by port alone |
| `forward` | one forward pass, and a pipeline window of several artifacts |
| `programs::two_sided_zo` | two-sided training epochs with gradient accumulation |
| `programs::pipeline_backward` | one-forward-one-backward training of a chain of stages, with one or two replicas |
| `programs::driver`, `nodes::flow` | the order of the steps of drivers and nodes |
| `nodes` | cells, fusions, melds, boundaries, atoms and twins |

Actions come in two halves. `emit`, `plan` or `begin` say what has to happen
outside; `absorb`, `received` or `advance` take what came of it. Where fresh
identifiers are needed, `absorb_with` takes them and `absorb` draws them. The
library holds losses as bits, so where a diagnostic shows one, or a message that
holds one, the caller hands the rendered text over.

The files named `laws.rs`, and the proof functions named `law_*` elsewhere,
state what holds across actions: a validated graph always has a node to run,
no node overtakes its predecessors, no mailbox is ever missing, every round
comes to an end.

`app/` holds the asynchronous plumbing: capability traits, wire formats, the
loops that perform what the library plans, and the drivers of Suns and cells.
