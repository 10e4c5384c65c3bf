# Recorded sequencer randomness

A sequencer that accepts game actions binds each of them to an order, a context and a random root
before anyone can see the root, records the binding, executes the actions in order and later reveals
what the roots derive from. This crate holds the rules by which it does so, each stated as a contract
and proved with Verus. The program around it, which talks to a Starknet node, to PostgreSQL and to
the players, is ordinary Rust under `app/`.

## Layout

| Module | What it holds |
| --- | --- |
| `felt`, `slices`, `text`, `map`, `json` | field elements and the small data structures |
| `invoke` | the hash of an account's transaction |
| `stark` | hashes, selectors and signatures of the Starknet libraries |
| `protocol` | intents, envelopes, their canonical forms, bytes and hashes |
| `ticket` | the accepted-ticket state machine and entropy sampling |
| `journal` | rows of the replicated journal, recovery, acceptance |
| `recorded` | tickets and results as the chain records them |
| `execution` | batches, bisection, the judgement of outcomes |
| `batch` | the execution of a whole batch, and the law that settles every ticket once |
| `node` | transactions, reconnect history, submission |
| `rotation`, `key_rotation` | rotation of gameplay keys |
| `settlement` | settlement commands and the claims they carry |
| `epoch` | epoch secrets, commitments and roots |
| `admission`, `submission` | actor slots, request budgets, refusals |
| `service` | admission, assignment of orders, epoch rotation, dispatch, the service's loop |

Where the rules wait for the outside (a view of the chain, a receipt, a row of the journal), a stage
says what to read, the program reads it, and a step function takes what was read to the next stage.
Laws that span several operations are the public proof functions whose names start with `law_`.

## What is trusted

Of the Poseidon hash, of curve points, of signatures, of the SDK's transaction hashes and of JSON and
URL parsing nothing is claimed but that the result depends on the arguments alone. Of selectors it is
claimed besides that exactly the names of ASCII characters have one. Of `str::contains` of the
standard library it is claimed that it reports whether the pattern stands somewhere in the text.
Nothing at all is claimed of the bytes that the operating system samples, of how many it reports or of
how it fails. That a root is taken only where all of its bytes were reported filled is proved.
Operator honesty is trusted: the proofs establish neither honest sampling nor the durability of the
storage.
