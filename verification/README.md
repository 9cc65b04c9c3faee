# smb

The client side of the SMB 2/3 protocol as a library of decisions: requests and
their credits, recovery, sessions, the wire format and open resources. The
library computes and never waits. Its public functions carry contracts that
Verus proves; the few private ones that call `bytes`, `rand` and `sspi` carry
contracts that are believed, and say so. The traits for access by offset are for
users to implement, and promise nothing.

* `src/runtime` holds the state of one connection generation: the reducer of a
  single request, the generation that owns all requests, the task that runs
  them (`turn`), the objects of a connection, its recovery, and the pipeline
  between messages and frames.
* `src/session` sets sessions up, signs and encrypts their messages, and keeps
  their channels.
* `src/resource` opens files, directories and pipes, plans what is sent for
  them, and opens durable ones again.
* `src/scenario` keeps the book of a scenario: its tasks and what became of
  them.

What is true of several functions at once is stated by public proof functions
beside the types that they speak of; those on whole generations stand in
`runtime/generation_laws`, `runtime/credit_laws` and `runtime/authority_laws`.

`app` is the asynchronous side: clocks, lanes, transports and tasks. It performs
what the library decides and reports what came of it.
