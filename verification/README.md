# goose: session self-management

How a session of the goose agent looks after itself: what history is taken away
from the agent and how that is recorded, when the model may ask for a compaction
and what becomes of the request, what is done about a request that the provider
refuses for its size, and when a failed or hanging request is sent again or given
up on.

- `src/` is the library. Its functions state in `ensures` what they return, in
  terms of the views of their arguments, and Verus proves it. What holds of several
  functions together is stated as public proof functions beside them.
- `app/` runs the library: it reads the environment and the clock of the runtime,
  waits, computes in floating point where that is needed, and talks to providers,
  to the store of sessions and, through MCP, to the model.
- `tests/` runs the library on concrete values.

Two outside functions are called from `src/` and believed, not proved:
`rand::random`, for the identifiers of messages, and `chrono::Utc::now`, for the
time of a request. Nothing is claimed of what they return.
