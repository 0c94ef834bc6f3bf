# anyhow

Errors of any type, with context, verified with Verus.

An `Error<V>` is created from an error or from a message and can be wrapped with
contexts. It keeps a backtrace, walks the chain of its causes, writes a report
of them, and hands the values it was made of back under their own types.

- `src/value.rs`: what an error asks of the values it holds. `V: Value` is a
  value whose type has been erased; `E: Member<V>` is a type it can hold.
- `src/error.rs`: the error, its creation, and its downcasts.
- `src/chain.rs`: the chain of causes.
- `src/report.rs`, `src/decimal.rs`: the report.
- `src/backtrace.rs`: backtraces.
- `src/format.rs`: sinks, and what is written where formatting can fail.
- `src/text.rs`, `src/mixed.rs`: strings, and strings and numbers, as values.
- `src/laws.rs`: what holds across operations.
- `app/`: errors over the types of the standard library.
