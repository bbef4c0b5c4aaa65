# reach

`reach` checks whether an address or a TCP port can be reached, and says what it observed.

```text
reach <address> [port]
```

With a port, the primary check is a TCP connection to that exact address and port. Without one, it
is an ICMP Echo to that exact address. Hostnames go through the operating system's resolver; direct
DNS queries only help to explain a failure and never yield a destination.

| Exit | Meaning |
|---:|---|
| 0 | Completed, and every destination passed on its first attempt |
| 1 | Completed, but failed, mixed, anomalous or indeterminate |
| 2 | Invalid input, or the request could not be carried out reliably |
| 130 | Interrupted |

## Layout

- `src/` is the library, verified with Verus. `input` and `formation` read a request, `path`
  analyzes the network snapshot, `engine` holds the state machines of a run, of a target, of a
  resolver and of a series of DNS queries, `result` draws conclusions and selects key evidence, and
  `presentation` writes the reports. `engine::target_laws` and `engine::run_laws` state what holds
  of every diagnosis and of every run; `presentation::safety` says what a report may hold.
- `app/` is the command round it: arguments, sockets, timers, cancellation and the two output
  streams.
- `tests/` runs the library on concrete values.

The contracts speak of the contents of values (`deep_view`). Each call into another crate stands
behind a small function whose doc comment says what is taken on trust.
