# runsc-sentry-guard

An out-of-band incident response daemon for `runsc` (gVisor) sandboxes. The library
under `src/` holds everything that the daemon decides, with contracts that Verus
proves; `app/` is the daemon around it, which reads files and sockets and runs
programs.

| Module | What it decides |
| --- | --- |
| `config`, `manifest`, `rules` | what the configuration declares, how manifests are merged, which rules compile |
| `ingestion`, `limiters`, `containers` | which rules a line sets off, for which container, at what rate |
| `dispatch`, `pipeline`, `worker`, `firewall`, `network` | who carries out an order, in which steps, and what must not be blocked |
| `http`, `exchange`, `events` | how the container engine is asked and how its answers are read |
| `framing`, `tracking`, `connections` | how telemetry is cut into lines, and from where it is read on |
| `seccomp`, `syscalls` | which system calls are allowed, and the filter that says so |
| `logger`, `lifecycle` | what the audit log says, and when |
| `text`, `encoding`, `patterns` | text primitives, and what is assumed of the standard library and of `regex` |

Laws that hold across functions are public proof functions whose names begin with
`law_`.
