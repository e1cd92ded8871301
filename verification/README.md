# Vela

Vela watches services, restarts those that fail, forwards traffic to healthy
instances, sends alerts, and answers questions about all of it over a REST API
and through a command-line client.

The library under `src/` holds what the program decides and computes. It is
written in Verus, and every function in it is proved against its contract.
What it takes from outside crates (the clock, time zones, URLs, status codes,
HTTP headers, constant-time comparison, terminal colours) comes in through a
few declared items whose contracts are stated but not proved; their doc
comments say which function of which crate they stand for.

| Module | What it holds |
|---|---|
| `models` | configuration, run-time state and API types; restart backoff |
| `config` | completing and validating the configuration; registration |
| `state`, `table` | the state store |
| `health` | the course of a health check |
| `recovery` | when to restart, to wait, to give up |
| `docker_engine` | what to make of Docker's answers; recreating a container |
| `alert` | which changes are reported, to whom, and how |
| `proxy` | ports, bindings, and where a connection goes |
| `api` | who may ask, and what is answered |
| `vela_ctl` | the pages of the command-line client |
| `error`, `clock`, `text`, `unicode`, `sorting` | what the others share |

The program under `app/` is ordinary Rust around the library: sockets, files,
processes, the Docker daemon, TOML and JSON, and the terminal. Started under
the name `vela-ctl` it is the client, otherwise the server, which takes the path
of its configuration file as its argument. The page of the web dashboard is
read from `dashboard/dashboard.html` below the working directory.
