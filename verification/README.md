# ciao_core

The deployment logic of Ciao, which ships an application from a computer to a
server over SSH: project detection, releases, blue/green service slots, routes,
rollbacks, environment files, tunnels, and the links that let a repository
deploy itself. Every function of the library states what it does, and Verus
proves that it does it.

## How the outside is modelled

A deployment is a conversation. `remote::Session` wraps whatever carries it and
keeps, for the proofs, a transcript of everything that passed: each command with
its answer, each file that was read or written, each message that was shown. The
contract of an operation is a relation between the transcript before, the
transcript after and the result, for every answer that the outside can give.
Nothing is promised on behalf of a host.

Four things a host does in its own way, and `remote::RemoteHost` has a method for
each: it tells which service runs an application (`active_service`), brings the
Funnel route in line (`sync_funnel_route`), takes away Tailscale Serve entries
(`clean_serve_ports`) and lets `current` point to what runs
(`reconcile_current`). The contracts fix when a host is asked and what is made of
each answer; how it arrives at the answer is its own affair. A host that has
nothing to add knows of no running service and leaves the rest as it is, and so
does the program in `app/`. Clearing a whole host of stale Serve entries, and
deploying several components with options of their own, are not part of the
library.

## Layout

- `src/text.rs`, `shell.rs`, `json.rs`, `manifest.rs`, `envfile.rs`: texts,
  quoting, documents and the files that Ciao writes and reads back.
- `src/project.rs`, `settings.rs`, `runtime_state.rs`: what a project is and how
  it is built and run.
- `src/remote.rs`, `steps.rs`, `transport.rs`, `workstation.rs`: sessions, plans
  of commands, SSH and the computer at hand.
- `src/candidate.rs`, `deploy.rs`, `rollback.rs`, `transaction.rs`, `removal.rs`,
  `services.rs`, `release.rs`, `ports.rs`, `domain.rs`: releases on a host.
- `src/audit.rs`, `observe.rs`, `operations.rs`, `running.rs`: looking at a host,
  and acting on what runs there.
- `src/env.rs`, `keys.rs`, `host.rs`: the environment of an application, SSH
  identities and a host that is made ready.
- `src/cloudflare.rs`, `tunnel.rs`, `funnel.rs`, `tailscale*.rs`: public and
  private networks.
- `src/github.rs`, `links.rs`, `mcp.rs`, `commands.rs`, `config.rs`: repositories,
  the tool server, the command line's decisions and the configuration.
- `src/laws.rs`, `looking.rs`, `listing.rs`: what holds of deployments, rollbacks,
  inspections and lists as a whole. Laws on a single subject stand beside it: on
  environment files in `env.rs`, on release names in `calendar.rs`, on the unit
  that an action goes to in `running.rs`.
- `app/`: the program around the library: arguments, processes, files, sockets.
- `tests/`: the library at work on concrete values.

## What is not proved

Parsing and writing JSON and TOML is done by `serde_json` and `toml`. What the
proofs take from these crates stands in `src/json.rs` and `src/manifest.rs`, above
the functions that call them.

What a script does to the files and services of a host rests on that host. The
contracts fix the text of each script, and when it is sent.
