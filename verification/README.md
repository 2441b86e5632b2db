# nsetup

`nsetup` manages the Docker Compose projects of a Nihility machine: it generates
applications, static sites and the Traefik infrastructure, edits existing Compose
files by parameters, and deploys, lists and controls the projects.

The library under `src/` holds the project's rules and is verified with Verus: every
public function states in `ensures` what it returns, and the laws that tie the
functions together are public proof functions.

| Module      | What it holds                                                           |
|-------------|-------------------------------------------------------------------------|
| `value`     | the document tree of a YAML/JSON file and its mathematical model        |
| `tree`      | reads and in-place writes of document trees, through tags               |
| `compose`   | the typed Compose document that generation builds                      |
| `gen`       | application and static-site generation, labels, ports, volumes          |
| `infra`     | the Traefik project                                                     |
| `labels`    | reading and rewriting generated Traefik labels                          |
| `readback`  | generated route labels read back as the routes they came from           |
| `edit`      | parameterised edits of a Compose document, adding services             |
| `requests`  | requests and their checked conversion into generation parameters        |
| `cli`       | command-line arguments and the requests built from them                 |
| `stacks`    | project names, directories, container status, deployment checks         |
| `docker`    | Docker Compose invocations, pull progress, streamed runs, failures      |
| `progress`  | the pull progress display state                                         |
| `config`, `token`, `transport`, `installer`, `system` | configuration, tokens, listening, installation, systemd |
| `text`, `kv`, `names`, `types`, `error` | strings, sorted maps, name rules, shared types, errors |

`app/` is the command-line program around the library: argument parsing, files,
`docker` and `systemctl` processes, YAML/JSON/TOML text, and terminal output.
`tests/` runs the library on concrete inputs.

The program runs every operation on the local machine. The `daemon` command and
`rpc` with a remote endpoint stop with an error: this build has no RPC transport,
so `rpc` without an endpoint runs the same operations locally.
