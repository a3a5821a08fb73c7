# super_orchestrator

A library for running commands, managing files, and orchestrating networks of docker
containers, written in Verus. What the library decides and computes is stated in
`requires` and `ensures` clauses and proved.

- `src/` is the library. Nothing in it touches the outside world: a function is handed
  what was found there and returns what is to be done next.
  - errors, texts and data: `error`, `text`, `utf8`, `json`, `parsing`, `name_map`,
    `duration`, `uuid`, `misc`
  - files: `paths`, `file_options`, `log_file`
  - commands: `command`, `command_runner`, `recorder`, `rw_stream`
  - messages between programs: `net_message`
  - containers that are run by the `docker` command: `dockerfile`, `docker_helpers`,
    `cli_docker`, `docker_network`, `build_plan`, `run_sequence`, `wait_loop`,
    `error_report`, and the simpler forms `docker` (shown by `docker_debug`) and
    `docker_container`
  - containers that are run through the docker API: `tarball`, `super_docker_file`,
    `misc_structs`, `container_runner`, `container_network`, `super_network`
- `app/` is the ordinary Rust around it: processes, files, sockets and the docker API. It
  performs what the library has decided and hands back the outcome.
- `tests/` runs the library on concrete values.

Calls into other crates and into the parts of std that have no specification stand behind
functions marked `#[verifier::external_body]` and `assume_specification` items. The doc
comment of each says what is taken on trust.
