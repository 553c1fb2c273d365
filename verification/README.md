# PE Netplan

A networking control plane for Windows and WinPE images: one strict YAML/JSON
configuration schema, a deterministic plan of operations, a privileged daemon
reached over local size-prefixed `PNET` frames, a CLI, and a JSON-RPC 2.0 gateway.

The frames keep the envelope of a size-prefixed FlatBuffers buffer (length,
root offset, `PNET` identifier) but carry their fields in the library's own
length-prefixed encoding (see `src/protocol.rs`); they are not FlatBuffers
tables, so clients built from a FlatBuffers schema cannot read them.

## Layout

- `src/` is the library, verified with Verus. Every public function states in its
  contract what it returns; the laws of the library are public proof functions.
  - `config`, `checks`, `validate`, `config_rules`: the configuration model and
    its validation (`validate` fails exactly when `config_problem` names a problem).
  - `plan`: the operation plan of a configuration (`build_plan` computes `plan_of`).
  - `wire`, `codec`, `model`, `protocol`: the frame format; a frame too short
    for its identifier is a protocol error; decoding an encoded
    request or response gives it back (`lemma_request_round_trip`,
    `lemma_response_round_trip`).
  - `daemon`: the job store and the request routing of the daemon, with the laws
    that a recorded job can be read back and is counted.
  - `platform`, `resolve`, `ipv4`, `restore`, `netsh`, `live`, `smb`, `wifi`,
    `scan`, `inventory`, `transaction`, `rollback`, `oserror`, `scm`, `winargs`: the decisions
    of the platform backends (capabilities, selector resolution, the commands that
    change and restore adapters, the rollback actions a live apply registers and
    their reverse order, error classification).
  - `cli`, `rpc`, `render`, `output`, `client`: the decisions of the CLI and the
    JSON-RPC gateway, and the human-readable output.
- `tests/`: tests of the library, run against the compiled crate.
- `app/`: the programs around the library: argument parsing, the socket
  transport, JSON and YAML decoding, JSON output, and the daemon's event loop.
