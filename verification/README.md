# beamtalk-uat

Acceptance-test gate for the Beamtalk toolchain. It installs a released
toolchain bundle, the exact artifact a user gets, and runs Beamtalk projects
through it. Each project under `projects/<name>/` declares in its `expect.toml`
what is to be run and what is to come out.

The decisions are a verified library; `app/` performs what they ask for.

| module | what it decides |
|---|---|
| `version`, `toolchain` | which toolchain is meant, and whether it is downloaded, reused or taken as given |
| `download`, `archive` | the steps of a download, checksums, extraction |
| `staging`, `copying` | the fresh copy of a project that a scenario runs in |
| `document` | the values of a TOML document |
| `scenario::keys`, `decode`, `expect`, `validate`, `discover` | from `expect.toml` files to a sorted list of scenarios |
| `scenario::process` | the `bunit`, `run` and `cli` surfaces |
| `scenario::lsp_run`, `mcp_run` | sessions with the language server and the MCP server |
| `scenario::normalize` | what of an output is compared |
| `scenario::outcome` | dispatch by surface, and what is said of an outcome |
| `rpc`, `lsp`, `mcp` | JSON-RPC over stdio: escaping, framing, ids, replies |
| `text`, `bytes`, `output`, `paths` | the vocabulary of the contracts |

The modules whose names end in `_laws` state what holds of all inputs: that a
frame that was written reads back, that normalizing twice changes nothing, that
a scenario of one step never passes without having compared something, and so
on.

## `expect.toml`

```toml
surface = "bunit"                 # `beamtalk test` passes

surface = "run"                   # `beamtalk run <Class> <selector>`
entrypoint = "MyClass mySelector"
stdout = "expected output"        # compared after normalization
exit_code = 0                     # at least one of the two

surface = "cli"                   # `beamtalk <args>`
args = "lint --format json"
exit_code = 1                     # 0 where it is left out
stdout_contains = "summary"
stderr_contains = "redundant"

surface = "lsp"                   # one request to `beamtalk-lsp`
method = "textDocument/hover"
source = "src/LspHover.bt"
line = 4
character = 18
response_contains = "Extends:"

surface = "mcp"                   # one tool call to `beamtalk-mcp`
tool = "evaluate"
code = "1 + 1"
response_contains = "2"
```

Several scenarios share one project as `[[scenario]]` tables, and ordered steps
share one session as `[[step]]` tables on the `lsp` and `mcp` surfaces.
