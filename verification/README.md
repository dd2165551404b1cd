# wfgen

Scenario tooling for WarpFusion rule projects, verified with Verus.

- `src/` — the library, every function with a contract proved by Verus:
  - `wfg_lexer`, `wfg_grammar`, `wfg_parser`, `wfg_file`, `wfg_parse_error`,
    `wfg_ast`, `wfg_model`: the `.wfg` scenario language (parser on characters,
    its grammar as spec functions, the AST and its model);
  - `validate`: the static checks `VN1`–`VN25` of a scenario against window
    schemas and rule shapes;
  - `loader`, `replay_plan`, `inject_plan`, `datagen_plan`, `injection_targets`:
    value files, replay time axes, injection plans and the integer parts of
    event generation;
  - `inject_assert`, `verify`: the injection-mode assertion and the comparison
    of expected and actual alerts (with its Markdown report);
  - `wfadm`: the decisions of the admin CLI (project check, config output,
    engine admin API, init, self-update);
  - `json_text`, `text`, `error`, `scope`, `source_api`, `lint`: shared pieces.
- `tests/` — tests run against the compiled library.
- `app/` — the `wfadm` command line: files, HTTP and the process.

Calls into `serde_json`, `toml` and `chrono` go through a few trusted wrappers
(`json_layout`, `toml_is_valid`, `admin_api_section`, `parse_utc_millis`), each
documented where it is declared.
