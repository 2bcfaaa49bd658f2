# tauri_ohos

OpenHarmony support for Tauri applications as a verified library: every
function under `src/` carries a Verus contract over a mathematical model of
its inputs and results, and the properties that span several calls are
proved as lemmas beside them.

- `src/plugins.rs`, `src/har.rs`, `src/project_files.rs`: finding the
  plugins a project depends on, validating their names and metadata,
  deciding how their HARs are copied, and the edits to `build-profile.json5`
  and the entry module's `oh-package.json5`.
- `src/json.rs`: JSON values as the project's `.json5` files hold them, the
  JSON5 parser and pretty printer they go through, and the member edits
  that `src/project_files.rs` and `src/plugin_build.rs` make to whole
  documents (`build-profile.json5`, `oh-package.json5`, `module.json5`).
- `src/signing.rs`: the signing configuration from the environment and the
  `hap-sign-tool.jar` invocation.
- `src/cli.rs`, `src/run.rs`, `src/project.rs`: the `ohos` commands: options,
  arguments passed to cargo, device choice, icon injection, project
  generation, and the `hdc` install-and-launch steps.
- `src/plugin_build.rs`: what a plugin's build script decides on mobile
  targets, including the deep-link skills of `module.json5`.
- `src/ohos.rs`: the runtime state shared with ArkTS (set-once values, the
  plugins to register, the FIFO run-command queue).
- `src/menu.rs`, `src/tray.rs`, `src/vibrancy.rs`: the submenu, tray and
  window-effect models.
- `src/text.rs`, `src/path.rs`, `src/jsonfmt.rs`: string, path and JSON5
  layout helpers with their specifications.

`app/` holds the unverified input and output around the library: file
system, environment, processes, command-line parsing, and the JSON
handed to and from ArkTS.
`tests/` exercises the library on concrete values.
