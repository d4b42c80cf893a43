# video_studio

The verified core of a document-style short-video studio: a bundle directory
is one work; an agent moves it through a fixed stage graph (idea, selection,
script, storyboard, visual assets, prompt pack, preview, render, post,
review) by submitting JSON outputs that are checked against per-stage
schemas, content rules and confirmation gates; workflow graphs for ComfyUI
are assembled from verified fragments.

Layout:

- `src/` — the library, written in Verus. Every public function states what
  it returns in its `ensures`; laws that span functions are public proof
  functions. Notable modules: `stage` (the graph), `state` (the per-stage
  state machine), `schema`, `cards`, `quality` (submission checks),
  `assembly`/`assemble`/`fragment` (graph assembly), `comfy` (the ComfyUI
  client's decisions), `e2e`/`exec_report`/`rollout` (session and execution
  reports), `doctor` (health check), `skills`/`bundle`/`assets` (the files a
  bundle is given: AGENTS.md, SKILL.md, model cards, configuration),
  `env_config` and `config_toml` (configuration files), `json_text` (JSON
  text read with serde_json, numbers read exactly here).
- `app/` — the command-line program around it: file and network I/O,
  argument parsing, serde conversions, and the one-decimal duration format.
- `tests/` — the test suite.
