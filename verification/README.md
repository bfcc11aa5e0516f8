# Patchbay

Patchbay indexes audio plugins, reads and writes the projects and chains of digital
audio workstations, and follows the projects that are open in them.

- `src/` is the library. Every function carries a contract that Verus proves. What it
  takes from other crates stands in small functions whose contracts say what is believed
  of them.
- `tests/` runs the library on concrete projects, bundles and databases.
- `app/` is the command line around it: files, processes, SQLite, the CoreAudio registry
  and the thread that watches projects.

| Module | What it does |
|---|---|
| `scanner` | VST3, VST2, CLAP and Audio Unit bundles, from snapshots of the file system |
| `indexer`, `db` | records of plugins and chains, the schema, the dossier |
| `daw_readers` | Ableton, Logic Pro, Reaper and DAWproject files |
| `daw_writers` | chains for Ableton, Reaper and DAWproject |
| `live_project` | a parsed project as the frontend shows it |
| `watcher` | which projects to watch, hash and parse, and which events to emit |
| `dossier_page` | the dossier as an HTML page |
| `probe` | what a loaded plugin says of itself |
| `text`, `number`, `bytes`, `base64`, `json`, `xml`, `markup`, `property_list`, `archive` | the formats below all of these |
