# nvmman

A terminal tool that keeps nvm's Node.js installations and their global npm
packages in order: it installs the newest native LTS, keeps one registry of
the global packages of every installed Node.js version, restores them into
the default Node.js, and offers package updates one confirmation at a time.

`src/` is the verified library (Verus): the registry consolidation, version
ordering, the decisions taken on what nvm, npm and the system report, the
screen layout and hit testing, and the state machine of the interface.
`app/` is the program around it: command line, terminal, processes, files,
network and drawing.

Modules of the library:

- `text` — character-level text: comparison, trimming, decimal numbers.
- `version` — semantic versions (through the `semver` crate) and the order of
  package and Node.js versions.
- `machine` — architecture names, the nvm default and the native checks.
- `model` — the data read from the machine and kept in the registry.
- `registry` — consolidation of every installation's packages.
- `sorting`, `scan` — stable sorting, and the choices made while scanning.
- `manager` — paths, registry sync, restore and update decisions.
- `layout` — screen geometry (through ratatui's layout solver).
- `ui`, `tasks`, `screens` — the interface's state machine, its background
  tasks (the steps of each, run one at a time by a `TaskRun` that decides
  what comes next) and the texts it shows.
