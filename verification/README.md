# lockpick

A dependency auditor for JavaScript projects: it reads the lockfile
(npm, pnpm, yarn or bun), finds declared dependencies that no source file,
script or configuration file uses, finds packages resolved at several
versions, sums their sizes, checks licenses against a policy, looks up known
vulnerabilities (OSV.dev) and newer releases (npm registry), flags likely
supply chain risks (typosquats, scope confusion, odd versions), and reports
all of it in the terminal, as JSON, as Markdown or in an interactive view.

## Layout

- `src/` is the library, written in Verus. Every function in it carries a
  contract that Verus proves: the lockfile parsers, the unused-dependency
  detection, the analyzers, the report texts, the diff of two runs, the
  threshold rules, the dependency tree, the decisions of the interactive
  view. Calls into `serde_json`, `serde_yml`, `serde_yaml` and `regex` go
  through a few small trusted wrappers whose contracts name what those
  crates compute.
- `tests/` exercises the library on concrete inputs.
- `app/` is the command-line program around the library: argument
  handling, reading the project directory, network requests, caches on
  disk, terminal drawing, and the CVSS score arithmetic (floating point).
