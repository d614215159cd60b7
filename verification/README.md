# iciaws-cli

A scaffolding tool for serverless API projects, with its core logic verified
by Verus.

- `src/` — the verified library:
  - `text`: character-sequence helpers (`str::replace`, `str::trim`,
    `str::lines`, joining) with their specifications;
  - `base64`: the encoding the template is embedded in, and the round-trip law;
  - `scaffold`: placeholder substitution and pruning of unselected services;
  - `project`: project-name checks, service selection, template rendering;
  - `template_files`: the embedded template;
  - `keys`, `user`, `handlers`: helpers and model logic of the generated project.
- `tests/` — tests of the library.
- `app/` — the interactive command line: prompts, file writing, progress output.

The generated service's storage and routing code — route handlers, the
`User` store calls, route registration and the Lambda entry point — depends
on the `iciaws_*` crates, which are not published on crates.io, so it is not
part of this crate. Its decisions (the keys of a user item, the uid, the plan
of an update, the version answer) are in `user` and `handlers`.

The embedded template holds the seven Rust files available here; the
template's `Cargo.toml`, deployment files and agent-instructions file are not
among them.
