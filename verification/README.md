# aksum

The library behind `aksum`, an opinionated Axum project scaffolder, written in
Verus.

- `src/` decides what to generate: the plan of a new project, module,
  controller or service (templates to render, files to write, lines to insert
  at marker comments), the rewriting of a file's text at a marker, template
  rendering with minijinja, and the text and path operations they rest on.
- `app/` is the command-line program: clap parsing, the embedded `templates/`
  folder, and all file-system work.
- `tests/` exercises the library on concrete inputs.
