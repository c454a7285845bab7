# template_renderer

A command-line generator of project files from reusable schematics: a
schematic is a directory of Handlebars templates with an optional
`schema.json` that says which values to ask for.

The library under `src/` is verified with Verus:

- `text`: the order names are kept in, string equality, ASCII case mapping.
- `name_map`: a name-ordered map (the registry and the collected answers).
- `schematic`, `commands`, `cli`: the registry of schematics, the commands
  over it and the dispatch of a parsed command line.
- `casing`: the `x-casing` conversions and their laws.
- `input`, `json`: planning one prompt per schema property, recording the
  answers, and checking them against the schema (through `jsonschema`).
- `render`: Handlebars rendering of names and contents and the decisions
  taken while walking a schematic's tree.

`app/` holds the program around it: argument parsing (clap), the
configuration file (directories, toml), prompts (dialoguer), the listing
table (cli-table), the progress bar (indicatif) and the file-system walk.
