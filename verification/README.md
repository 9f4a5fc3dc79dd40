# tracedecay

Session bookkeeping for TraceDecay as a verified library.

- `src/tool_command`: the command `tracedecay tool`, from words to a checked
  call and from a tool's answer to text.
- `src/sessions`: unfinished work in raw messages, and the sweep over workflow
  runs.
- `src/migrate/hermes`: the migration of session stores out of Hermes profiles,
  as steps that a driver carries out.
- `src/daemon`: what a watcher of git repositories marks for work.
- `src/json`, `src/json_io`, `src/text`, `src/decimal`, `src/order`,
  `src/table`: JSON values, texts, numbers, sorting and small tables.

`app` holds the input and output around the library: the terminal, files and
databases. Each public function of the library states what it returns; the
properties that span several functions are public proof functions next to them.
