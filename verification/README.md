# arcadia

The logic of the Arcadia desktop shell, written in Verus with its
contracts proved:

- `commands`, `cli`: the built-in command table, alias resolution, the
  global `--net:as` / `--net:timeout` flags, and the dispatch of one command
  line (module calls `module.command`, built-in answers, help text).
- `config`, `modules`: the `commandline` and `modules` configuration
  providers and the `configuration ...` / `module ...` commands.
- `completion`: tab completion and inline hints of the command line.
- `shell`: the embedded shell's modes and prompt editor.
- `navigation`, `session`: page and group visibility from the enabled
  modules, the kept selection, and module-switch decisions.
- `lan`, `late`: LAN nodes page decisions and the chat compose box.
- `text`: character-level helpers (trimming, words, decimal numbers,
  UTF-8 byte offsets).

`app/` is the interactive command-line program around the library: it reads
lines with rustyline, performs the configuration reads and writes and the
module calls that the library plans (through arcadia-core), and prints the
answers.
