# cmt

A Conventional Commits command-line tool — commit wizard, message linter,
git hook installer, pretty log — whose logic is a library verified with
Verus.

## Layout

- `src/` — the verified library. Every function carries a `requires` /
  `ensures` contract over `Seq<char>` views of its strings, and the
  properties that span functions are stated and proved as `law_*` proof
  functions:
  - `text` — character-level string utilities (lines, trimming, decimal
    numbers, `split_whitespace`-style words);
  - `types`, `config` — the built-in commit types, the rules, and how a
    `.cmt.json` file resolves over the defaults;
  - `lint` — the header grammar `type(scope)?!?: description`, the rules,
    and the report;
  - `commit`, `wizard` — message assembly, the pickers' labels, and the
    interactive wizard as a state machine;
  - `hooks` — installing and removing the marker-delimited hook blocks;
  - `picker`, `line_edit` — the filterable picker and the line editor,
    as state machines with what they draw;
  - `ui` — palettes, word wrapping and the commit-message box;
  - `git`, `cli`, `commands` — what is made of git's output, the command
    line, and each command's output.
- `app/` — the executable: terminal handling (crossterm), files, git
  processes and JSON decoding (serde), all driving the library.
- `tests/` — tests of the library on concrete values.
