# minigrep

A tiny grep clone (`mgrp`) whose logic is a Verus-verified library.

- `src/` — the library, with contracts proved by Verus:
  - `text` — character-level helpers (trimming, splitting on `|`, reading
    16-bit counts, decimal numbers, substring occurrence);
  - `automaton` — the `aho-corasick` multi-pattern matcher as the library
    sees it;
  - `search_mode` — prepared search terms and the "any / all / none" tests;
  - `context` — what is printed for a sequence of lines: matches with their
    before/after context and group separators, with the lemmas about it;
  - `searcher` — the line filter, the streaming context scanner and the
    output formatting;
  - `arg_parser`, `arguments`, `flag_value`, `input_source` — the command
    line and the settings it gives;
  - `file_walker` — which files a directory search reads.
- `app/` — the command itself: reading files, standard input and directory
  trees, searching files in parallel, printing.
- `tests/` — tests of the library on concrete inputs.
