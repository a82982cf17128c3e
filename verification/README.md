# snix

A terminal manager for code snippets kept in nested notebooks, with tags,
search, export and import, backups, and usage figures.

- `src/` is the verified library: the data model (notebooks, snippets,
  tags), the notebook tree and its moves, search, export merging, the key
  handling of each page, the chat window's state, and the figures shown on
  the analytics and notebook details pages. Each public function states
  what it returns or changes; the `*_laws` modules state properties that
  relate several operations (moving up undoes moving down, moves keep the
  notebook tree free of cycles, merging an import twice changes nothing,
  opening a search result selects its row, and others).
- `app/` is the program around it: command-line handling, files, the
  terminal loop and the drawing of each page.
- `tests/` runs the library on concrete data.
