# athena_welcome

The welcome application of Athena OS: a GTK4 window that lets the user pick
security roles, shows system-specific pictures and links, and moves between
its pages with clicks on the window edges.

- `src/` is the verified library (Verus): the known roles and the role file
  format (`roles`), `os-release` parsing and package managers (`os`), display
  discovery (`display`), theme settings (`theme`), page navigation
  (`navigation`), the commands it asks (`probe`) and the text operations they
  share (`text`). Contracts are stated over `Seq<char>` views; the proof
  functions state the laws (a saved role file reads back unchanged, toggling
  twice restores, navigation wraps around, ...).
- `app/` is the program: GTK widgets, files, processes and environment
  variables, calling the library for every decision.
- `tests/` runs the library on concrete values.
