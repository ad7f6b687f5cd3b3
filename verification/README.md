# pantau

A Mac cleaner and system monitor, written as a verified library with a thin command-line
front end.

- `src/` is the library, verified with Verus: the deletion safety rules, the cleaning
  targets and cache catalogue, the whitelist file format, the large-file heap and the
  size orderings, the uninstaller's leftover matching, the installer and project-artifact
  rules, the optimizer's reports, Touch ID decisions, the terminal screens' state
  machines, the cleaner window's scan and selection state, the menu bar's pins, titles
  and preferences, and the integer bookkeeping of the sensors (CPU ticks, memory pages,
  network counters, SMC key codes).
- `app/` is the `pnt` command: argument parsing, file-system access, deletions, running
  system tools, and drawing the terminal screens.
- `tests/` exercises the library on concrete values.
