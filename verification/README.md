# allio

A terminal dashboard that lists project modules by category and, for the
wallwatch theming tool, lets one browse the wallpaper registry, search it
with a fuzzy finder and have wallwatch theme the desktop after a wallpaper.

The library (`src/`) holds the dashboard's state and decisions, each function
with a contract proved by Verus:

- `modules::interface`: the module list (rows by category, expansion,
  selection, hovering), key and mouse handling, and laws such as "Space then
  Backspace returns to the same row" and "Enter twice on a header restores it".
- `modules::projects::wallwatch`: the wallwatch module's state machine
  (panes, wallpaper selection, fuzzy finder, text field), its mouse handling,
  the registry's ordering and the wallwatch command line it asks to run.
- `theme`, `color`, `json`: reading a Material scheme file into colors.
- `config`, `layout`, `text`, `input`, `allio`: settings, area splitting,
  string helpers, terminal events and the main loop's decision per event.

`app/` is the program around it: terminal setup, drawing with ratatui, the
event threads, reading files and starting wallwatch.
