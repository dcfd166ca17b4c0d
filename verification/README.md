# ubergit

A lazygit-style view of many git repositories at once: which of them are dirty, ahead, behind or in the
middle of something, with the panels of the selected one beside them, and actions that run on several.

- `src/` is the library. It decides what to run and what to show: how git's output is read, which commands an
  action runs and what their replies lead to, how a selection of lines becomes a patch, which repos a file
  event is about, and what every key does. Verus checks each function against its contract.
- `app/` is the program around it: it starts git, watches files, reads and writes the settings and the saved
  state, and draws the window.
- `tests/` runs the library.
