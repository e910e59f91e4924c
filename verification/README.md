# refresher

A verified library for REFresher, a command line updater of the REFramework
VR mod for Steam games (DMC5, MHRISE, RE2, RE3, RE7, RE8), and the program
around it.

- `src/` is the library, written in Verus: configuration records and their
  file sections, version comparison, the release report, which games need an
  update and which archives to fetch, the version records kept after
  unpacking (at most four per game), type and runtime switches, the dialog
  choices and what a choice changes, launch preparation, label texts,
  searching a binary file for a marker, and reading the release page.
  Each function carries its contract; the properties that relate several
  functions are proof functions (`lemma_*`).
- `app/` is the program: command line, `config.toml`, Steam, the GitHub
  release listing and downloads, unpacking archives, shortcuts, dialogs,
  logging, and the order of a run.
- `tests/` exercises the library on concrete values.
