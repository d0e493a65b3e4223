# mineplace3d-launcher

The launcher of Mineplace3D: it downloads released versions of the game,
keeps track of the installed ones, and starts them.

The library (`src/`) holds the launcher's logic, verified with Verus:

- `version`: versions `major.minor.patch[-stage[.build]]`, how text is read
  as a version and how a version is written; reading back what was written
  gives the same version.
- `order`: the order of stages (`alpha < beta < release`) and of versions,
  and its laws.
- `text`: trimming, splitting, decimal numbers and substring search on
  characters, each against its specification.
- `json`: the versions file, read and written through `serde_json`.
- `launcher`: the launcher's state and how it reacts to each message, as a
  function from state and message to new state and outside work.
- `platform`: asset and executable names, release addresses, the SDL2 check.
- `download`: counting a download's bytes into progress reports.

The program (`app/`) is the window (iced), the network (reqwest, tokio),
the disk and the processes around it.
