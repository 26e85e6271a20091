# TCP Log Lab

A desktop dashboard that starts a small TCP server, logs what it receives and
sends, and a companion device server that answers one-word commands.

- `src/` — the verified library:
  - `text.rs`: Unicode white space, trimming, splitting into words, substring
    search, decimal rendering;
  - `models.rs`: log entries and their rendered lines;
  - `dashboard.rs`: the dashboard's state (bounded log, input, navigation) and
    the decisions of its user interface;
  - `network.rs`: the dashboard server's protocol (request normalisation,
    commands, motor state, fixed replies);
  - `device.rs`: the device server's reply table.
- `app/` — the program: the egui window, the server and client threads, and
  the device server (`--device`).
- `tests/` — tests of the library.
