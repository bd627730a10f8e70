# SmartHorizoker

A desktop dashboard for Docker Compose projects. The window has a file browser; in a directory
with a `docker-compose.yml` it shows a card for each container that the file names, with its
status, its log, its forwarded ports and its description, and buttons to start, stop and restart
it, to open its ports in the browser and a terminal in it.

The program is in two parts.

`src/` is the library, verified with Verus. It holds the dashboard's state and every decision
about it:

- `dashboard` – the state and what happens to it: looks for a Compose file, looks at the
  containers, logs, statistics, panels;
- `compose`, `table`, `model` – projects, the containers on display and what is kept of each;
- `logs`, `stats`, `inspect` – from what the daemon sends to what is kept;
- `screen` – what the cards and the file browser show;
- `command` – the programs that are started, and the steps towards a terminal;
- `clock`, `calendar`, `bytesize`, `text` – time stamps, dates, byte counts and text.

What holds of all inputs and of several calls together is stated in public proof functions beside
the functions that it is about. A few functions of `chrono` and of the standard library are taken
on trust; each has a contract and a comment that says what is claimed of it.

`app/` is ordinary Rust around the library: the window, files, the Docker daemon and other
programs. Percentages are reckoned there, in floating point, from the exact numbers that the
library keeps.

`tests/` runs the library.
