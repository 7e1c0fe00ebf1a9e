# libfrizz

The verified core of frizz, a small HTTP client and port scanner.

- `src/` is the library, verified with Verus: the nmap service table
  (`services`), request and response planning (`request`), the decisions that
  keep the local service table fresh (`refresh`), scan planning and command
  line decisions (`scan`), and the text helpers they share (`text`).
- `app/` is the program around it: the command line, HTTP, sockets, files and
  the progress bar.
- `tests/` runs the library on concrete inputs.
