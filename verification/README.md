# rcontest

Contest problems of AtCoder: reading them, practising on them, and matches on them between two
players.

`src/` is the library. What it does is stated in contracts and proved with Verus.

- `problems`, `statement`, `markdown`, `samples`, `conversion`: the list of problems, and from the
  page of a problem to its statement and its samples.
- `submissions`, `response`: the pages of submissions and their code.
- `runner`, `output`, `cases`: running a solution on samples and showing what came of it.
- `math`: the formulas of a statement.
- `server`: pairing players, rooms, watching submissions, and the history of matches.
- `duel`: the client that plays a match.
- `practice`: practising on problems, and what is stored of them.
- `outside`: the calls into other crates, with what is taken for granted about each.

`app/` is the server program, with the requests, processes, files and drawing around the library.
It listens on `127.0.0.1:8787` unless told otherwise:

```sh
rcontest --host 127.0.0.1 --port 8787 --problem-config problems.json --session-file session
```

`tests/` runs the library on examples.
