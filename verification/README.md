# p2p_file_sync

Keeps folders in sync between peers: each peer scans its watched folders,
records the state of every file, exchanges those states with the peers the
folders are shared with, and fetches the files whose newest version lies
elsewhere. A terminal client edits the configuration through a local HTTP
service.

- `src/` is the verified library: the wire format of the frames
  (`frame`, `connection`), the configuration and its editing (`config`),
  the decisions of the exchange between peers on both the sending and the
  receiving side and the course of a connection (`sync`, `manager`),
  the rules for recording scanned and received file states (`database`,
  `sync`), hashing (`scan`), the data types (`types`), and the state of the
  terminal client with its reaction to each key (`editor`, `cli`). Each public function states its
  behaviour in its contract; laws that span several functions are public
  proof functions.
- `app/` runs the daemon and the terminal client: sockets, the database,
  the file system, the file watcher, the HTTP service and the drawing.
- `tests/` exercises the library on concrete values.
