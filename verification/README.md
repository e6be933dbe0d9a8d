# rsdroid

A key/value storage service meant to sit behind a mobile front end. Requests
open the service in a mode (in memory, LMDB or sled), save strings under keys
and look them up; a failed command's reply is framed into the caller's buffer.

- `src/` is the verified library: the messages (`proto`), the in-memory engine
  (`mem`), the service's state and decisions (`backend`), what the LMDB and sled
  engines need and answer (`lmdb`, `db`), and the framing of replies
  (`response`). Every step that needs the disk is handed to the host as a
  value: a save step carries the reply to send once the write is done, and
  the outcome of an open or a read comes back through a library function.
- `app/` is the host: the JNI entry points, the process-wide service, the
  disk engines (rkv and kv), and the protobuf encoding of the messages.
- `tests/` drives the library, with a map standing in for the disk where a
  test needs one.
