# volo-mini-redis

A small Redis-like key-value service. The verified library (`src/`) holds the
parts that decide things:

- `words`: splitting a command line at single spaces;
- `request`: the request types and their mathematical views;
- `parse`: reading a client command line and an append-only-file line;
- `store`: the key-value map and its reconstruction from the append-only file;
- `config`: the cluster configuration and the arguments each server is started with;
- `laws`: properties that hold for all inputs (splitting undoes joining, a
  replayed `SET` is read back, a replayed `DEL` removes its keys, the server
  reads file lines as the client reads them, replay composes).

`app/` holds the programs (client, server, proxy, starter and an end-to-end
run), which do the I/O and the RPC.
