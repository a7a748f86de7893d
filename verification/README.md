# async_io

An asynchronous runtime: a pool of worker threads runs tasks, parks those that
wait on sockets until the operating system reports them ready, and offers a
task-suspending mutex, an unbounded channel and a bounded ring buffer.

- `src/` is the verified core. The decisions of the runtime stand there with
  contracts over mathematical models: the run queue (`task_queue`), the
  bookkeeping of live tasks and the spawn/join handshake (`state`, `join`),
  what a worker thread does next (`executor`), the registry of tasks parked on
  the network (`poller`), the lock (`mutex`), the channel (`mpsc`), the ring
  buffer (`ring_buffer`), the steps of socket futures (`io`), and laws over
  whole runs of queue operations (`fifo`).
- `app/` runs it: threads, futures, sockets and the poller of the operating
  system, and an HTTP server as the entry point. It hands the core plain task
  identities and socket identifiers, and acts on the answers. The waiting of
  idle threads on a condition variable, and the locks that guard each core
  value between threads, are decided there.
- `tests/` exercises the core on concrete values.
