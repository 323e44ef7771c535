# edge_runtime

The verified core of an edge-function runtime, written with Verus.

- `src/` is the library. Verus proves every function in it against its
  contract; the few that only read the clock promise nothing of the time
  they read. It holds the supervisor that decides when a worker is retired or stopped
  (`supervisor`), scheduler moving averages (`sched`), npm tarball integrity
  checks, entry layout and rename retries (`tarball`), `deno.json`
  dependency collection (`deno_json`), file-system routing for compiled
  bundles and S3 (`compile_fs`, `s3_fs`), and command-line, emitter and
  worker decisions (`cli`, `emitter`, `worker`). Laws about these functions
  are stated as proof functions next to them.
- `tests/` runs the library on concrete values.
- `app/` is the program around it: the supervisor's event loop on tokio,
  tarball extraction on disk, reading `deno.json` files and the command line.
