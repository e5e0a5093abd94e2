# maki_sandbox

The logic of a sandbox that runs untrusted code in a child process with its own user and
mount namespaces. The library holds no input or output: it reads and writes byte buffers,
decides what each message means, and says what is to be done. The program under `app/` opens
the sockets, starts the processes, binds the Lua runtime and draws the dialog.

## Library

- `ipc`, `wire`, `codec`: length-prefixed JSON messages between parent and child, the frames
  around them, the handshake, and the queries.
- `child`, `parent`, `sandbox`, `process`: what each side does with a message, how the child
  starts, and what the end of a process means.
- `tools`: where each tool runs, its arguments and results, and the calls that wait.
- `lua`, `lua_runtime`, `glob`: values of the Lua runtime, the functions that plugins see,
  where plugins and modules come from, and file patterns.
- `namespace`, `profiles`: mounts, search path and environment of the sandbox.
- `modal`, `info`, `browser`, `shell`, `view`, `screen`: the dialog, as states and as styled
  lines.
- `json`, `text`, `entries`, `error`, `report`: JSON values, texts, directory listings and
  errors.

A function states in its contract what it returns or changes; where an outside crate or the
system has a say, what holds whatever that gives. The proof functions whose names begin with
`law_` state what holds of several of them together, such as that a message is read back as
it was written, or that only allowed variables reach the sandbox.

`serde_json` reads and writes JSON, and `ratatui` divides the screen; each call stands behind
a wrapper whose comment says what is taken from the crate without proof.
