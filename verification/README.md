# Fluxa

Remote build and execution on a small cluster: a console on a terminal, and a
node that runs commands, unpacks projects and tells of itself.

- `src/` is the library, verified with Verus. `app`, `event`, `command`, `edit`
  and `text` are the console's state and its editing; `layout` and `screen` what
  it shows; `clock` and `feed` the sources of its events; `client` its requests.
  `worker` and `upload` are the node's side, `wire` the messages between the two,
  `task` and `cli` the task repository and the command line tool. `laws` holds
  what is proved of them together.
- `tests/` runs the library on concrete values.
- `app/` is the program around it: terminal, network, files and processes. It is
  the console when it is called `fluxa-console`, the node as `fluxa-node`, the
  simulated scheduler and worker as `fluxa-scheduler` and `fluxa-worker`, and the
  command line tool under any other name.

A console's cursor counts bytes, so not every key can be carried out in a line
that is not ASCII: `App::accepts` says which events can be.
