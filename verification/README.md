# lazymount

Lazy-loading remote file mounts through reverse tunnels: local folders appear on
remote machines, on demand and cached. chisel opens the tunnels, `rclone serve
sftp` serves the folders, and `rclone mount` mounts them.

`src/` is the library, verified with Verus. It holds the rules that the daemons and
the command line follow:

- `config`: configuration, its defaults, where it is, and the search for programs
- `paths`: the operating system's paths, their text, and what joining them does
- `process`: what is run, how a crash is answered, the search for ports
- `tunnel`, `shares`, `mounts`: the chisel and rclone processes, and the shares
  and mounts that belong to them
- `client`, `client_laws`: the client daemon, and what holds of it as a whole
- `server`: how a server follows a client's manifest and answers requests
- `rclone_rc`, `control`, `cli`: rclone's remote control, the control socket, and
  the command line
- `protocol`, `types`, `names`, `text`: messages, shared types, maps from names,
  and text

A function that needs something done outside prepares it and returns what to do;
a second function notes that it was done. `app/` does it: it runs processes,
opens sockets, reads files, and puts types into JSON and TOML. What the system
decides is left to it: whether a file exists, a port can be taken, a process
starts.
