# herdr_platform

The platform logic of a terminal multiplexer on Unix, verified with Verus.

`src/` is the verified library. It decides and computes; it never touches the
machine.

- `command_delivery`, `staging`, `payload_name`: a command is typed into a pane, or
  staged in a file that the pane's shell sources when the line would be too long.
  `command_delivery_windows` is the same for Windows, where every line can be typed.
- `private_socket`: a socket is published for its owner alone.
- `ssh_config_dir`, `remote_paths`: where the remote side keeps its files.
- `shell_quote`: one word for a POSIX shell.
- `clock`, `hostname`, `status_command`, `plugin_env`: the local date and time, the
  machine's name, the process group of a status command, a plugin's environment.
- `creation`: directories and files to create, with their modes.
- `unix_path`, `text`, `errors`: what the others are built from.

Where work on the machine alternates with decisions, a type of the library holds the
decisions (`Staging`, `PrivateBind`, `SshConfigDirSearch`): it names the next action,
and takes what came of it. `staging_laws`, `ssh_config_dir_laws` and the end of
`private_socket` state what holds of every such course of events.

`app/` performs the actions. `tests/` runs the library on machines that are kept in
memory.
