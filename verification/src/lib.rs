//! The platform logic of a terminal multiplexer on Unix: how a command is
//! delivered into a pane, how a private socket is published, and how the names,
//! quotings and times around them are computed.
//!
//! Whatever touches the machine (files, sockets, clocks, signals) stays with the
//! caller. The library decides what is to be done next and what the answer
//! means.

pub mod clock;
pub mod command_delivery;
pub mod command_delivery_windows;
pub mod creation;
pub mod errors;
pub mod hostname;
pub mod payload_name;
pub mod plugin_env;
pub mod private_socket;
pub mod remote_paths;
pub mod shell_quote;
pub mod ssh_config_dir;
pub mod ssh_config_dir_laws;
pub mod staging;
pub mod staging_laws;
pub mod status_command;
pub mod text;
pub mod unix_path;

pub use clock::{datetime_from_tm, BrokenDownTime, LocalDateTime};
pub use command_delivery::{payload_dir, shell_command, shell_path, StageError, StagedCommand};
pub use creation::{
    create_private_file, create_remote_private_dir, create_remote_ssh_config_file, DirCreation,
    FileCreation,
};
pub use errors::{ErrorKind, Fault};
pub use hostname::{hostname, node_name};
pub use payload_name::payload_name;
pub use plugin_env::{set_default_plugin_pane_pwd, set_default_pwd};
pub use private_socket::{
    bind_private_socket_with, remove_socket_if_unchanged, socket_identity, BindAction, BindEvent,
    BindProgress, FileMetadata, PrivateBind,
};
pub use remote_paths::{
    remote_bridge_endpoint_path, remote_ssh_config_paths, RemoteSshConfigPaths,
};
pub use shell_quote::{remote_reattach_argument, remote_reattach_program, shell_quote};
pub use ssh_config_dir::{
    create_remote_ssh_config_dir, DirReply, SearchProgress, SshConfigDirSearch, SshDirError,
};
pub use staging::{
    stage, stage_in, Delivery, OverLong, StageAction, StageEvent, StageFailure, StagePhase,
    StageProgress, Staging,
};
pub use status_command::{status_commands_supported, GuardError, StatusCommandGuard};
pub use text::{chars_of, contains_text, digits_of};
pub use unix_path::{fits_unix_socket_path, UnixPath};
