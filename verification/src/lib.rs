//! Guest side of a host-mediated extension-syscall protocol: typed requests
//! are framed as bytes, handed to the host once, and the reply is decoded
//! into a typed result or a typed error.
//!
//! The host is a function from request bytes to reply bytes that the caller
//! hands to each call. `wire` and `text` hold the framing, `redirect` the
//! descriptor actions of a launch and their records, `reply` the shapes of
//! replies, and `channel` the one exchange every call makes. The calls
//! themselves stand in `spawn` (with `controller` for its steps), `fd`,
//! `cwd`, `env`, `terminal`, `mount`, `process` and `events`. `FdTable`,
//! `Environment` and `EventSource` are the host's side of three of them as
//! plain values, to run the calls against.

pub mod channel;
pub mod command;
pub mod controller;
pub mod cwd;
pub mod env;
pub mod error;
pub mod events;
pub mod fd;
pub mod mount;
pub mod process;
pub mod redirect;
pub mod reply;
pub mod request;
pub mod spawn;
pub mod terminal;
pub mod text;
pub mod wire;

pub use crate::cwd::{chdir, getcwd, wasi_chdir};
pub use crate::env::{set_env, Environment};
pub use crate::error::{Error, ExitCode, Pid};
pub use crate::events::{
    attach_sigint, event_source_fd, EventSource, WasiEvents, WASI_EVENTS_MASK_SIZE,
    WASI_EVENTS_NUM, WASI_EVENT_SIGINT, WASI_EVENT_WINCH,
};
pub use crate::fd::{
    fcntl, Descriptor, FcntlCommand, FdTable, WASI_EXT_FDFLAG_CLOEXEC, WASI_EXT_FDFLAG_CTRL_BIT,
    WASI_EXT_FDFLAG_MASK,
};
pub use crate::mount::mount;
pub use crate::process::{clean_inodes, getpid, kill, SIGNAL_KILL};
pub use crate::redirect::Redirect;
pub use crate::controller::SpawnController;
pub use crate::spawn::{spawn, SpawnRequest, SpawnResult};
pub use crate::terminal::{ioctl, isatty, set_echo, IoctlArg, IoctlNum, WinSize};
