//! The commands of the protocol and the word that names each on the wire.

use vstd::prelude::*;

verus! {

/// A command the host can be asked to carry out.
#[derive(Clone, Copy, Debug, PartialEq, Eq, Structural)]
pub enum Command {
    Chdir,
    Getcwd,
    Isatty,
    SetEnv,
    Getpid,
    SetEcho,
    EventSourceFd,
    AttachSigint,
    CleanInodes,
    Spawn,
    Kill,
    Ioctl,
    Fcntl,
    Mount,
}

impl Command {
    /// The word that names the command. Zero names none: the host answers
    /// with it to a command it does not know.
    pub open spec fn spec_id(self) -> u32 {
        match self {
            Command::Chdir => 1,
            Command::Getcwd => 2,
            Command::Isatty => 3,
            Command::SetEnv => 4,
            Command::Getpid => 5,
            Command::SetEcho => 6,
            Command::EventSourceFd => 7,
            Command::AttachSigint => 8,
            Command::CleanInodes => 9,
            Command::Spawn => 10,
            Command::Kill => 11,
            Command::Ioctl => 12,
            Command::Fcntl => 13,
            Command::Mount => 14,
        }
    }

    /// The word that names the command.
    #[verifier::when_used_as_spec(spec_id)]
    pub fn id(self) -> (id: u32)
        ensures
            id == self.spec_id(),
            id != 0,
    {
        match self {
            Command::Chdir => 1,
            Command::Getcwd => 2,
            Command::Isatty => 3,
            Command::SetEnv => 4,
            Command::Getpid => 5,
            Command::SetEcho => 6,
            Command::EventSourceFd => 7,
            Command::AttachSigint => 8,
            Command::CleanInodes => 9,
            Command::Spawn => 10,
            Command::Kill => 11,
            Command::Ioctl => 12,
            Command::Fcntl => 13,
            Command::Mount => 14,
        }
    }

    /// The command that a word names, if it names one.
    pub fn from_id(id: u32) -> (command: Option<Command>)
        ensures
            match command {
                Some(c) => c.spec_id() == id,
                None => forall|c: Command| c.spec_id() != id,
            },
    {
        if id == 1 {
            Some(Command::Chdir)
        } else if id == 2 {
            Some(Command::Getcwd)
        } else if id == 3 {
            Some(Command::Isatty)
        } else if id == 4 {
            Some(Command::SetEnv)
        } else if id == 5 {
            Some(Command::Getpid)
        } else if id == 6 {
            Some(Command::SetEcho)
        } else if id == 7 {
            Some(Command::EventSourceFd)
        } else if id == 8 {
            Some(Command::AttachSigint)
        } else if id == 9 {
            Some(Command::CleanInodes)
        } else if id == 10 {
            Some(Command::Spawn)
        } else if id == 11 {
            Some(Command::Kill)
        } else if id == 12 {
            Some(Command::Ioctl)
        } else if id == 13 {
            Some(Command::Fcntl)
        } else if id == 14 {
            Some(Command::Mount)
        } else {
            None
        }
    }
}

} // verus!
