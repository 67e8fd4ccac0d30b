//! Descriptor-lifecycle commands: moving a descriptor to the lowest free
//! number at or above a floor, and reading or writing a descriptor's flags.
//! The descriptor table is an explicit value, so the commands can be run
//! against a table of one's own.

use vstd::prelude::*;
use crate::channel::{accepts, answers, exchange};
use crate::command::Command;
use crate::error::{errno_badf, errno_mfile, Error};
use crate::reply::{decode_value, value_reply};
use crate::wire::{put_word, word_bytes};

verus! {

/// The descriptor is closed when a new program image is executed.
pub const WASI_EXT_FDFLAG_CLOEXEC: wasi::Fdflags = 0x0040;

/// The bit that marks a flag word as carrying extended flags.
pub const WASI_EXT_FDFLAG_CTRL_BIT: wasi::Fdflags = 0x0020;

/// The bits of a flag word that hold extended flags.
pub const WASI_EXT_FDFLAG_MASK: wasi::Fdflags = 0xffc0;

/// A descriptor command.
#[allow(non_camel_case_types)]
#[derive(Clone, Copy, Debug, PartialEq, Eq, Structural)]
pub enum FcntlCommand {
    /// Move the descriptor to the lowest free number that is not below
    /// `min_fd_num`, and close the number it had.
    F_MVFD { min_fd_num: wasi::Fd },
    /// Read the descriptor's flags.
    F_GETFD,
    /// Write the descriptor's flags.
    F_SETFD { flags: wasi::Fdflags },
}

impl FcntlCommand {
    /// The word that names the command's kind.
    pub open spec fn opcode(self) -> u32 {
        match self {
            FcntlCommand::F_MVFD { .. } => 0,
            FcntlCommand::F_GETFD => 1,
            FcntlCommand::F_SETFD { .. } => 2,
        }
    }

    /// The command's argument as a word; zero where it has none.
    pub open spec fn argument(self) -> u32 {
        match self {
            FcntlCommand::F_MVFD { min_fd_num } => min_fd_num,
            FcntlCommand::F_GETFD => 0,
            FcntlCommand::F_SETFD { flags } => flags as u32,
        }
    }
}

/// A descriptor command on the wire: command, descriptor, kind, argument.
pub open spec fn fcntl_wire(fd: u32, cmd: FcntlCommand) -> Seq<u8> {
    word_bytes(Command::Fcntl.spec_id()) + word_bytes(fd) + word_bytes(cmd.opcode()) + word_bytes(
        cmd.argument(),
    )
}

/// Encodes a descriptor command.
pub fn fcntl_request(fd: wasi::Fd, cmd: FcntlCommand) -> (request: Vec<u8>)
    ensures
        request@ == fcntl_wire(fd, cmd),
{
    let mut out: Vec<u8> = Vec::new();
    put_word(&mut out, Command::Fcntl.id());
    put_word(&mut out, fd);
    match cmd {
        FcntlCommand::F_MVFD { min_fd_num } => {
            put_word(&mut out, 0);
            put_word(&mut out, min_fd_num);
        },
        FcntlCommand::F_GETFD => {
            put_word(&mut out, 1);
            put_word(&mut out, 0);
        },
        FcntlCommand::F_SETFD { flags } => {
            put_word(&mut out, 2);
            put_word(&mut out, flags as u32);
        },
    }
    assert(out@ =~= fcntl_wire(fd, cmd));
    out
}

/// Carries out a descriptor command through the host: the host is called
/// once with the encoded command, and the result is the number its reply
/// carries (the new descriptor of a move, the flags of a read, zero of a
/// write) or the error the reply amounts to.
pub fn fcntl<H: FnOnce(Vec<u8>) -> Vec<u8>>(host: H, fd: wasi::Fd, cmd: FcntlCommand) -> (r:
    Result<i32, Error>)
    requires
        accepts(host, fcntl_wire(fd, cmd)),
    ensures
        exists|reply: Seq<u8>|
            answers(host, fcntl_wire(fd, cmd), reply) && r == value_reply(
                Command::Fcntl.spec_id(),
                reply,
            ),
{
    let reply = exchange(host, fcntl_request(fd, cmd));
    decode_value(Command::Fcntl.id(), reply.as_slice())
}

/// What an open descriptor refers to, and its flags.
#[derive(Clone, Copy, Debug, PartialEq, Eq, Structural)]
pub struct Descriptor {
    /// The stream behind the descriptor.
    pub stream: u64,
    /// The descriptor's flags.
    pub flags: wasi::Fdflags,
}

/// The error of a command on a descriptor that is not open.
pub open spec fn bad_descriptor() -> Error {
    Error::HostError(8)
}

/// The error of a move for which no number is free.
pub open spec fn no_free_descriptor() -> Error {
    Error::HostError(33)
}

/// A descriptor table: which numbers below a limit are open, and what each
/// refers to.
#[derive(Debug)]
pub struct FdTable {
    slots: Vec<Option<Descriptor>>,
    limit: u32,
}

impl View for FdTable {
    type V = Map<u32, Descriptor>;

    /// The open descriptors and what each refers to.
    open spec fn view(&self) -> Map<u32, Descriptor> {
        Map::new(|fd: u32| self.entry(fd) is Some, |fd: u32| self.entry(fd)->0)
    }
}

impl FdTable {
    /// What the number refers to, or nothing where it is not open.
    pub closed spec fn entry(&self, fd: u32) -> Option<Descriptor> {
        if fd < self.slots@.len() {
            self.slots@[fd as int]
        } else {
            None
        }
    }

    /// The number below which every descriptor lies.
    pub closed spec fn bound(&self) -> u32 {
        self.limit
    }

    /// The invariant of the type: every open descriptor lies below the bound,
    /// and the bound fits a signed word.
    pub closed spec fn wf(&self) -> bool {
        &&& self.slots@.len() <= self.limit
        &&& self.limit <= i32::MAX
    }

    /// In a table that is well formed, open descriptors lie below the bound,
    /// and the bound fits a signed word.
    pub proof fn open_below_bound(&self, fd: u32)
        requires
            self.wf(),
            self@.dom().contains(fd),
        ensures
            fd < self.bound(),
            self.bound() <= i32::MAX,
    {
    }

    /// A table without an open descriptor. The bound is the limit given, or
    /// the largest signed word where the limit is above it.
    pub fn new(limit: u32) -> (table: FdTable)
        ensures
            table.wf(),
            table@ == Map::<u32, Descriptor>::empty(),
            table.bound() == if limit <= i32::MAX {
                limit
            } else {
                i32::MAX as u32
            },
    {
        let limit = if limit <= i32::MAX as u32 {
            limit
        } else {
            i32::MAX as u32
        };
        let table = FdTable { slots: Vec::new(), limit };
        assert(table@ =~= Map::<u32, Descriptor>::empty());
        table
    }

    /// The bound of the table.
    pub fn limit(&self) -> (limit: u32)
        ensures
            limit == self.bound(),
    {
        self.limit
    }

    /// What the number refers to, if it is open.
    pub fn get(&self, fd: wasi::Fd) -> (d: Option<Descriptor>)
        ensures
            d == self.entry(fd),
            d is Some <==> self@.dom().contains(fd),
            d is Some ==> d->0 == self@[fd],
    {
        if (fd as usize) < self.slots.len() {
            self.slots[fd as usize]
        } else {
            None
        }
    }

    /// Lengthens the table so that `fd` has a slot; nothing is opened.
    fn reserve(&mut self, fd: u32)
        requires
            old(self).wf(),
            fd < old(self).limit,
        ensures
            final(self).wf(),
            final(self).limit == old(self).limit,
            fd < final(self).slots@.len(),
            forall|other: u32| final(self).entry(other) == old(self).entry(other),
    {
        while self.slots.len() <= fd as usize
            invariant
                self.wf(),
                self.limit == old(self).limit,
                fd < self.limit,
                forall|other: u32| self.entry(other) == old(self).entry(other),
            decreases fd + 1 - self.slots@.len(),
        {
            self.slots.push(None);
        }
    }

    /// Opens the number `fd` on a descriptor. Fails where the number is
    /// already open or not below the bound; the table is then unchanged.
    pub fn open_at(&mut self, fd: wasi::Fd, descriptor: Descriptor) -> (r: Result<(), Error>)
        requires
            old(self).wf(),
        ensures
            final(self).wf(),
            final(self).bound() == old(self).bound(),
            match r {
                Ok(_) => !old(self)@.dom().contains(fd) && fd < old(self).bound() && final(self)@
                    == old(self)@.insert(fd, descriptor),
                Err(e) => final(self)@ == old(self)@ && if old(self)@.dom().contains(fd) {
                    e == bad_descriptor()
                } else {
                    fd >= old(self).bound() && e == no_free_descriptor()
                },
            },
    {
        if self.get(fd).is_some() {
            return Err(Error::HostError(errno_badf()));
        }
        if fd >= self.limit {
            return Err(Error::HostError(errno_mfile()));
        }
        self.reserve(fd);
        self.slots.set(fd as usize, Some(descriptor));
        assert(self@ =~= old(self)@.insert(fd, descriptor));
        Ok(())
    }

    /// Closes the number `fd`. Fails where it is not open.
    pub fn close(&mut self, fd: wasi::Fd) -> (r: Result<(), Error>)
        requires
            old(self).wf(),
        ensures
            final(self).wf(),
            final(self).bound() == old(self).bound(),
            final(self)@ == old(self)@.remove(fd),
            match r {
                Ok(_) => old(self)@.dom().contains(fd),
                Err(e) => !old(self)@.dom().contains(fd) && e == bad_descriptor(),
            },
    {
        if self.get(fd).is_none() {
            assert(self@ =~= old(self)@.remove(fd));
            return Err(Error::HostError(errno_badf()));
        }
        self.slots.set(fd as usize, None);
        assert(self@ =~= old(self)@.remove(fd));
        Ok(())
    }

    /// Moves `source` to the lowest number that is free and neither below
    /// `min_target` nor at or above the bound. Afterwards `source` is closed
    /// and the new number refers to what `source` referred to, flags
    /// included; no other descriptor changes. Fails, with the table
    /// unchanged, where `source` is not open or no such number is free.
    ///
    /// The search for the number and the claim of it are one call on a table
    /// that the caller holds exclusively, so a sequence of moves by one
    /// caller cannot race with itself. Several actors on one table have to
    /// take turns; nothing here arbitrates between them.
    pub fn move_fd(&mut self, source: wasi::Fd, min_target: wasi::Fd) -> (r: Result<
        wasi::Fd,
        Error,
    >)
        requires
            old(self).wf(),
        ensures
            final(self).wf(),
            final(self).bound() == old(self).bound(),
            match r {
                Ok(target) => {
                    &&& old(self)@.dom().contains(source)
                    &&& min_target <= target < old(self).bound()
                    &&& !old(self)@.dom().contains(target)
                    &&& forall|fd: u32| min_target <= fd < target ==> old(self)@.dom().contains(fd)
                    &&& final(self)@ == old(self)@.remove(source).insert(
                        target,
                        old(self)@[source],
                    )
                },
                Err(e) => {
                    &&& final(self)@ == old(self)@
                    &&& if !old(self)@.dom().contains(source) {
                        e == bad_descriptor()
                    } else {
                        &&& e == no_free_descriptor()
                        &&& forall|fd: u32|
                            min_target <= fd < old(self).bound() ==> old(self)@.dom().contains(fd)
                    }
                },
            },
    {
        let moved = match self.get(source) {
            None => {
                return Err(Error::HostError(errno_badf()));
            },
            Some(d) => d,
        };
        let mut target: u32 = min_target;
        while target < self.limit && self.get(target).is_some()
            invariant
                min_target <= target,
                *self == *old(self),
                forall|fd: u32| min_target <= fd < target ==> self@.dom().contains(fd),
            decreases self.limit - target,
        {
            target += 1;
        }
        if target >= self.limit {
            return Err(Error::HostError(errno_mfile()));
        }
        self.reserve(target);
        self.slots.set(target as usize, Some(moved));
        self.slots.set(source as usize, None);
        assert(self@ =~= old(self)@.remove(source).insert(target, old(self)@[source]));
        Ok(target)
    }

    /// The flags of an open descriptor. Fails where `fd` is not open.
    pub fn get_flags(&self, fd: wasi::Fd) -> (r: Result<wasi::Fdflags, Error>)
        ensures
            match r {
                Ok(flags) => self@.dom().contains(fd) && flags == self@[fd].flags,
                Err(e) => !self@.dom().contains(fd) && e == bad_descriptor(),
            },
    {
        match self.get(fd) {
            Some(d) => Ok(d.flags),
            None => Err(Error::HostError(errno_badf())),
        }
    }

    /// Writes the flags of an open descriptor; what it refers to, and every
    /// other descriptor, stay as they were. Fails, with the table unchanged,
    /// where `fd` is not open.
    pub fn set_flags(&mut self, fd: wasi::Fd, flags: wasi::Fdflags) -> (r: Result<(), Error>)
        requires
            old(self).wf(),
        ensures
            final(self).wf(),
            final(self).bound() == old(self).bound(),
            match r {
                Ok(_) => old(self)@.dom().contains(fd) && final(self)@ == old(self)@.insert(
                    fd,
                    (Descriptor { stream: old(self)@[fd].stream, flags }),
                ),
                Err(e) => !old(self)@.dom().contains(fd) && e == bad_descriptor() && final(self)@
                    == old(self)@,
            },
    {
        match self.get(fd) {
            None => Err(Error::HostError(errno_badf())),
            Some(d) => {
                let changed = Descriptor { stream: d.stream, flags };
                self.slots.set(fd as usize, Some(changed));
                assert(self@ =~= old(self)@.insert(fd, changed));
                Ok(())
            },
        }
    }

    /// Carries out a descriptor command on the table, as a host would: a
    /// move gives the new number, a read the flags, a write zero.
    pub fn apply(&mut self, fd: wasi::Fd, cmd: FcntlCommand) -> (r: Result<i32, Error>)
        requires
            old(self).wf(),
        ensures
            final(self).wf(),
            final(self).bound() == old(self).bound(),
            match cmd {
                FcntlCommand::F_MVFD { min_fd_num } => match r {
                    Ok(target) => {
                        &&& old(self)@.dom().contains(fd)
                        &&& min_fd_num <= target < old(self).bound()
                        &&& !old(self)@.dom().contains(target as u32)
                        &&& forall|other: u32|
                            min_fd_num <= other < target ==> old(self)@.dom().contains(other)
                        &&& final(self)@ == old(self)@.remove(fd).insert(
                            target as u32,
                            old(self)@[fd],
                        )
                    },
                    Err(e) => {
                        &&& final(self)@ == old(self)@
                        &&& if !old(self)@.dom().contains(fd) {
                            e == bad_descriptor()
                        } else {
                            &&& e == no_free_descriptor()
                            &&& forall|other: u32|
                                min_fd_num <= other < old(self).bound() ==> old(self)@.dom().contains(
                                    other,
                                )
                        }
                    },
                },
                FcntlCommand::F_GETFD => final(self)@ == old(self)@ && match r {
                    Ok(flags) => old(self)@.dom().contains(fd) && flags == old(self)@[fd].flags,
                    Err(e) => !old(self)@.dom().contains(fd) && e == bad_descriptor(),
                },
                FcntlCommand::F_SETFD { flags } => match r {
                    Ok(zero) => {
                        &&& zero == 0
                        &&& old(self)@.dom().contains(fd)
                        &&& final(self)@ == old(self)@.insert(
                            fd,
                            (Descriptor { stream: old(self)@[fd].stream, flags }),
                        )
                    },
                    Err(e) => {
                        &&& !old(self)@.dom().contains(fd)
                        &&& e == bad_descriptor()
                        &&& final(self)@ == old(self)@
                    },
                },
            },
    {
        match cmd {
            FcntlCommand::F_MVFD { min_fd_num } => match self.move_fd(fd, min_fd_num) {
                Ok(target) => Ok(target as i32),
                Err(e) => Err(e),
            },
            FcntlCommand::F_GETFD => match self.get_flags(fd) {
                Ok(flags) => Ok(flags as i32),
                Err(e) => Err(e),
            },
            FcntlCommand::F_SETFD { flags } => match self.set_flags(fd, flags) {
                Ok(_) => Ok(0),
                Err(e) => Err(e),
            },
        }
    }
}

} // verus!
