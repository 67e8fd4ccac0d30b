//! Terminal control: whether a descriptor is a terminal, echo, and the
//! closed set of control commands with the argument each one takes.

use vstd::prelude::*;
use crate::channel::{accepts, answers, exchange};
use crate::command::Command;
use crate::error::Error;
use crate::reply::{
    decode_pair, decode_unit, decode_value, pair_reply, unit_reply, value_reply,
};
use crate::request::{encode_word_request, word_request};
use crate::wire::{put_word, signed_bits, to_bits, word_bytes};

verus! {

/// The number of the command that reads the terminal's size.
pub const TIOCGWINSZ: u32 = 2148008192;

/// The number of the command that switches raw mode.
pub const TIOCSRAW: u32 = 2147746049;

/// The number of the command that switches echo.
pub const TIOCSECHO: u32 = 2147746050;

/// A terminal control command.
#[derive(Clone, Copy, Debug, PartialEq, Eq, Structural)]
pub enum IoctlNum {
    GetScreenSize,
    SetRaw,
    SetEcho,
}

impl IoctlNum {
    /// The number by which the host knows the command.
    pub open spec fn spec_number(self) -> u32 {
        match self {
            IoctlNum::GetScreenSize => TIOCGWINSZ,
            IoctlNum::SetRaw => TIOCSRAW,
            IoctlNum::SetEcho => TIOCSECHO,
        }
    }

    /// The number by which the host knows the command.
    #[verifier::when_used_as_spec(spec_number)]
    pub fn number(self) -> (n: u32)
        ensures
            n == self.spec_number(),
    {
        match self {
            IoctlNum::GetScreenSize => TIOCGWINSZ,
            IoctlNum::SetRaw => TIOCSRAW,
            IoctlNum::SetEcho => TIOCSECHO,
        }
    }
}

/// The size of a terminal, in character cells.
#[derive(Clone, Copy, Debug, PartialEq, Eq, Structural)]
pub struct WinSize {
    pub rows: u32,
    pub cols: u32,
}

/// The argument of a control command.
#[derive(Clone, Copy, Debug, PartialEq, Eq, Structural)]
pub enum IoctlArg {
    /// No argument.
    Nothing,
    /// A switch, for the commands that set a mode.
    Flag(bool),
    /// The place the size query writes to.
    ScreenSize(WinSize),
}

/// Whether the argument has the shape the command takes: the size query
/// takes a place for the size, a mode command nothing or a switch.
pub open spec fn shape_ok(command: IoctlNum, arg: IoctlArg) -> bool {
    match command {
        IoctlNum::GetScreenSize => arg is ScreenSize,
        IoctlNum::SetRaw => arg is Nothing || arg is Flag,
        IoctlNum::SetEcho => arg is Nothing || arg is Flag,
    }
}

/// The two words an argument travels as: whether a switch is given, and the
/// switch. Both are zero where there is none.
pub open spec fn arg_words(arg: IoctlArg) -> (u32, u32) {
    match arg {
        IoctlArg::Flag(on) => (1, if on { 1 } else { 0 }),
        _ => (0, 0),
    }
}

/// A control command on the wire: command, descriptor, control number, and
/// the argument's two words.
pub open spec fn ioctl_wire(fd: i32, command: IoctlNum, arg: IoctlArg) -> Seq<u8> {
    word_bytes(Command::Ioctl.spec_id()) + word_bytes(signed_bits(fd)) + word_bytes(
        command.spec_number(),
    ) + word_bytes(arg_words(arg).0) + word_bytes(arg_words(arg).1)
}

/// What the reply to a control command says, as the argument afterwards: the
/// size query fills in the size, a mode command leaves the argument as it was.
pub open spec fn ioctl_reply(command: IoctlNum, arg: IoctlArg, reply: Seq<u8>) -> Result<
    IoctlArg,
    Error,
> {
    match command {
        IoctlNum::GetScreenSize => match pair_reply(Command::Ioctl.spec_id(), reply) {
            Ok((rows, cols)) => Ok(IoctlArg::ScreenSize(WinSize { rows, cols })),
            Err(e) => Err(e),
        },
        _ => match unit_reply(Command::Ioctl.spec_id(), reply) {
            Ok(_) => Ok(arg),
            Err(e) => Err(e),
        },
    }
}

/// Checks and encodes a control command. An argument of the wrong shape is
/// refused.
pub fn ioctl_request(fd: i32, command: IoctlNum, arg: IoctlArg) -> (r: Result<Vec<u8>, Error>)
    ensures
        match r {
            Ok(request) => shape_ok(command, arg) && request@ == ioctl_wire(fd, command, arg),
            Err(e) => !shape_ok(command, arg) && e == Error::InvalidArgument,
        },
{
    let ok = match command {
        IoctlNum::GetScreenSize => match arg {
            IoctlArg::ScreenSize(_) => true,
            _ => false,
        },
        _ => match arg {
            IoctlArg::ScreenSize(_) => false,
            _ => true,
        },
    };
    if !ok {
        return Err(Error::InvalidArgument);
    }
    let mut out: Vec<u8> = Vec::new();
    put_word(&mut out, Command::Ioctl.id());
    put_word(&mut out, to_bits(fd));
    put_word(&mut out, command.number());
    match arg {
        IoctlArg::Flag(on) => {
            put_word(&mut out, 1);
            put_word(&mut out, if on { 1 } else { 0 });
        },
        _ => {
            put_word(&mut out, 0);
            put_word(&mut out, 0);
        },
    }
    assert(out@ =~= ioctl_wire(fd, command, arg));
    Ok(out)
}

/// Decodes the reply to a control command into the argument afterwards.
pub fn decode_ioctl_reply(command: IoctlNum, arg: IoctlArg, reply: &[u8]) -> (r: Result<
    IoctlArg,
    Error,
>)
    ensures
        r == ioctl_reply(command, arg, reply@),
{
    match command {
        IoctlNum::GetScreenSize => match decode_pair(Command::Ioctl.id(), reply) {
            Ok((rows, cols)) => Ok(IoctlArg::ScreenSize(WinSize { rows, cols })),
            Err(e) => Err(e),
        },
        _ => match decode_unit(Command::Ioctl.id(), reply) {
            Ok(_) => Ok(arg),
            Err(e) => Err(e),
        },
    }
}

/// Carries out a control command. An argument of the wrong shape fails with
/// `InvalidArgument`, the host is not called and the argument is unchanged.
/// Otherwise the host is called once; on success the argument is what the
/// reply says it is afterwards, on failure it is unchanged.
pub fn ioctl<H: FnOnce(Vec<u8>) -> Vec<u8>>(
    host: H,
    fd: i32,
    command: IoctlNum,
    arg: &mut IoctlArg,
) -> (r: Result<(), Error>)
    requires
        shape_ok(command, *old(arg)) ==> accepts(host, ioctl_wire(fd, command, *old(arg))),
    ensures
        !shape_ok(command, *old(arg)) ==> r == Err::<(), Error>(Error::InvalidArgument)
            && *final(arg) == *old(arg),
        shape_ok(command, *old(arg)) ==> exists|reply: Seq<u8>|
            answers(host, ioctl_wire(fd, command, *old(arg)), reply) && match ioctl_reply(
                command,
                *old(arg),
                reply,
            ) {
                Ok(after) => r == Ok::<(), Error>(()) && *final(arg) == after,
                Err(e) => r == Err::<(), Error>(e) && *final(arg) == *old(arg),
            },
{
    match ioctl_request(fd, command, *arg) {
        Err(e) => Err(e),
        Ok(request) => {
            let reply = exchange(host, request);
            match decode_ioctl_reply(command, *arg, reply.as_slice()) {
                Ok(after) => {
                    *arg = after;
                    Ok(())
                },
                Err(e) => Err(e),
            }
        },
    }
}

/// What the reply to the terminal query says: a terminal where the status is
/// one, none where it is any other non-negative number.
pub open spec fn isatty_reply(reply: Seq<u8>) -> Result<bool, Error> {
    match value_reply(Command::Isatty.spec_id(), reply) {
        Ok(status) => Ok(status == 1),
        Err(e) => Err(e),
    }
}

/// Decodes the reply to the terminal query.
pub fn decode_isatty_reply(reply: &[u8]) -> (r: Result<bool, Error>)
    ensures
        r == isatty_reply(reply@),
{
    match decode_value(Command::Isatty.id(), reply) {
        Ok(status) => Ok(status == 1),
        Err(e) => Err(e),
    }
}

/// Asks whether a descriptor is a terminal: the host is called once and the
/// result is what its reply says.
pub fn isatty<H: FnOnce(Vec<u8>) -> Vec<u8>>(host: H, fd: i32) -> (r: Result<bool, Error>)
    requires
        accepts(host, word_request(Command::Isatty, signed_bits(fd))),
    ensures
        exists|reply: Seq<u8>|
            answers(host, word_request(Command::Isatty, signed_bits(fd)), reply) && r
                == isatty_reply(reply),
{
    let reply = exchange(host, encode_word_request(Command::Isatty, to_bits(fd)));
    decode_isatty_reply(reply.as_slice())
}

/// Switches echo on or off: the host is called once and the result is what
/// its reply says.
pub fn set_echo<H: FnOnce(Vec<u8>) -> Vec<u8>>(host: H, should_echo: bool) -> (r: Result<
    (),
    Error,
>)
    requires
        accepts(host, word_request(Command::SetEcho, if should_echo { 1u32 } else { 0u32 })),
    ensures
        exists|reply: Seq<u8>|
            answers(
                host,
                word_request(Command::SetEcho, if should_echo { 1u32 } else { 0u32 }),
                reply,
            ) && r == unit_reply(Command::SetEcho.spec_id(), reply),
{
    let reply = exchange(
        host,
        encode_word_request(Command::SetEcho, if should_echo { 1 } else { 0 }),
    );
    decode_unit(Command::SetEcho.id(), reply.as_slice())
}

} // verus!
