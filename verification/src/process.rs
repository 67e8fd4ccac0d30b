//! Process identity and signals: the caller's identifier, signalling a
//! process, and the host's clean-up of its inode cache.

use vstd::prelude::*;
use crate::channel::{accepts, answers, exchange};
use crate::command::Command;
use crate::error::{Error, Pid};
use crate::reply::{decode_unit, decode_value, unit_reply, value_reply};
use crate::request::{bare_request, encode_bare_request};
use crate::wire::{put_word, signed_bits, to_bits, word_bytes};

pub use wasi::SIGNAL_KILL;

verus! {

/// `wasi::Signal`, a signal of the system interface. Nothing of what it
/// holds is seen here; its number is read with `Signal::raw`.
#[verifier::external_type_specification]
#[verifier::external_body]
pub struct ExSignal(wasi::Signal);

/// The number that a signal holds: what `wasi::Signal::raw` gives for it.
pub uninterp spec fn signal_number(signal: wasi::Signal) -> u8;

/// `wasi::Signal::raw`: the number that the signal holds. The same signal
/// always gives the same number.
#[verifier::external_body]
fn signal_raw(signal: &wasi::Signal) -> (number: u8)
    ensures
        number == signal_number(*signal),
{
    signal.raw()
}

/// A signal request on the wire: command, process, signal number.
pub open spec fn kill_wire(pid: Pid, number: u8) -> Seq<u8> {
    word_bytes(Command::Kill.spec_id()) + word_bytes(signed_bits(pid)) + word_bytes(number as u32)
}

/// Encodes a signal request from the process and the signal's number.
pub fn kill_request(pid: Pid, number: u8) -> (request: Vec<u8>)
    ensures
        request@ == kill_wire(pid, number),
{
    let mut out: Vec<u8> = Vec::new();
    put_word(&mut out, Command::Kill.id());
    put_word(&mut out, to_bits(pid));
    put_word(&mut out, number as u32);
    assert(out@ =~= kill_wire(pid, number));
    out
}

/// Asks for the caller's process identifier: the host is called once and
/// the result is the number its reply carries.
pub fn getpid<H: FnOnce(Vec<u8>) -> Vec<u8>>(host: H) -> (r: Result<Pid, Error>)
    requires
        accepts(host, bare_request(Command::Getpid)),
    ensures
        exists|reply: Seq<u8>|
            answers(host, bare_request(Command::Getpid), reply) && r == value_reply(
                Command::Getpid.spec_id(),
                reply,
            ),
{
    let reply = exchange(host, encode_bare_request(Command::Getpid));
    decode_value(Command::Getpid.id(), reply.as_slice())
}

/// Asks the host to drop the inodes it no longer needs: the host is called
/// once and the result is what its reply says.
pub fn clean_inodes<H: FnOnce(Vec<u8>) -> Vec<u8>>(host: H) -> (r: Result<(), Error>)
    requires
        accepts(host, bare_request(Command::CleanInodes)),
    ensures
        exists|reply: Seq<u8>|
            answers(host, bare_request(Command::CleanInodes), reply) && r == unit_reply(
                Command::CleanInodes.spec_id(),
                reply,
            ),
{
    let reply = exchange(host, encode_bare_request(Command::CleanInodes));
    decode_unit(Command::CleanInodes.id(), reply.as_slice())
}

/// Sends a signal to a process: the host is called once with the process
/// and the signal's number. Success says that the host took the request, not
/// that the process handled the signal.
pub fn kill<H: FnOnce(Vec<u8>) -> Vec<u8>>(host: H, pid: Pid, signal: wasi::Signal) -> (r: Result<
    (),
    Error,
>)
    requires
        accepts(host, kill_wire(pid, signal_number(signal))),
    ensures
        exists|reply: Seq<u8>|
            answers(host, kill_wire(pid, signal_number(signal)), reply) && r == unit_reply(
                Command::Kill.spec_id(),
                reply,
            ),
{
    let number = signal_raw(&signal);
    let reply = exchange(host, kill_request(pid, number));
    decode_unit(Command::Kill.id(), reply.as_slice())
}

} // verus!
