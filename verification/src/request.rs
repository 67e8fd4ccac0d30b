//! The shapes that several requests share: the command alone, and the
//! command with one word.

use vstd::prelude::*;
use crate::command::Command;
use crate::wire::{put_word, word_bytes};

verus! {

/// A request without a payload: the command alone.
pub open spec fn bare_request(command: Command) -> Seq<u8> {
    word_bytes(command.spec_id())
}

/// A request of one word: the command and the word.
pub open spec fn word_request(command: Command, word: u32) -> Seq<u8> {
    word_bytes(command.spec_id()) + word_bytes(word)
}

/// Encodes a request without a payload.
pub fn encode_bare_request(command: Command) -> (request: Vec<u8>)
    ensures
        request@ == bare_request(command),
{
    let mut out: Vec<u8> = Vec::new();
    put_word(&mut out, command.id());
    assert(out@ =~= bare_request(command));
    out
}

/// Encodes a request of one word.
pub fn encode_word_request(command: Command, word: u32) -> (request: Vec<u8>)
    ensures
        request@ == word_request(command, word),
{
    let mut out: Vec<u8> = Vec::new();
    put_word(&mut out, command.id());
    put_word(&mut out, word);
    assert(out@ =~= word_request(command, word));
    out
}

} // verus!
