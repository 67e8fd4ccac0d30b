//! Replies of the host: the echoed command, a signed status, and a payload
//! whose shape the call decides. Every way in which a reply can fall short is
//! a typed error.

use vstd::prelude::*;
use vstd::utf8::{decode_utf8, encode_utf8, valid_utf8};
use crate::error::{Error, ExitCode};
use crate::text::{check_bytes, nul_free, string_from_utf8, text_ok, text_wire};
use crate::wire::{
    bits_signed, copy_range, from_bits, get_word, lemma_signed_round_trip, lemma_word_round_trip,
    put_bytes, put_word, signed_bits, to_bits, word_bytes, word_of,
};

verus! {

/// The command word by which the host says that it does not know a command.
pub const UNKNOWN_COMMAND: u32 = 0;

/// The length of a reply's fixed part: command word and status word.
pub const HEADER_LEN: usize = 8;

/// The status of a reply to `command`: the non-negative status it carries,
/// or the error that the header amounts to. A negative status is a host error
/// code with its sign turned, and the code is given back positive.
pub open spec fn reply_status(command: u32, reply: Seq<u8>) -> Result<ExitCode, Error> {
    if reply.len() < 8 {
        Err(Error::TruncatedResponse)
    } else if word_of(reply) == UNKNOWN_COMMAND {
        Err(Error::UnsupportedOperation)
    } else if word_of(reply) != command {
        Err(Error::MalformedResponse)
    } else {
        let status = bits_signed(word_of(reply.skip(4)));
        if status == i32::MIN {
            Err(Error::MalformedResponse)
        } else if status < 0 {
            Err(Error::HostError((-status) as i32))
        } else {
            Ok(status)
        }
    }
}

/// What a reply without a value says: success where the status is zero and
/// nothing follows the header.
pub open spec fn unit_reply(command: u32, reply: Seq<u8>) -> Result<(), Error> {
    match reply_status(command, reply) {
        Err(e) => Err(e),
        Ok(status) => if status == 0 && reply.len() == 8 {
            Ok(())
        } else {
            Err(Error::MalformedResponse)
        },
    }
}

/// What a reply with a number says: the status, where nothing follows the
/// header.
pub open spec fn value_reply(command: u32, reply: Seq<u8>) -> Result<i32, Error> {
    match reply_status(command, reply) {
        Err(e) => Err(e),
        Ok(status) => if reply.len() == 8 {
            Ok(status)
        } else {
            Err(Error::MalformedResponse)
        },
    }
}

/// What a reply with a text says: the text that follows the header behind its
/// length, where the status is zero and the text is all of the payload.
pub open spec fn text_reply(command: u32, reply: Seq<u8>) -> Result<Seq<char>, Error> {
    match reply_status(command, reply) {
        Err(e) => Err(e),
        Ok(status) => if status != 0 {
            Err(Error::MalformedResponse)
        } else if reply.len() < 12 {
            Err(Error::TruncatedResponse)
        } else {
            let len = word_of(reply.skip(8));
            let raw = reply.skip(12);
            if raw.len() < len {
                Err(Error::TruncatedResponse)
            } else if raw.len() > len || !valid_utf8(raw) || !nul_free(raw) {
                Err(Error::MalformedResponse)
            } else {
                Ok(decode_utf8(raw))
            }
        },
    }
}

/// What a reply with two numbers says: the two words that follow the header,
/// where the status is zero.
pub open spec fn pair_reply(command: u32, reply: Seq<u8>) -> Result<(u32, u32), Error> {
    match reply_status(command, reply) {
        Err(e) => Err(e),
        Ok(status) => if status != 0 {
            Err(Error::MalformedResponse)
        } else if reply.len() < 16 {
            Err(Error::TruncatedResponse)
        } else if reply.len() > 16 {
            Err(Error::MalformedResponse)
        } else {
            Ok((word_of(reply.skip(8)), word_of(reply.skip(12))))
        },
    }
}

/// A reply as the host frames it.
pub open spec fn reply_wire(command: u32, status: ExitCode, payload: Seq<u8>) -> Seq<u8> {
    word_bytes(command) + word_bytes(signed_bits(status)) + payload
}

/// Reads the header of a reply to `command`.
pub fn decode_status(command: u32, reply: &[u8]) -> (r: Result<ExitCode, Error>)
    ensures
        r == reply_status(command, reply@),
{
    if reply.len() < HEADER_LEN {
        return Err(Error::TruncatedResponse);
    }
    assert(reply@.skip(0) =~= reply@);
    let echo = get_word(reply, 0);
    if echo == UNKNOWN_COMMAND {
        return Err(Error::UnsupportedOperation);
    }
    if echo != command {
        return Err(Error::MalformedResponse);
    }
    let status = from_bits(get_word(reply, 4));
    if status == i32::MIN {
        Err(Error::MalformedResponse)
    } else if status < 0 {
        Err(Error::HostError(-status))
    } else {
        Ok(status)
    }
}

/// Decodes a reply that carries no value.
pub fn decode_unit(command: u32, reply: &[u8]) -> (r: Result<(), Error>)
    ensures
        r == unit_reply(command, reply@),
{
    match decode_status(command, reply) {
        Err(e) => Err(e),
        Ok(status) => {
            if status == 0 && reply.len() == HEADER_LEN {
                Ok(())
            } else {
                Err(Error::MalformedResponse)
            }
        },
    }
}

/// Decodes a reply whose status is its value.
pub fn decode_value(command: u32, reply: &[u8]) -> (r: Result<i32, Error>)
    ensures
        r == value_reply(command, reply@),
{
    match decode_status(command, reply) {
        Err(e) => Err(e),
        Ok(status) => {
            if reply.len() == HEADER_LEN {
                Ok(status)
            } else {
                Err(Error::MalformedResponse)
            }
        },
    }
}

/// Decodes a reply that carries one text.
pub fn decode_text(command: u32, reply: &[u8]) -> (r: Result<String, Error>)
    ensures
        match (text_reply(command, reply@), r) {
            (Ok(expected), Ok(text)) => text@ == expected,
            (Err(expected), Err(e)) => e == expected,
            _ => false,
        },
{
    match decode_status(command, reply) {
        Err(e) => Err(e),
        Ok(status) => {
            if status != 0 {
                return Err(Error::MalformedResponse);
            }
            if reply.len() < 12 {
                return Err(Error::TruncatedResponse);
            }
            let len = get_word(reply, 8);
            let rest = reply.len() - 12;
            if rest < len as usize {
                return Err(Error::TruncatedResponse);
            }
            if rest > len as usize {
                return Err(Error::MalformedResponse);
            }
            let raw = copy_range(reply, 12, reply.len());
            assert(raw@ =~= reply@.skip(12));
            if !check_bytes(raw.as_slice()) {
                return Err(Error::MalformedResponse);
            }
            match string_from_utf8(raw) {
                Some(text) => Ok(text),
                None => Err(Error::MalformedResponse),
            }
        },
    }
}

/// Decodes a reply that carries two words.
pub fn decode_pair(command: u32, reply: &[u8]) -> (r: Result<(u32, u32), Error>)
    ensures
        r == pair_reply(command, reply@),
{
    match decode_status(command, reply) {
        Err(e) => Err(e),
        Ok(status) => {
            if status != 0 {
                Err(Error::MalformedResponse)
            } else if reply.len() < 16 {
                Err(Error::TruncatedResponse)
            } else if reply.len() > 16 {
                Err(Error::MalformedResponse)
            } else {
                Ok((get_word(reply, 8), get_word(reply, 12)))
            }
        },
    }
}

/// Frames a reply as the host does: command, status, payload.
pub fn encode_reply(command: u32, status: ExitCode, payload: &[u8]) -> (reply: Vec<u8>)
    ensures
        reply@ == reply_wire(command, status, payload@),
{
    let mut reply: Vec<u8> = Vec::new();
    put_word(&mut reply, command);
    put_word(&mut reply, to_bits(status));
    put_bytes(&mut reply, payload);
    assert(reply@ =~= reply_wire(command, status, payload@));
    reply
}

/// A framed reply to a known command is read back as its status: a
/// non-negative one as it is, a negative one as the host error whose code is
/// the status with its sign turned.
pub proof fn reply_round_trip(command: u32, status: ExitCode, payload: Seq<u8>)
    requires
        command != UNKNOWN_COMMAND,
        status != i32::MIN,
    ensures
        reply_status(command, reply_wire(command, status, payload)) == if status < 0 {
            Err::<ExitCode, Error>(Error::HostError((-status) as i32))
        } else {
            Ok::<ExitCode, Error>(status)
        },
        reply_wire(command, status, payload).skip(8) == payload,
{
    let s = reply_wire(command, status, payload);
    lemma_word_round_trip(command, word_bytes(signed_bits(status)) + payload);
    assert(s =~= word_bytes(command) + (word_bytes(signed_bits(status)) + payload));
    lemma_word_round_trip(signed_bits(status), payload);
    assert(s.skip(4) =~= word_bytes(signed_bits(status)) + payload);
    lemma_signed_round_trip(status, 0);
    assert(s.skip(8) =~= payload);
}

/// A successful reply that carries a text is read back as that text.
pub proof fn text_reply_round_trip(command: u32, text: Seq<char>)
    requires
        command != UNKNOWN_COMMAND,
        text_ok(text),
    ensures
        text_reply(command, reply_wire(command, 0, text_wire(text))) == Ok::<Seq<char>, Error>(
            text,
        ),
{
    broadcast use vstd::utf8::encode_utf8_valid_utf8, vstd::utf8::encode_utf8_decode_utf8;

    let bytes = encode_utf8(text);
    let reply = reply_wire(command, 0, text_wire(text));
    reply_round_trip(command, 0, text_wire(text));
    lemma_word_round_trip(bytes.len() as u32, bytes);
    assert(reply.skip(12) =~= reply.skip(8).skip(4));
}

} // verus!
