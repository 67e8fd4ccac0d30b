//! The working directory: changing it, and asking for it with a buffer that
//! starts small and doubles up to a ceiling.

use vstd::prelude::*;
use vstd::utf8::{decode_utf8, encode_utf8, valid_utf8};
use crate::channel::{accepts, answers, exchange};
use crate::command::Command;
use crate::error::{buffer_too_small, no_buffer_space, Error};
use crate::reply::{
    decode_text, decode_unit, reply_round_trip, reply_wire, text_reply, text_reply_round_trip,
    unit_reply,
};
use crate::text::{check_text, put_text, string_from_utf8, text_ok, text_wire};
use crate::wire::{copy_range, put_word, word_bytes};

verus! {

/// The first buffer size tried.
pub const FIRST_CAPACITY: u32 = 256;

/// The largest buffer size tried.
pub const MAX_CAPACITY: u32 = 65536;

/// How many sizes are tried: the first, then each double up to the largest.
pub const TRIES: usize = 9;

/// The buffer size of the try with this index: the first size, doubled once
/// for each earlier try, and the largest size from the last try on.
pub open spec fn capacity_at(i: nat) -> u32 {
    if i == 0 {
        256
    } else if i == 1 {
        512
    } else if i == 2 {
        1024
    } else if i == 3 {
        2048
    } else if i == 4 {
        4096
    } else if i == 5 {
        8192
    } else if i == 6 {
        16384
    } else if i == 7 {
        32768
    } else {
        65536
    }
}

/// The sizes start at the first size and double from try to try until the
/// largest is reached with the last try.
pub proof fn capacities_double(i: nat)
    requires
        i + 1 < TRIES,
    ensures
        capacity_at(0) == FIRST_CAPACITY,
        capacity_at(i + 1) == 2 * capacity_at(i),
        capacity_at((TRIES - 1) as nat) == MAX_CAPACITY,
{
}

/// A change of directory on the wire: the command and the path.
pub open spec fn chdir_wire(path: Seq<char>) -> Seq<u8> {
    word_bytes(Command::Chdir.spec_id()) + text_wire(path)
}

/// A query for the working directory on the wire: the command and the size
/// of the buffer the answer has to fit.
pub open spec fn getcwd_wire(capacity: u32) -> Seq<u8> {
    word_bytes(Command::Getcwd.spec_id()) + word_bytes(capacity)
}

/// Checks and encodes a change of directory.
pub fn chdir_request(path: &str) -> (r: Result<Vec<u8>, Error>)
    ensures
        match r {
            Ok(request) => text_ok(path@) && request@ == chdir_wire(path@),
            Err(e) => !text_ok(path@) && e == Error::InvalidArgument,
        },
{
    if !check_text(path) {
        return Err(Error::InvalidArgument);
    }
    let mut out: Vec<u8> = Vec::new();
    put_word(&mut out, Command::Chdir.id());
    put_text(&mut out, path);
    assert(out@ =~= chdir_wire(path@));
    Ok(out)
}

/// Encodes a query for the working directory.
pub fn getcwd_request(capacity: u32) -> (request: Vec<u8>)
    ensures
        request@ == getcwd_wire(capacity),
{
    let mut out: Vec<u8> = Vec::new();
    put_word(&mut out, Command::Getcwd.id());
    put_word(&mut out, capacity);
    assert(out@ =~= getcwd_wire(capacity));
    out
}

/// Changes the working directory of the host's view of the caller. A path
/// that cannot travel fails with `InvalidArgument` and the host is not
/// called; otherwise the host is called once and the result is what its
/// reply says.
pub fn chdir<H: FnOnce(Vec<u8>) -> Vec<u8>>(host: H, path: &str) -> (r: Result<(), Error>)
    requires
        text_ok(path@) ==> accepts(host, chdir_wire(path@)),
    ensures
        !text_ok(path@) ==> r == Err::<(), Error>(Error::InvalidArgument),
        text_ok(path@) ==> exists|reply: Seq<u8>|
            answers(host, chdir_wire(path@), reply) && r == unit_reply(
                Command::Chdir.spec_id(),
                reply,
            ),
{
    match chdir_request(path) {
        Err(e) => Err(e),
        Ok(request) => {
            let reply = exchange(host, request);
            decode_unit(Command::Chdir.id(), reply.as_slice())
        },
    }
}

/// Changes the working directory to a path given as bytes, and reports the
/// outcome as a status: zero where the directory was changed, and -1 where
/// the bytes are not valid UTF-8, the path cannot travel, or the host's reply
/// is anything but success. The host is called only for a path that can
/// travel, and then once.
pub fn wasi_chdir<H: FnOnce(Vec<u8>) -> Vec<u8>>(host: H, path: &[u8]) -> (status: i32)
    requires
        valid_utf8(path@) && text_ok(decode_utf8(path@)) ==> accepts(
            host,
            chdir_wire(decode_utf8(path@)),
        ),
    ensures
        status == 0 || status == -1,
        !(valid_utf8(path@) && text_ok(decode_utf8(path@))) ==> status == -1,
        valid_utf8(path@) && text_ok(decode_utf8(path@)) ==> exists|reply: Seq<u8>|
            answers(host, chdir_wire(decode_utf8(path@)), reply) && (status == 0 <==> unit_reply(
                Command::Chdir.spec_id(),
                reply,
            ) is Ok),
{
    let bytes = copy_range(path, 0, path.len());
    assert(bytes@ =~= path@);
    match string_from_utf8(bytes) {
        None => -1,
        Some(text) => match chdir(host, text.as_str()) {
            Ok(_) => 0,
            Err(_) => -1,
        },
    }
}

/// The reply says that the buffer was too small.
pub open spec fn too_small(reply: Seq<u8>) -> bool {
    text_reply(Command::Getcwd.spec_id(), reply) == Err::<Seq<char>, Error>(
        Error::HostError(no_buffer_space()),
    )
}

/// The replies of one query for the working directory, try by try, have the
/// shape of a run: at least one and at most as many as there are sizes; every
/// reply but the last says that the buffer was too small; and where the last
/// says so too, every size was tried.
pub open spec fn cwd_run(replies: Seq<Seq<u8>>) -> bool {
    &&& 1 <= replies.len() <= TRIES
    &&& forall|i: int| 0 <= i < replies.len() - 1 ==> too_small(#[trigger] replies[i])
    &&& too_small(replies.last()) ==> replies.len() == TRIES
}

/// What a run of replies comes to: the path that the last reply carries or
/// the error it amounts to, and `NameTooLong` where even the largest buffer
/// was too small.
pub open spec fn cwd_result(replies: Seq<Seq<u8>>) -> Result<Seq<char>, Error> {
    if too_small(replies.last()) {
        Err(Error::NameTooLong)
    } else {
        text_reply(Command::Getcwd.spec_id(), replies.last())
    }
}

/// Each reply of the run is one the host may give to the query of its try.
pub open spec fn cwd_answers<H: FnOnce(Vec<u8>) -> Vec<u8>>(
    host: H,
    replies: Seq<Seq<u8>>,
) -> bool {
    forall|i: int|
        0 <= i < replies.len() ==> answers(
            host,
            getcwd_wire(capacity_at(i as nat)),
            #[trigger] replies[i],
        )
}

/// Asks for the working directory. The host is asked with the first buffer
/// size and, as long as it answers that the buffer was too small, with the
/// double of the size before, up to the largest. The result is what the last
/// reply says, and `NameTooLong` where the largest buffer was too small.
pub fn getcwd<H: Fn(Vec<u8>) -> Vec<u8>>(host: H) -> (r: Result<String, Error>)
    requires
        forall|i: nat| i < TRIES ==> accepts(host, #[trigger] getcwd_wire(capacity_at(i))),
    ensures
        exists|replies: Seq<Seq<u8>>|
            cwd_run(replies) && cwd_answers(host, replies) && match (#[trigger] cwd_result(
                replies,
            ), r) {
                (Ok(expected), Ok(path)) => path@ == expected,
                (Err(expected), Err(e)) => e == expected,
                _ => false,
            },
{
    let nobufs = buffer_too_small();
    let mut capacity: u32 = FIRST_CAPACITY;
    let mut i: usize = 0;
    let ghost mut replies: Seq<Seq<u8>> = Seq::empty();
    loop
        invariant
            i < TRIES,
            capacity == capacity_at(i as nat),
            capacity <= MAX_CAPACITY,
            nobufs == no_buffer_space(),
            replies.len() == i,
            forall|j: int| 0 <= j < i ==> too_small(#[trigger] replies[j]),
            cwd_answers(host, replies),
            forall|j: nat|
                j < TRIES ==> accepts(host, #[trigger] getcwd_wire(capacity_at(j))),
        decreases TRIES - i,
    {
        let request = getcwd_request(capacity);
        let ghost sent = request;
        assert(accepts(host, getcwd_wire(capacity_at(i as nat))));
        let reply = host(request);
        let ghost before = replies;
        proof {
            assert(answers(host, getcwd_wire(capacity), reply@)) by {
                assert(call_ensures(host, (sent,), reply));
            }
            replies = before.push(reply@);
            assert forall|j: int| 0 <= j < replies.len() implies answers(
                host,
                getcwd_wire(capacity_at(j as nat)),
                #[trigger] replies[j],
            ) by {
                if j < i {
                    assert(replies[j] == before[j]);
                }
            }
            assert forall|j: int| 0 <= j < replies.len() - 1 implies too_small(
                #[trigger] replies[j],
            ) by {
                assert(replies[j] == before[j]);
            }
            assert(replies.last() == reply@);
        }
        match decode_text(Command::Getcwd.id(), reply.as_slice()) {
            Ok(path) => {
                assert(cwd_run(replies));
                assert(cwd_result(replies) == Ok::<Seq<char>, Error>(path@));
                return Ok(path);
            },
            Err(e) => {
                if e != Error::HostError(nobufs) {
                    assert(cwd_run(replies));
                    assert(cwd_result(replies) == Err::<Seq<char>, Error>(e));
                    return Err(e);
                }
            },
        }
        assert(too_small(replies.last()));
        if i + 1 == TRIES {
            assert(cwd_run(replies));
            assert(cwd_result(replies) == Err::<Seq<char>, Error>(Error::NameTooLong));
            return Err(Error::NameTooLong);
        }
        capacity = capacity * 2;
        i += 1;
    }
}

/// What a host that holds the working directory `path` answers to a query
/// with a buffer of `capacity` bytes: the path where it fits with room to
/// spare for a terminator, and otherwise that the buffer was too small.
pub open spec fn honest_reply(path: Seq<char>, capacity: u32) -> Seq<u8> {
    if encode_utf8(path).len() < capacity {
        reply_wire(Command::Getcwd.spec_id(), 0, text_wire(path))
    } else {
        reply_wire(Command::Getcwd.spec_id(), (-no_buffer_space()) as i32, Seq::empty())
    }
}

/// Every reply of the run is the honest answer for `path` to its try.
pub open spec fn honest_run(path: Seq<char>, replies: Seq<Seq<u8>>) -> bool {
    forall|i: int|
        0 <= i < replies.len() ==> #[trigger] replies[i] == honest_reply(
            path,
            capacity_at(i as nat),
        )
}

/// Against a host that answers honestly, a working directory shorter than
/// the largest buffer is always found.
pub proof fn getcwd_finds_short_path(path: Seq<char>, replies: Seq<Seq<u8>>)
    requires
        text_ok(path),
        encode_utf8(path).len() < MAX_CAPACITY,
        cwd_run(replies),
        honest_run(path, replies),
    ensures
        cwd_result(replies) == Ok::<Seq<char>, Error>(path),
{
    let last = replies.len() - 1;
    let capacity = capacity_at(last as nat);
    assert(replies.last() == honest_reply(path, capacity));
    text_reply_round_trip(Command::Getcwd.spec_id(), path);
    if encode_utf8(path).len() >= capacity {
        reply_round_trip(Command::Getcwd.spec_id(), (-no_buffer_space()) as i32, Seq::empty());
        assert(too_small(replies.last()));
        assert(replies.len() == TRIES);
        assert(capacity == MAX_CAPACITY);
    }
}

/// Where the host answers every try, the largest buffer included, that the
/// buffer was too small, the result is `NameTooLong`.
pub proof fn getcwd_gives_up(replies: Seq<Seq<u8>>)
    requires
        replies.len() == TRIES,
        forall|i: int| 0 <= i < replies.len() ==> too_small(#[trigger] replies[i]),
    ensures
        cwd_run(replies),
        cwd_result(replies) == Err::<Seq<char>, Error>(Error::NameTooLong),
{
}

/// A working directory that does not fit the largest buffer is answered
/// with "too small" at every try by an honest host, and so not found.
pub proof fn getcwd_refuses_long_path(path: Seq<char>, replies: Seq<Seq<u8>>)
    requires
        encode_utf8(path).len() >= MAX_CAPACITY,
        cwd_run(replies),
        honest_run(path, replies),
    ensures
        replies.len() == TRIES,
        cwd_result(replies) == Err::<Seq<char>, Error>(Error::NameTooLong),
{
    reply_round_trip(Command::Getcwd.spec_id(), (-no_buffer_space()) as i32, Seq::empty());
    let last = replies.len() - 1;
    assert(replies.last() == honest_reply(path, capacity_at(last as nat)));
    assert(too_small(replies.last()));
}

} // verus!
