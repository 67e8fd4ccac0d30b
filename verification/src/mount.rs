//! Mounting a filesystem: one privileged request, sent once, whose failure
//! comes back as the host reported it.

use vstd::prelude::*;
use crate::channel::{accepts, answers, exchange};
use crate::command::Command;
use crate::error::Error;
use crate::reply::{decode_unit, unit_reply};
use crate::text::{check_text, put_text, text_ok, text_wire};
use crate::wire::{put_word, word_bytes};

verus! {

/// Whether a mount request can be encoded: its four texts can travel.
pub open spec fn mount_ok(
    source_path: Seq<char>,
    target_path: Seq<char>,
    filesystem_type: Seq<char>,
    data: Seq<char>,
) -> bool {
    text_ok(source_path) && text_ok(target_path) && text_ok(filesystem_type) && text_ok(data)
}

/// A mount request on the wire: command, source, target, filesystem type,
/// the options as their low and their high word, and the data string.
pub open spec fn mount_wire(
    source_path: Seq<char>,
    target_path: Seq<char>,
    filesystem_type: Seq<char>,
    opts: u64,
    data: Seq<char>,
) -> Seq<u8> {
    word_bytes(Command::Mount.spec_id()) + text_wire(source_path) + text_wire(target_path)
        + text_wire(filesystem_type) + word_bytes((opts % 0x1_0000_0000) as u32) + word_bytes(
        (opts / 0x1_0000_0000) as u32,
    ) + text_wire(data)
}

/// Checks and encodes a mount request.
pub fn mount_request(
    source_path: &str,
    target_path: &str,
    filesystem_type: &str,
    opts: u64,
    data: &str,
) -> (r: Result<Vec<u8>, Error>)
    ensures
        match r {
            Ok(request) => mount_ok(source_path@, target_path@, filesystem_type@, data@)
                && request@ == mount_wire(
                source_path@,
                target_path@,
                filesystem_type@,
                opts,
                data@,
            ),
            Err(e) => !mount_ok(source_path@, target_path@, filesystem_type@, data@) && e
                == Error::InvalidArgument,
        },
{
    if !check_text(source_path) || !check_text(target_path) || !check_text(filesystem_type)
        || !check_text(data) {
        return Err(Error::InvalidArgument);
    }
    let mut out: Vec<u8> = Vec::new();
    put_word(&mut out, Command::Mount.id());
    put_text(&mut out, source_path);
    put_text(&mut out, target_path);
    put_text(&mut out, filesystem_type);
    put_word(&mut out, (opts % 0x1_0000_0000) as u32);
    put_word(&mut out, (opts / 0x1_0000_0000) as u32);
    put_text(&mut out, data);
    assert(out@ =~= mount_wire(source_path@, target_path@, filesystem_type@, opts, data@));
    Ok(out)
}

/// Mounts a filesystem. A request that cannot be encoded fails with
/// `InvalidArgument` and the host is not called; otherwise the host is called
/// once and the result is what its reply says: success, or the host's error
/// code as it came.
pub fn mount<H: FnOnce(Vec<u8>) -> Vec<u8>>(
    host: H,
    source_path: &str,
    target_path: &str,
    filesystem_type: &str,
    opts: u64,
    data: &str,
) -> (r: Result<(), Error>)
    requires
        mount_ok(source_path@, target_path@, filesystem_type@, data@) ==> accepts(
            host,
            mount_wire(source_path@, target_path@, filesystem_type@, opts, data@),
        ),
    ensures
        !mount_ok(source_path@, target_path@, filesystem_type@, data@) ==> r == Err::<(), Error>(
            Error::InvalidArgument,
        ),
        mount_ok(source_path@, target_path@, filesystem_type@, data@) ==> exists|reply: Seq<u8>|
            answers(
                host,
                mount_wire(source_path@, target_path@, filesystem_type@, opts, data@),
                reply,
            ) && r == unit_reply(Command::Mount.spec_id(), reply),
{
    match mount_request(source_path, target_path, filesystem_type, opts, data) {
        Err(e) => Err(e),
        Ok(request) => {
            let reply = exchange(host, request);
            decode_unit(Command::Mount.id(), reply.as_slice())
        },
    }
}

} // verus!
