//! The descriptor actions asked for a spawned process, and their records on
//! the wire: an explicit tag, the target descriptor, and a third field whose
//! meaning the tag decides.

use vstd::prelude::*;
use vstd::utf8::{decode_utf8, encode_utf8, valid_utf8};
use crate::text::{check_bytes, check_text, nul_free, put_text, string_from_utf8, text_ok, text_wire};
use crate::error::Error;
use crate::wire::{
    copy_range, get_word, lemma_three_words, lemma_three_words_of, lemma_word_bytes_of,
    lemma_word_round_trip, put_word, word_bytes, word_of,
};

verus! {

/// One descriptor action for a spawned process.
#[derive(Debug, Clone, PartialEq, Eq)]
pub enum Redirect {
    /// Open the path read-only and install it at the descriptor.
    Read(wasi::Fd, String),
    /// Open, create or truncate the path and install it at the descriptor.
    Write(wasi::Fd, String),
    /// Open or create the path in append mode and install it at the descriptor.
    Append(wasi::Fd, String),
    /// Open the path for reading and writing and install it at the descriptor.
    ReadWrite(wasi::Fd, String),
    /// Connect the descriptor as the child's standard input.
    PipeIn(wasi::Fd),
    /// Connect the descriptor as the child's standard output.
    PipeOut(wasi::Fd),
    /// Make `fd_dst` a duplicate of `fd_src` in the child.
    Duplicate { fd_src: wasi::Fd, fd_dst: wasi::Fd },
    /// Close the descriptor before the child runs.
    Close(wasi::Fd),
}

/// A redirect as a mathematical value: the same variants, with the path as
/// its sequence of characters.
pub enum RedirectView {
    Read(u32, Seq<char>),
    Write(u32, Seq<char>),
    Append(u32, Seq<char>),
    ReadWrite(u32, Seq<char>),
    PipeIn(u32),
    PipeOut(u32),
    Duplicate { fd_src: u32, fd_dst: u32 },
    Close(u32),
}

impl View for Redirect {
    type V = RedirectView;

    open spec fn view(&self) -> RedirectView {
        match *self {
            Redirect::Read(fd, path) => RedirectView::Read(fd, path@),
            Redirect::Write(fd, path) => RedirectView::Write(fd, path@),
            Redirect::Append(fd, path) => RedirectView::Append(fd, path@),
            Redirect::ReadWrite(fd, path) => RedirectView::ReadWrite(fd, path@),
            Redirect::PipeIn(fd) => RedirectView::PipeIn(fd),
            Redirect::PipeOut(fd) => RedirectView::PipeOut(fd),
            Redirect::Duplicate { fd_src, fd_dst } => RedirectView::Duplicate { fd_src, fd_dst },
            Redirect::Close(fd) => RedirectView::Close(fd),
        }
    }
}

/// The views of a list of redirects, in order.
pub open spec fn views(list: Seq<Redirect>) -> Seq<RedirectView> {
    list.map_values(|r: Redirect| r@)
}

/// The tag of `Read`.
pub const TAG_READ: u32 = 0;

/// The tag of `Write`.
pub const TAG_WRITE: u32 = 1;

/// The tag of `Append`.
pub const TAG_APPEND: u32 = 2;

/// The tag of `ReadWrite`.
pub const TAG_READWRITE: u32 = 3;

/// The tag of `PipeIn`.
pub const TAG_PIPEIN: u32 = 4;

/// The tag of `PipeOut`.
pub const TAG_PIPEOUT: u32 = 5;

/// The tag of `Duplicate`.
pub const TAG_DUPLICATE: u32 = 6;

/// The tag of `Close`.
pub const TAG_CLOSE: u32 = 7;

/// The descriptor a `PipeIn` installs: standard input.
pub const STDIN: u32 = 0;

/// The descriptor a `PipeOut` installs: standard output.
pub const STDOUT: u32 = 1;

/// A record that opens a path: tag, target descriptor, then the path as text.
pub open spec fn path_record(tag: u32, fd: u32, path: Seq<char>) -> Seq<u8> {
    word_bytes(tag) + word_bytes(fd) + text_wire(path)
}

/// A record of three words: tag, target descriptor, and a source descriptor
/// (zero where the action has none).
pub open spec fn fd_record(tag: u32, fd_dst: u32, fd_src: u32) -> Seq<u8> {
    word_bytes(tag) + word_bytes(fd_dst) + word_bytes(fd_src)
}

/// Whether a redirect can be encoded: its path, if it has one, can travel.
pub open spec fn redirect_ok(r: RedirectView) -> bool {
    match r {
        RedirectView::Read(_, path) => text_ok(path),
        RedirectView::Write(_, path) => text_ok(path),
        RedirectView::Append(_, path) => text_ok(path),
        RedirectView::ReadWrite(_, path) => text_ok(path),
        _ => true,
    }
}

/// The record of one redirect.
pub open spec fn redirect_wire(r: RedirectView) -> Seq<u8> {
    match r {
        RedirectView::Read(fd, path) => path_record(TAG_READ, fd, path),
        RedirectView::Write(fd, path) => path_record(TAG_WRITE, fd, path),
        RedirectView::Append(fd, path) => path_record(TAG_APPEND, fd, path),
        RedirectView::ReadWrite(fd, path) => path_record(TAG_READWRITE, fd, path),
        RedirectView::PipeIn(fd_src) => fd_record(TAG_PIPEIN, STDIN, fd_src),
        RedirectView::PipeOut(fd_src) => fd_record(TAG_PIPEOUT, STDOUT, fd_src),
        RedirectView::Duplicate { fd_src, fd_dst } => fd_record(TAG_DUPLICATE, fd_dst, fd_src),
        RedirectView::Close(fd) => fd_record(TAG_CLOSE, fd, 0),
    }
}

/// Whether a list can be encoded: every entry can, and the count fits a word.
pub open spec fn redirects_ok(list: Seq<RedirectView>) -> bool {
    &&& list.len() <= u32::MAX
    &&& forall|i: int| 0 <= i < list.len() ==> redirect_ok(#[trigger] list[i])
}

/// The records of a list, one after the other, in list order.
pub open spec fn records_wire(list: Seq<RedirectView>) -> Seq<u8>
    decreases list.len(),
{
    if list.len() == 0 {
        Seq::empty()
    } else {
        redirect_wire(list[0]) + records_wire(list.skip(1))
    }
}

/// A list on the wire: the number of entries, then their records.
pub open spec fn redirects_wire(list: Seq<RedirectView>) -> Seq<u8> {
    word_bytes(list.len() as u32) + records_wire(list)
}

/// The records of a list with one more entry end with that entry's record.
pub proof fn lemma_records_push(list: Seq<RedirectView>, last: RedirectView)
    ensures
        records_wire(list.push(last)) == records_wire(list) + redirect_wire(last),
    decreases list.len(),
{
    if list.len() == 0 {
        let one = list.push(last);
        assert(one.skip(1) =~= Seq::<RedirectView>::empty());
        assert(records_wire(one.skip(1)) =~= Seq::<u8>::empty());
        assert(one[0] == last);
        assert(records_wire(one) =~= redirect_wire(last));
        assert(records_wire(list) =~= Seq::<u8>::empty());
        assert(records_wire(list) + redirect_wire(last) =~= redirect_wire(last));
    } else {
        assert(list.push(last).skip(1) =~= list.skip(1).push(last));
        lemma_records_push(list.skip(1), last);
        assert(records_wire(list.push(last)) =~= records_wire(list) + redirect_wire(last));
    }
}

/// Whether the redirect can be encoded.
pub fn check_redirect(redirect: &Redirect) -> (ok: bool)
    ensures
        ok == redirect_ok(redirect@),
{
    match redirect {
        Redirect::Read(_, path) => check_text(path.as_str()),
        Redirect::Write(_, path) => check_text(path.as_str()),
        Redirect::Append(_, path) => check_text(path.as_str()),
        Redirect::ReadWrite(_, path) => check_text(path.as_str()),
        _ => true,
    }
}

/// Appends a record that opens a path.
fn put_path_record(out: &mut Vec<u8>, tag: u32, fd: u32, path: &str)
    requires
        text_ok(path@),
    ensures
        final(out)@ == old(out)@ + path_record(tag, fd, path@),
{
    put_word(out, tag);
    put_word(out, fd);
    put_text(out, path);
    assert(out@ =~= old(out)@ + path_record(tag, fd, path@));
}

/// Appends a record of three words.
fn put_fd_record(out: &mut Vec<u8>, tag: u32, fd_dst: u32, fd_src: u32)
    ensures
        final(out)@ == old(out)@ + fd_record(tag, fd_dst, fd_src),
{
    put_word(out, tag);
    put_word(out, fd_dst);
    put_word(out, fd_src);
    assert(out@ =~= old(out)@ + fd_record(tag, fd_dst, fd_src));
}

/// Appends the record of one redirect.
pub fn put_redirect(out: &mut Vec<u8>, redirect: &Redirect)
    requires
        redirect_ok(redirect@),
    ensures
        final(out)@ == old(out)@ + redirect_wire(redirect@),
{
    match redirect {
        Redirect::Read(fd, path) => put_path_record(out, TAG_READ, *fd, path.as_str()),
        Redirect::Write(fd, path) => put_path_record(out, TAG_WRITE, *fd, path.as_str()),
        Redirect::Append(fd, path) => put_path_record(out, TAG_APPEND, *fd, path.as_str()),
        Redirect::ReadWrite(fd, path) => put_path_record(out, TAG_READWRITE, *fd, path.as_str()),
        Redirect::PipeIn(fd_src) => put_fd_record(out, TAG_PIPEIN, STDIN, *fd_src),
        Redirect::PipeOut(fd_src) => put_fd_record(out, TAG_PIPEOUT, STDOUT, *fd_src),
        Redirect::Duplicate { fd_src, fd_dst } => put_fd_record(
            out,
            TAG_DUPLICATE,
            *fd_dst,
            *fd_src,
        ),
        Redirect::Close(fd) => put_fd_record(out, TAG_CLOSE, *fd, 0),
    }
}

/// Whether every redirect of the list can be encoded and their count fits.
pub fn check_redirects(list: &[Redirect]) -> (ok: bool)
    ensures
        ok == redirects_ok(views(list@)),
{
    if list.len() > u32::MAX as usize {
        return false;
    }
    let mut i: usize = 0;
    while i < list.len()
        invariant
            i <= list@.len(),
            forall|j: int| 0 <= j < i ==> redirect_ok(#[trigger] views(list@)[j]),
        decreases list@.len() - i,
    {
        if !check_redirect(&list[i]) {
            assert(!redirect_ok(views(list@)[i as int]));
            return false;
        }
        i += 1;
    }
    true
}

/// Appends a list: the count, then each record in order.
pub fn put_redirects(out: &mut Vec<u8>, list: &[Redirect])
    requires
        redirects_ok(views(list@)),
    ensures
        final(out)@ == old(out)@ + redirects_wire(views(list@)),
{
    put_word(out, list.len() as u32);
    let ghost start = out@;
    let mut i: usize = 0;
    while i < list.len()
        invariant
            i <= list@.len(),
            redirects_ok(views(list@)),
            out@ == start + records_wire(views(list@).take(i as int)),
        decreases list@.len() - i,
    {
        assert(redirect_ok(views(list@)[i as int]));
        put_redirect(out, &list[i]);
        proof {
            let done = views(list@).take(i as int);
            lemma_records_push(done, list@[i as int]@);
            assert(done.push(list@[i as int]@) =~= views(list@).take(i + 1));
            assert(out@ =~= start + records_wire(views(list@).take(i + 1)));
        }
        i += 1;
    }
    assert(views(list@).take(i as int) =~= views(list@));
    assert(out@ =~= old(out)@ + redirects_wire(views(list@)));
}

/// The redirect that a path record with this tag stands for.
pub open spec fn path_redirect(tag: u32, fd: u32, path: Seq<char>) -> RedirectView {
    if tag == TAG_READ {
        RedirectView::Read(fd, path)
    } else if tag == TAG_WRITE {
        RedirectView::Write(fd, path)
    } else if tag == TAG_APPEND {
        RedirectView::Append(fd, path)
    } else {
        RedirectView::ReadWrite(fd, path)
    }
}

/// What the record at the head of `s` says and how many bytes it takes, or
/// nothing where `s` does not start with a record.
pub open spec fn parse_redirect(s: Seq<u8>) -> Option<(RedirectView, int)> {
    if s.len() < 12 {
        None
    } else {
        let tag = word_of(s);
        let fd = word_of(s.skip(4));
        let third = word_of(s.skip(8));
        if tag <= TAG_READWRITE {
            let end = 12 + third;
            if s.len() < end {
                None
            } else {
                let raw = s.subrange(12, end);
                if valid_utf8(raw) && nul_free(raw) {
                    Some((path_redirect(tag, fd, decode_utf8(raw)), end))
                } else {
                    None
                }
            }
        } else if tag == TAG_PIPEIN {
            if fd == STDIN {
                Some((RedirectView::PipeIn(third), 12))
            } else {
                None
            }
        } else if tag == TAG_PIPEOUT {
            if fd == STDOUT {
                Some((RedirectView::PipeOut(third), 12))
            } else {
                None
            }
        } else if tag == TAG_DUPLICATE {
            Some((RedirectView::Duplicate { fd_src: third, fd_dst: fd }, 12))
        } else if tag == TAG_CLOSE {
            if third == 0 {
                Some((RedirectView::Close(fd), 12))
            } else {
                None
            }
        } else {
            None
        }
    }
}

/// A parsed tail joined to what was parsed before it.
pub open spec fn joined(
    done: Seq<RedirectView>,
    used: int,
    tail: Option<(Seq<RedirectView>, int)>,
) -> Option<(Seq<RedirectView>, int)> {
    match tail {
        None => None,
        Some((rest, more)) => Some((done + rest, used + more)),
    }
}

/// The `count` records at the head of `s` and the bytes they take.
pub open spec fn parse_records(s: Seq<u8>, count: nat) -> Option<(Seq<RedirectView>, int)>
    decreases count,
{
    if count == 0 {
        Some((Seq::empty(), 0))
    } else {
        match parse_redirect(s) {
            None => None,
            Some((first, used)) => joined(
                seq![first],
                used,
                parse_records(s.skip(used), (count - 1) as nat),
            ),
        }
    }
}

/// The list at the head of `s`, count first, and the bytes it takes.
pub open spec fn parse_redirects_prefix(s: Seq<u8>) -> Option<(Seq<RedirectView>, int)> {
    if s.len() < 4 {
        None
    } else {
        joined(Seq::empty(), 4, parse_records(s.skip(4), word_of(s) as nat))
    }
}

/// The list that `s` is the encoding of, or nothing where it is none.
pub open spec fn parse_redirects(s: Seq<u8>) -> Option<Seq<RedirectView>> {
    match parse_redirects_prefix(s) {
        Some((list, used)) if used == s.len() => Some(list),
        _ => None,
    }
}

/// Reads the text of a path record: the bytes from `from` up to `to`, as a
/// string, where they are valid UTF-8 without a NUL.
fn get_path(input: &[u8], from: usize, to: usize) -> (r: Option<String>)
    requires
        from <= to <= input@.len(),
        to - from <= u32::MAX,
    ensures
        ({
            let raw = input@.subrange(from as int, to as int);
            match r {
                Some(path) => valid_utf8(raw) && nul_free(raw) && path@ == decode_utf8(raw),
                None => !(valid_utf8(raw) && nul_free(raw)),
            }
        }),
{
    let raw = copy_range(input, from, to);
    if !check_bytes(raw.as_slice()) {
        return None;
    }
    string_from_utf8(raw)
}

/// Reads the record that starts at `pos`: the redirect and where the next
/// record starts, or nothing where no record stands there.
pub fn get_redirect(input: &[u8], pos: usize) -> (r: Option<(Redirect, usize)>)
    requires
        pos <= input@.len(),
    ensures
        match (parse_redirect(input@.skip(pos as int)), r) {
            (Some((redirect, used)), Some((got, next))) => got@ == redirect && next == pos + used
                && pos <= next <= input@.len(),
            (None, None) => true,
            _ => false,
        },
{
    let ghost s = input@.skip(pos as int);
    if input.len() - pos < 12 {
        return None;
    }
    let tag = get_word(input, pos);
    let fd = get_word(input, pos + 4);
    let third = get_word(input, pos + 8);
    assert(s.skip(4) =~= input@.skip(pos + 4));
    assert(s.skip(8) =~= input@.skip(pos + 8));
    if tag <= TAG_READWRITE {
        if input.len() - pos - 12 < third as usize {
            return None;
        }
        assert(s.subrange(12, 12 + third) =~= input@.subrange(pos + 12, pos + 12 + third));
        let next = pos + 12 + third as usize;
        match get_path(input, pos + 12, next) {
            None => None,
            Some(path) => {
                if tag == TAG_READ {
                    Some((Redirect::Read(fd, path), next))
                } else if tag == TAG_WRITE {
                    Some((Redirect::Write(fd, path), next))
                } else if tag == TAG_APPEND {
                    Some((Redirect::Append(fd, path), next))
                } else {
                    Some((Redirect::ReadWrite(fd, path), next))
                }
            },
        }
    } else if tag == TAG_PIPEIN {
        if fd == STDIN {
            Some((Redirect::PipeIn(third), pos + 12))
        } else {
            None
        }
    } else if tag == TAG_PIPEOUT {
        if fd == STDOUT {
            Some((Redirect::PipeOut(third), pos + 12))
        } else {
            None
        }
    } else if tag == TAG_DUPLICATE {
        Some((Redirect::Duplicate { fd_src: third, fd_dst: fd }, pos + 12))
    } else if tag == TAG_CLOSE {
        if third == 0 {
            Some((Redirect::Close(fd), pos + 12))
        } else {
            None
        }
    } else {
        None
    }
}

/// Reads the list that starts at `pos`: the redirects in order and where the
/// list ends, or nothing where no list stands there.
pub fn get_redirects(input: &[u8], pos: usize) -> (r: Option<(Vec<Redirect>, usize)>)
    requires
        pos <= input@.len(),
    ensures
        match (parse_redirects_prefix(input@.skip(pos as int)), r) {
            (Some((list, used)), Some((got, next))) => views(got@) == list && next == pos + used
                && pos <= next <= input@.len(),
            (None, None) => true,
            _ => false,
        },
{
    let ghost s = input@.skip(pos as int);
    if input.len() - pos < 4 {
        return None;
    }
    let count = get_word(input, pos);
    let ghost whole = parse_records(s.skip(4), count as nat);
    let mut list: Vec<Redirect> = Vec::new();
    let mut at: usize = pos + 4;
    let mut i: u32 = 0;
    assert(s.skip(4) =~= input@.skip(at as int));
    assert(views(list@) =~= Seq::<RedirectView>::empty());
    assert(whole == joined(views(list@), 0, whole)) by {
        if let Some((rest, more)) = whole {
            assert(views(list@) + rest =~= rest);
        }
    }
    while i < count
        invariant
            i <= count,
            pos + 4 <= at <= input@.len(),
            s == input@.skip(pos as int),
            count == word_of(s),
            whole == parse_records(s.skip(4), count as nat),
            whole == joined(
                views(list@),
                at - pos - 4,
                parse_records(input@.skip(at as int), (count - i) as nat),
            ),
        decreases count - i,
    {
        let ghost here = input@.skip(at as int);
        let ghost done = views(list@);
        match get_redirect(input, at) {
            None => {
                assert(parse_records(here, (count - i) as nat) is None);
                return None;
            },
            Some((redirect, next)) => {
                proof {
                    let used = next - at;
                    let tail = parse_records(here.skip(used), (count - i - 1) as nat);
                    assert(here.skip(used) =~= input@.skip(next as int));
                    assert(parse_records(here, (count - i) as nat) == joined(
                        seq![redirect@],
                        used,
                        tail,
                    ));
                    assert(done.push(redirect@) =~= views(list@.push(redirect)));
                    if let Some((rest, more)) = tail {
                        assert(done + (seq![redirect@] + rest) =~= done.push(redirect@) + rest);
                    }
                }
                list.push(redirect);
                at = next;
                i += 1;
            },
        }
    }
    proof {
        assert(views(list@) + Seq::<RedirectView>::empty() =~= views(list@));
    }
    Some((list, at))
}

/// Decodes a whole input as one list of redirects: the list it encodes, or
/// nothing where it is not the encoding of a list.
pub fn decode_redirects(input: &[u8]) -> (r: Option<Vec<Redirect>>)
    ensures
        match (parse_redirects(input@), r) {
            (Some(list), Some(got)) => views(got@) == list,
            (None, None) => true,
            _ => false,
        },
{
    assert(input@.skip(0) =~= input@);
    match get_redirects(input, 0) {
        None => None,
        Some((list, end)) => {
            if end == input.len() {
                Some(list)
            } else {
                None
            }
        },
    }
}

/// A record followed by anything is read back as the redirect it encodes.
pub proof fn lemma_redirect_round_trip(r: RedirectView, rest: Seq<u8>)
    requires
        redirect_ok(r),
    ensures
        parse_redirect(redirect_wire(r) + rest) == Some((r, redirect_wire(r).len() as int)),
{
    match r {
        RedirectView::Read(fd, path) => lemma_path_round_trip(TAG_READ, fd, path, rest),
        RedirectView::Write(fd, path) => lemma_path_round_trip(TAG_WRITE, fd, path, rest),
        RedirectView::Append(fd, path) => lemma_path_round_trip(TAG_APPEND, fd, path, rest),
        RedirectView::ReadWrite(fd, path) => lemma_path_round_trip(TAG_READWRITE, fd, path, rest),
        RedirectView::PipeIn(fd_src) => lemma_three_words(TAG_PIPEIN, STDIN, fd_src, rest),
        RedirectView::PipeOut(fd_src) => lemma_three_words(TAG_PIPEOUT, STDOUT, fd_src, rest),
        RedirectView::Duplicate { fd_src, fd_dst } => lemma_three_words(
            TAG_DUPLICATE,
            fd_dst,
            fd_src,
            rest,
        ),
        RedirectView::Close(fd) => lemma_three_words(TAG_CLOSE, fd, 0, rest),
    }
}

/// A path record followed by anything is read back as its redirect.
proof fn lemma_path_round_trip(tag: u32, fd: u32, path: Seq<char>, rest: Seq<u8>)
    requires
        tag <= TAG_READWRITE,
        text_ok(path),
    ensures
        parse_redirect(path_record(tag, fd, path) + rest) == Some(
            (path_redirect(tag, fd, path), path_record(tag, fd, path).len() as int),
        ),
{
    broadcast use vstd::utf8::encode_utf8_valid_utf8, vstd::utf8::encode_utf8_decode_utf8;

    let bytes = encode_utf8(path);
    let len = bytes.len() as u32;
    let s = path_record(tag, fd, path) + rest;
    lemma_three_words(tag, fd, len, bytes + rest);
    assert(s =~= word_bytes(tag) + word_bytes(fd) + word_bytes(len) + (bytes + rest));
    assert(s.subrange(12, 12 + len) =~= bytes);
}

/// The records of a list followed by anything are read back as the list.
pub proof fn lemma_records_round_trip(list: Seq<RedirectView>, rest: Seq<u8>)
    requires
        forall|i: int| 0 <= i < list.len() ==> redirect_ok(#[trigger] list[i]),
    ensures
        parse_records(records_wire(list) + rest, list.len()) == Some(
            (list, records_wire(list).len() as int),
        ),
    decreases list.len(),
{
    if list.len() == 0 {
        assert(list =~= Seq::<RedirectView>::empty());
    } else {
        let first = redirect_wire(list[0]);
        let tail = list.skip(1);
        let s = records_wire(list) + rest;
        assert(s =~= first + (records_wire(tail) + rest));
        lemma_redirect_round_trip(list[0], records_wire(tail) + rest);
        assert(s.skip(first.len() as int) =~= records_wire(tail) + rest);
        assert forall|i: int| 0 <= i < tail.len() implies redirect_ok(#[trigger] tail[i]) by {
            assert(tail[i] == list[i + 1]);
        }
        lemma_records_round_trip(tail, rest);
        assert(seq![list[0]] + tail =~= list);
    }
}

/// Encoding a list and decoding the bytes gives the list back: the same
/// variants with the same fields, in the same order.
pub proof fn redirects_round_trip(list: Seq<RedirectView>)
    requires
        redirects_ok(list),
    ensures
        parse_redirects(redirects_wire(list)) == Some(list),
{
    let s = redirects_wire(list);
    let count = list.len() as u32;
    lemma_word_round_trip(count, records_wire(list));
    lemma_records_round_trip(list, Seq::empty());
    assert(records_wire(list) + Seq::<u8>::empty() =~= records_wire(list));
    assert(s.skip(4) =~= records_wire(list));
    assert(Seq::<RedirectView>::empty() + list =~= list);
}

/// An encoded list followed by anything is read back as the list.
pub proof fn lemma_redirects_prefix_round_trip(list: Seq<RedirectView>, rest: Seq<u8>)
    requires
        redirects_ok(list),
    ensures
        parse_redirects_prefix(redirects_wire(list) + rest) == Some(
            (list, redirects_wire(list).len() as int),
        ),
        (redirects_wire(list) + rest).skip(redirects_wire(list).len() as int) == rest,
{
    let s = redirects_wire(list) + rest;
    lemma_word_round_trip(list.len() as u32, records_wire(list) + rest);
    assert(s =~= word_bytes(list.len() as u32) + (records_wire(list) + rest));
    lemma_records_round_trip(list, rest);
    assert(Seq::<RedirectView>::empty() + list =~= list);
    assert(s.skip(redirects_wire(list).len() as int) =~= rest);
}

/// What a record is read as can be encoded, and encodes to the bytes read.
pub proof fn lemma_redirect_canonical(s: Seq<u8>)
    requires
        parse_redirect(s) is Some,
    ensures
        ({
            let (r, used) = parse_redirect(s)->0;
            &&& redirect_ok(r)
            &&& 12 <= used <= s.len()
            &&& redirect_wire(r) == s.take(used)
        }),
{
    broadcast use vstd::utf8::decode_utf8_encode_utf8;

    let (r, used) = parse_redirect(s)->0;
    let tag = word_of(s);
    let third = word_of(s.skip(8));
    lemma_three_words_of(s);
    if tag <= TAG_READWRITE {
        let raw = s.subrange(12, 12 + third);
        assert(encode_utf8(decode_utf8(raw)) == raw);
        assert(raw.len() as u32 == third);
        assert(redirect_wire(r) =~= s.take(12) + raw);
        assert(s.take(12) + raw =~= s.take(used));
    } else {
        assert(redirect_wire(r) =~= s.take(12));
    }
}

/// What `count` records are read as can be encoded, and encodes to the bytes
/// read.
pub proof fn lemma_records_canonical(s: Seq<u8>, count: nat)
    requires
        parse_records(s, count) is Some,
    ensures
        ({
            let (list, used) = parse_records(s, count)->0;
            &&& list.len() == count
            &&& forall|i: int| 0 <= i < list.len() ==> redirect_ok(#[trigger] list[i])
            &&& 0 <= used <= s.len()
            &&& records_wire(list) == s.take(used)
        }),
    decreases count,
{
    let (list, used) = parse_records(s, count)->0;
    if count == 0 {
        assert(records_wire(list) =~= s.take(0));
    } else {
        let (first, one) = parse_redirect(s)->0;
        let (tail, more) = parse_records(s.skip(one), (count - 1) as nat)->0;
        lemma_redirect_canonical(s);
        lemma_records_canonical(s.skip(one), (count - 1) as nat);
        assert(list =~= seq![first] + tail);
        assert(list.skip(1) =~= tail);
        assert(s.take(one) + s.skip(one).take(more) =~= s.take(used));
        assert forall|i: int| 0 <= i < list.len() implies redirect_ok(#[trigger] list[i]) by {
            if i > 0 {
                assert(list[i] == tail[i - 1]);
            }
        }
    }
}

/// Bytes that decode to a list are exactly the encoding of that list: no two
/// inputs decode to the same list.
pub proof fn redirects_canonical(s: Seq<u8>)
    requires
        parse_redirects(s) is Some,
    ensures
        redirects_ok(parse_redirects(s)->0),
        redirects_wire(parse_redirects(s)->0) == s,
{
    let count = word_of(s);
    let (records, used) = parse_records(s.skip(4), count as nat)->0;
    lemma_records_canonical(s.skip(4), count as nat);
    assert(Seq::<RedirectView>::empty() + records =~= records);
    lemma_word_bytes_of(s);
    assert(s.skip(4).take(used) =~= s.skip(4));
    assert(s.take(4) + s.skip(4) =~= s);
}

/// Encodes a list of redirects, or refuses it where a path cannot travel or
/// the list is too long to count.
pub fn encode_redirects(list: &[Redirect]) -> (r: Result<Vec<u8>, Error>)
    ensures
        match r {
            Ok(bytes) => redirects_ok(views(list@)) && bytes@ == redirects_wire(views(list@)),
            Err(e) => !redirects_ok(views(list@)) && e == Error::InvalidArgument,
        },
{
    if !check_redirects(list) {
        return Err(Error::InvalidArgument);
    }
    let mut out: Vec<u8> = Vec::new();
    put_redirects(&mut out, list);
    assert(out@ =~= redirects_wire(views(list@)));
    Ok(out)
}

} // verus!
