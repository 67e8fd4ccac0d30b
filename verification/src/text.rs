//! Text on the wire: the UTF-8 bytes of a string, free of NUL and short
//! enough for a 32-bit length, behind their length.

use vstd::prelude::*;
use vstd::utf8::{decode_utf8, encode_utf8, valid_utf8};
use crate::wire::{
    copy_range, framed, get_word, lemma_word_round_trip, put_bytes, put_word, word_bytes, word_of,
};

verus! {

/// No byte of `bytes` is zero.
pub open spec fn nul_free(bytes: Seq<u8>) -> bool {
    forall|i: int| 0 <= i < bytes.len() ==> bytes[i] != 0
}

/// Bytes that can travel as one text field.
pub open spec fn bytes_ok(bytes: Seq<u8>) -> bool {
    bytes.len() <= u32::MAX && nul_free(bytes)
}

/// Text that can travel: its UTF-8 bytes hold no NUL and fit a 32-bit length.
pub open spec fn text_ok(chars: Seq<char>) -> bool {
    bytes_ok(encode_utf8(chars))
}

/// A text field as it travels: the length of its UTF-8 bytes, then the bytes.
pub open spec fn text_wire(chars: Seq<char>) -> Seq<u8> {
    framed(encode_utf8(chars))
}

/// Whether the bytes hold no NUL and fit a 32-bit length.
pub fn check_bytes(bytes: &[u8]) -> (ok: bool)
    ensures
        ok == bytes_ok(bytes@),
{
    if bytes.len() > u32::MAX as usize {
        return false;
    }
    let mut i: usize = 0;
    while i < bytes.len()
        invariant
            i <= bytes@.len(),
            forall|j: int| 0 <= j < i ==> bytes@[j] != 0,
        decreases bytes@.len() - i,
    {
        if bytes[i] == 0 {
            return false;
        }
        i += 1;
    }
    true
}

/// Whether the text can travel.
pub fn check_text(s: &str) -> (ok: bool)
    ensures
        ok == text_ok(s@),
{
    check_bytes(s.as_bytes())
}

/// Appends a text field: length, then bytes.
pub fn put_text(out: &mut Vec<u8>, s: &str)
    requires
        text_ok(s@),
    ensures
        final(out)@ == old(out)@ + text_wire(s@),
{
    let bytes = s.as_bytes();
    put_word(out, bytes.len() as u32);
    put_bytes(out, bytes);
    assert(out@ =~= old(out)@ + text_wire(s@));
}

/// `String::from_utf8`: the string whose UTF-8 bytes are `bytes`, and nothing
/// where `bytes` are not valid UTF-8.
#[verifier::external_body]
pub(crate) fn string_from_utf8(bytes: Vec<u8>) -> (r: Option<String>)
    ensures
        r is Some <==> valid_utf8(bytes@),
        r is Some ==> r->0@ == decode_utf8(bytes@),
{
    String::from_utf8(bytes).ok()
}

/// The texts of a list of string slices, in order.
pub open spec fn str_views(list: Seq<&str>) -> Seq<Seq<char>> {
    list.map_values(|s: &str| s@)
}

/// Whether a list of texts can travel: each can, and the count fits a word.
pub open spec fn texts_ok(list: Seq<Seq<char>>) -> bool {
    &&& list.len() <= u32::MAX
    &&& forall|i: int| 0 <= i < list.len() ==> text_ok(#[trigger] list[i])
}

/// The text fields of a list, one after the other, in list order.
pub open spec fn texts_body(list: Seq<Seq<char>>) -> Seq<u8>
    decreases list.len(),
{
    if list.len() == 0 {
        Seq::empty()
    } else {
        texts_body(list.drop_last()) + text_wire(list.last())
    }
}

/// A list of texts as it travels: the count, then each text field.
pub open spec fn texts_wire(list: Seq<Seq<char>>) -> Seq<u8> {
    word_bytes(list.len() as u32) + texts_body(list)
}

/// Whether every text of the list can travel and their count fits a word.
pub fn check_texts(list: &[&str]) -> (ok: bool)
    ensures
        ok == texts_ok(str_views(list@)),
{
    if list.len() > u32::MAX as usize {
        return false;
    }
    let mut i: usize = 0;
    while i < list.len()
        invariant
            i <= list@.len(),
            forall|j: int| 0 <= j < i ==> text_ok(#[trigger] str_views(list@)[j]),
        decreases list@.len() - i,
    {
        if !check_text(list[i]) {
            assert(!text_ok(str_views(list@)[i as int]));
            return false;
        }
        i += 1;
    }
    true
}

/// Appends a list of texts: the count, then each text field in order.
pub fn put_texts(out: &mut Vec<u8>, list: &[&str])
    requires
        texts_ok(str_views(list@)),
    ensures
        final(out)@ == old(out)@ + texts_wire(str_views(list@)),
{
    put_word(out, list.len() as u32);
    let ghost start = out@;
    let ghost all = str_views(list@);
    let mut i: usize = 0;
    while i < list.len()
        invariant
            i <= list@.len(),
            all == str_views(list@),
            texts_ok(all),
            out@ == start + texts_body(all.take(i as int)),
        decreases list@.len() - i,
    {
        assert(text_ok(all[i as int]));
        put_text(out, list[i]);
        proof {
            assert(all.take(i + 1).drop_last() =~= all.take(i as int));
            assert(out@ =~= start + texts_body(all.take(i + 1)));
        }
        i += 1;
    }
    assert(all.take(i as int) =~= all);
    assert(out@ =~= old(out)@ + texts_wire(all));
}

/// The text field at the head of `s` and the bytes it takes, or nothing
/// where `s` does not start with a text field.
pub open spec fn parse_text(s: Seq<u8>) -> Option<(Seq<char>, int)> {
    if s.len() < 4 {
        None
    } else {
        let end = 4 + word_of(s);
        if s.len() < end {
            None
        } else {
            let raw = s.subrange(4, end);
            if valid_utf8(raw) && nul_free(raw) {
                Some((decode_utf8(raw), end))
            } else {
                None
            }
        }
    }
}

/// A text field followed by anything is read back as the text.
pub proof fn lemma_text_round_trip(text: Seq<char>, rest: Seq<u8>)
    requires
        text_ok(text),
    ensures
        parse_text(text_wire(text) + rest) == Some((text, text_wire(text).len() as int)),
        (text_wire(text) + rest).skip(text_wire(text).len() as int) == rest,
{
    broadcast use vstd::utf8::encode_utf8_valid_utf8, vstd::utf8::encode_utf8_decode_utf8;

    let bytes = encode_utf8(text);
    let s = text_wire(text) + rest;
    lemma_word_round_trip(bytes.len() as u32, bytes + rest);
    assert(s =~= word_bytes(bytes.len() as u32) + (bytes + rest));
    assert(s.subrange(4, 4 + bytes.len() as int) =~= bytes);
    assert(s.skip(text_wire(text).len() as int) =~= rest);
}

/// Reads the text field that starts at `pos`: the text and where the next
/// field starts, or nothing where no text field stands there.
pub fn get_text(input: &[u8], pos: usize) -> (r: Option<(String, usize)>)
    requires
        pos <= input@.len(),
    ensures
        match (parse_text(input@.skip(pos as int)), r) {
            (Some((text, used)), Some((got, next))) => got@ == text && next == pos + used && pos <= next <= input@.len(),
            (None, None) => true,
            _ => false,
        },
{
    let ghost s = input@.skip(pos as int);
    if input.len() - pos < 4 {
        return None;
    }
    let len = get_word(input, pos);
    if input.len() - pos - 4 < len as usize {
        return None;
    }
    let end = pos + 4 + len as usize;
    let raw = copy_range(input, pos + 4, end);
    assert(raw@ =~= s.subrange(4, 4 + len));
    if !check_bytes(raw.as_slice()) {
        return None;
    }
    match string_from_utf8(raw) {
        Some(text) => Some((text, end)),
        None => None,
    }
}

/// The texts of a list of strings, in order.
pub open spec fn string_views(list: Seq<String>) -> Seq<Seq<char>> {
    list.map_values(|s: String| s@)
}

/// The `count` text fields at the head of `s` and the bytes they take.
pub open spec fn parse_text_fields(s: Seq<u8>, count: nat) -> Option<(Seq<Seq<char>>, int)>
    decreases count,
{
    if count == 0 {
        Some((Seq::empty(), 0))
    } else {
        match parse_text(s) {
            None => None,
            Some((first, used)) => match parse_text_fields(s.skip(used), (count - 1) as nat) {
                None => None,
                Some((rest, more)) => Some((seq![first] + rest, used + more)),
            },
        }
    }
}

/// The list of texts at the head of `s`, count first, and the bytes it takes.
pub open spec fn parse_texts(s: Seq<u8>) -> Option<(Seq<Seq<char>>, int)> {
    if s.len() < 4 {
        None
    } else {
        match parse_text_fields(s.skip(4), word_of(s) as nat) {
            None => None,
            Some((list, used)) => Some((list, 4 + used)),
        }
    }
}

/// The text fields of a list start with the field of its first text.
pub proof fn lemma_texts_body_front(list: Seq<Seq<char>>)
    requires
        list.len() > 0,
    ensures
        texts_body(list) == text_wire(list[0]) + texts_body(list.skip(1)),
    decreases list.len(),
{
    if list.len() == 1 {
        assert(list.drop_last() =~= Seq::<Seq<char>>::empty());
        assert(list.skip(1) =~= Seq::<Seq<char>>::empty());
        assert(texts_body(list.drop_last()) =~= Seq::<u8>::empty());
        assert(texts_body(list) =~= text_wire(list[0]) + texts_body(list.skip(1)));
    } else {
        let front = list.drop_last();
        let tail = list.skip(1);
        lemma_texts_body_front(front);
        assert(tail.drop_last() =~= front.skip(1));
        assert(tail.last() == list.last());
        assert(front[0] == list[0]);
        assert(texts_body(list) =~= text_wire(list[0]) + texts_body(tail));
    }
}

/// The text fields of a list followed by anything are read back as the list.
pub proof fn lemma_text_fields_round_trip(list: Seq<Seq<char>>, rest: Seq<u8>)
    requires
        forall|i: int| 0 <= i < list.len() ==> text_ok(#[trigger] list[i]),
    ensures
        parse_text_fields(texts_body(list) + rest, list.len()) == Some(
            (list, texts_body(list).len() as int),
        ),
    decreases list.len(),
{
    if list.len() == 0 {
        assert(list =~= Seq::<Seq<char>>::empty());
    } else {
        let tail = list.skip(1);
        let s = texts_body(list) + rest;
        lemma_texts_body_front(list);
        assert(s =~= text_wire(list[0]) + (texts_body(tail) + rest));
        lemma_text_round_trip(list[0], texts_body(tail) + rest);
        assert forall|i: int| 0 <= i < tail.len() implies text_ok(#[trigger] tail[i]) by {
            assert(tail[i] == list[i + 1]);
        }
        lemma_text_fields_round_trip(tail, rest);
        assert(seq![list[0]] + tail =~= list);
    }
}

/// A list of texts followed by anything is read back as the list.
pub proof fn lemma_texts_round_trip(list: Seq<Seq<char>>, rest: Seq<u8>)
    requires
        texts_ok(list),
    ensures
        parse_texts(texts_wire(list) + rest) == Some((list, texts_wire(list).len() as int)),
        (texts_wire(list) + rest).skip(texts_wire(list).len() as int) == rest,
{
    let s = texts_wire(list) + rest;
    lemma_word_round_trip(list.len() as u32, texts_body(list) + rest);
    assert(s =~= word_bytes(list.len() as u32) + (texts_body(list) + rest));
    lemma_text_fields_round_trip(list, rest);
    assert(s.skip(texts_wire(list).len() as int) =~= rest);
}

/// Reads the list of texts that starts at `pos`: the texts in order and
/// where the list ends, or nothing where no list stands there.
pub fn get_texts(input: &[u8], pos: usize) -> (r: Option<(Vec<String>, usize)>)
    requires
        pos <= input@.len(),
    ensures
        match (parse_texts(input@.skip(pos as int)), r) {
            (Some((list, used)), Some((got, next))) => string_views(got@) == list && next == pos
                + used && pos <= next <= input@.len(),
            (None, None) => true,
            _ => false,
        },
{
    let ghost s = input@.skip(pos as int);
    if input.len() - pos < 4 {
        return None;
    }
    let count = get_word(input, pos);
    let ghost whole = parse_text_fields(s.skip(4), count as nat);
    let mut list: Vec<String> = Vec::new();
    let mut at: usize = pos + 4;
    let mut i: u32 = 0;
    assert(s.skip(4) =~= input@.skip(at as int));
    assert(string_views(list@) =~= Seq::<Seq<char>>::empty());
    assert(whole == joined_texts(string_views(list@), 0, whole)) by {
        if let Some((rest, more)) = whole {
            assert(string_views(list@) + rest =~= rest);
        }
    }
    while i < count
        invariant
            i <= count,
            pos + 4 <= at <= input@.len(),
            s == input@.skip(pos as int),
            s.len() >= 4,
            count == word_of(s),
            whole == parse_text_fields(s.skip(4), count as nat),
            whole == joined_texts(
                string_views(list@),
                at - pos - 4,
                parse_text_fields(input@.skip(at as int), (count - i) as nat),
            ),
        decreases count - i,
    {
        let ghost here = input@.skip(at as int);
        let ghost done = string_views(list@);
        match get_text(input, at) {
            None => {
                assert(parse_text_fields(here, (count - i) as nat) is None);
                return None;
            },
            Some((text, next)) => {
                proof {
                    let used = next - at;
                    let tail = parse_text_fields(here.skip(used), (count - i - 1) as nat);
                    assert(here.skip(used) =~= input@.skip(next as int));
                    assert(done.push(text@) =~= string_views(list@.push(text)));
                    if let Some((rest, more)) = tail {
                        assert(done + (seq![text@] + rest) =~= done.push(text@) + rest);
                    }
                }
                list.push(text);
                at = next;
                i += 1;
            },
        }
    }
    proof {
        assert(string_views(list@) + Seq::<Seq<char>>::empty() =~= string_views(list@));
    }
    Some((list, at))
}

/// A parsed tail of texts joined to what was parsed before it.
pub open spec fn joined_texts(
    done: Seq<Seq<char>>,
    used: int,
    tail: Option<(Seq<Seq<char>>, int)>,
) -> Option<(Seq<Seq<char>>, int)> {
    match tail {
        None => None,
        Some((rest, more)) => Some((done + rest, used + more)),
    }
}

} // verus!
