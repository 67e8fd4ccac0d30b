//! The environment handed to a spawned process: a mapping from key to value
//! with unique keys, kept in the order in which the keys first came.

use vstd::prelude::*;
use crate::channel::{accepts, answers, exchange};
use crate::command::Command;
use crate::error::Error;
use crate::reply::{decode_unit, encode_reply, reply_wire, unit_reply};
use crate::text::{
    check_text, get_text, lemma_text_round_trip, parse_text, put_text, text_ok, text_wire,
};
use crate::wire::{get_word, lemma_word_round_trip, put_word, word_bytes, word_of};

verus! {

/// Whether some pair of `pairs` has this key.
pub open spec fn has_key(pairs: Seq<(Seq<char>, Seq<char>)>, key: Seq<char>) -> bool {
    exists|i: int| 0 <= i < pairs.len() && (#[trigger] pairs[i]).0 == key
}

/// The place of a pair with this key.
pub open spec fn key_index(pairs: Seq<(Seq<char>, Seq<char>)>, key: Seq<char>) -> int {
    choose|i: int| 0 <= i < pairs.len() && (#[trigger] pairs[i]).0 == key
}

/// No key occurs twice.
pub open spec fn unique_keys(pairs: Seq<(Seq<char>, Seq<char>)>) -> bool {
    forall|i: int, j: int|
        0 <= i < pairs.len() && 0 <= j < pairs.len() && (#[trigger] pairs[i]).0 == (
        #[trigger] pairs[j]).0 ==> i == j
}

/// The mapping that a list of pairs with unique keys stands for.
pub open spec fn pairs_map(pairs: Seq<(Seq<char>, Seq<char>)>) -> Map<Seq<char>, Seq<char>> {
    Map::new(
        |key: Seq<char>| has_key(pairs, key),
        |key: Seq<char>| pairs[key_index(pairs, key)].1,
    )
}

/// The pairs of a list of owned pairs, as values.
pub open spec fn pair_views(entries: Seq<(String, String)>) -> Seq<(Seq<char>, Seq<char>)> {
    entries.map_values(|e: (String, String)| (e.0@, e.1@))
}

/// In a list with unique keys, the pair at `i` is what its key maps to.
pub proof fn lemma_pair_at(pairs: Seq<(Seq<char>, Seq<char>)>, i: int)
    requires
        unique_keys(pairs),
        0 <= i < pairs.len(),
    ensures
        has_key(pairs, pairs[i].0),
        key_index(pairs, pairs[i].0) == i,
        pairs_map(pairs).dom().contains(pairs[i].0),
        pairs_map(pairs)[pairs[i].0] == pairs[i].1,
{
    assert(has_key(pairs, pairs[i].0));
}

/// Replacing the value at `i` maps its key to the new value and leaves every
/// other key as it was.
pub proof fn lemma_pairs_update(pairs: Seq<(Seq<char>, Seq<char>)>, i: int, value: Seq<char>)
    requires
        unique_keys(pairs),
        0 <= i < pairs.len(),
    ensures
        unique_keys(pairs.update(i, (pairs[i].0, value))),
        pairs_map(pairs.update(i, (pairs[i].0, value))) == pairs_map(pairs).insert(
            pairs[i].0,
            value,
        ),
{
    let key = pairs[i].0;
    let after = pairs.update(i, (key, value));
    assert forall|a: int, b: int|
        0 <= a < after.len() && 0 <= b < after.len() && (#[trigger] after[a]).0 == (
        #[trigger] after[b]).0 implies a == b by {
        assert(after[a].0 == pairs[a].0);
        assert(after[b].0 == pairs[b].0);
    }
    assert forall|k: Seq<char>| has_key(after, k) == (has_key(pairs, k) || k == key) by {
        if has_key(after, k) {
            let j = key_index(after, k);
            assert(pairs[j].0 == k);
        }
        if has_key(pairs, k) {
            let j = key_index(pairs, k);
            assert(after[j].0 == k);
        }
        if k == key {
            assert(after[i].0 == k);
        }
    }
    assert forall|k: Seq<char>| has_key(after, k) implies #[trigger] pairs_map(after)[k]
        == pairs_map(pairs).insert(key, value)[k] by {
        let j = key_index(after, k);
        assert(pairs[j].0 == k);
        lemma_pair_at(pairs, j);
        lemma_pair_at(after, j);
    }
    assert(pairs_map(after) =~= pairs_map(pairs).insert(key, value));
}

/// Adding a pair with a new key maps that key to its value and leaves every
/// other key as it was.
pub proof fn lemma_pairs_push(pairs: Seq<(Seq<char>, Seq<char>)>, key: Seq<char>, value: Seq<char>)
    requires
        unique_keys(pairs),
        !has_key(pairs, key),
    ensures
        unique_keys(pairs.push((key, value))),
        pairs_map(pairs.push((key, value))) == pairs_map(pairs).insert(key, value),
{
    let after = pairs.push((key, value));
    assert forall|a: int, b: int|
        0 <= a < after.len() && 0 <= b < after.len() && (#[trigger] after[a]).0 == (
        #[trigger] after[b]).0 implies a == b by {
        if a < pairs.len() {
            assert(after[a] == pairs[a]);
        }
        if b < pairs.len() {
            assert(after[b] == pairs[b]);
        }
    }
    assert forall|k: Seq<char>| has_key(after, k) == (has_key(pairs, k) || k == key) by {
        if has_key(after, k) {
            let j = key_index(after, k);
            if j < pairs.len() {
                assert(pairs[j].0 == k);
            }
        }
        if has_key(pairs, k) {
            let j = key_index(pairs, k);
            assert(after[j].0 == k);
        }
        if k == key {
            assert(after[pairs.len() as int].0 == k);
        }
    }
    assert forall|k: Seq<char>| has_key(after, k) implies #[trigger] pairs_map(after)[k]
        == pairs_map(pairs).insert(key, value)[k] by {
        let j = key_index(after, k);
        lemma_pair_at(after, j);
        if j < pairs.len() {
            assert(pairs[j] == after[j]);
            lemma_pair_at(pairs, j);
        }
    }
    assert(pairs_map(after) =~= pairs_map(pairs).insert(key, value));
}

/// Taking the pair at `i` out leaves its key unmapped and every other key as
/// it was.
pub proof fn lemma_pairs_remove(pairs: Seq<(Seq<char>, Seq<char>)>, i: int)
    requires
        unique_keys(pairs),
        0 <= i < pairs.len(),
    ensures
        unique_keys(pairs.remove(i)),
        pairs_map(pairs.remove(i)) == pairs_map(pairs).remove(pairs[i].0),
{
    let key = pairs[i].0;
    let after = pairs.remove(i);
    assert forall|a: int| 0 <= a < after.len() implies #[trigger] after[a] == pairs[if a < i {
        a
    } else {
        a + 1
    }] by {}
    assert forall|a: int, b: int|
        0 <= a < after.len() && 0 <= b < after.len() && (#[trigger] after[a]).0 == (
        #[trigger] after[b]).0 implies a == b by {
        let a0 = if a < i { a } else { a + 1 };
        let b0 = if b < i { b } else { b + 1 };
        assert(after[a] == pairs[a0]);
        assert(after[b] == pairs[b0]);
    }
    assert forall|k: Seq<char>| has_key(after, k) == (has_key(pairs, k) && k != key) by {
        if has_key(after, k) {
            let j = key_index(after, k);
            let j0 = if j < i { j } else { j + 1 };
            assert(after[j] == pairs[j0]);
            assert(pairs[j0].0 == k);
        }
        if has_key(pairs, k) && k != key {
            let j = key_index(pairs, k);
            let j1 = if j < i { j } else { j - 1 };
            assert(after[j1] == pairs[j]);
            assert(after[j1].0 == k);
        }
    }
    assert forall|k: Seq<char>| has_key(after, k) implies #[trigger] pairs_map(after)[k]
        == pairs_map(pairs).remove(key)[k] by {
        let j = key_index(after, k);
        let j0 = if j < i { j } else { j + 1 };
        assert(after[j] == pairs[j0]);
        lemma_pair_at(after, j);
        lemma_pair_at(pairs, j0);
    }
    assert(pairs_map(after) =~= pairs_map(pairs).remove(key));
}

/// A mapping from key to value with unique keys.
#[derive(Debug)]
pub struct Environment {
    entries: Vec<(String, String)>,
}

impl View for Environment {
    type V = Map<Seq<char>, Seq<char>>;

    open spec fn view(&self) -> Map<Seq<char>, Seq<char>> {
        pairs_map(self.pairs())
    }
}

impl Environment {
    /// The invariant of the type: no key occurs twice.
    pub open spec fn wf(&self) -> bool {
        unique_keys(self.pairs())
    }

    /// The pairs in the order in which their keys first came.
    pub closed spec fn pairs(&self) -> Seq<(Seq<char>, Seq<char>)> {
        pair_views(self.entries@)
    }

    /// An environment without a key.
    pub fn new() -> (env: Environment)
        ensures
            env.wf(),
            env.pairs() == Seq::<(Seq<char>, Seq<char>)>::empty(),
            env@ == Map::<Seq<char>, Seq<char>>::empty(),
    {
        let env = Environment { entries: Vec::new() };
        assert(env.pairs() =~= Seq::<(Seq<char>, Seq<char>)>::empty());
        assert(env@ =~= Map::<Seq<char>, Seq<char>>::empty());
        env
    }

    /// The number of keys.
    pub fn len(&self) -> (n: usize)
        ensures
            n == self.pairs().len(),
    {
        self.entries.len()
    }

    /// The key and the value at `i`, in the order in which the keys came.
    pub fn entry(&self, i: usize) -> (pair: (&str, &str))
        requires
            i < self.pairs().len(),
        ensures
            pair.0@ == self.pairs()[i as int].0,
            pair.1@ == self.pairs()[i as int].1,
    {
        (self.entries[i].0.as_str(), self.entries[i].1.as_str())
    }

    /// Where the key stands, if it is there.
    fn find(&self, key: &String) -> (place: Option<usize>)
        ensures
            match place {
                Some(i) => i < self.pairs().len() && self.pairs()[i as int].0 == key@,
                None => !has_key(self.pairs(), key@),
            },
    {
        let mut i: usize = 0;
        while i < self.entries.len()
            invariant
                i <= self.entries@.len(),
                forall|j: int| 0 <= j < i ==> (#[trigger] self.pairs()[j]).0 != key@,
            decreases self.entries@.len() - i,
        {
            if self.entries[i].0 == *key {
                return Some(i);
            }
            i += 1;
        }
        None
    }

    /// The value of a key, if the key is there.
    pub fn get(&self, key: &str) -> (value: Option<&str>)
        requires
            self.wf(),
        ensures
            match value {
                Some(v) => self@.dom().contains(key@) && self@[key@] == v@,
                None => !self@.dom().contains(key@),
            },
    {
        let owned = key.to_owned();
        match self.find(&owned) {
            Some(i) => {
                proof {
                    lemma_pair_at(self.pairs(), i as int);
                }
                Some(self.entries[i].1.as_str())
            },
            None => None,
        }
    }

    /// Sets a key to a value, or clears the key where no value is given.
    /// Every other key keeps its value.
    pub fn set(&mut self, key: &str, value: Option<&str>)
        requires
            old(self).wf(),
        ensures
            final(self).wf(),
            final(self)@ == match value {
                Some(v) => old(self)@.insert(key@, v@),
                None => old(self)@.remove(key@),
            },
    {
        let owned = key.to_owned();
        let place = self.find(&owned);
        let ghost before = self.pairs();
        match (place, value) {
            (Some(i), Some(v)) => {
                proof {
                    lemma_pairs_update(before, i as int, v@);
                }
                self.entries.set(i, (owned, v.to_owned()));
                assert(self.pairs() =~= before.update(i as int, (key@, v@)));
            },
            (None, Some(v)) => {
                proof {
                    lemma_pairs_push(before, key@, v@);
                }
                self.entries.push((owned, v.to_owned()));
                assert(self.pairs() =~= before.push((key@, v@)));
            },
            (Some(i), None) => {
                proof {
                    lemma_pairs_remove(before, i as int);
                }
                self.entries.remove(i);
                assert(self.pairs() =~= before.remove(i as int));
            },
            (None, None) => {
                assert(self@ =~= self@.remove(key@));
            },
        }
    }
}

/// Whether a list of pairs can travel: every key and value can, and the
/// count fits a word.
pub open spec fn pairs_ok(pairs: Seq<(Seq<char>, Seq<char>)>) -> bool {
    &&& pairs.len() <= u32::MAX
    &&& forall|i: int|
        0 <= i < pairs.len() ==> text_ok((#[trigger] pairs[i]).0) && text_ok(pairs[i].1)
}

/// The pairs one after the other, each as its key and then its value.
pub open spec fn pairs_body(pairs: Seq<(Seq<char>, Seq<char>)>) -> Seq<u8>
    decreases pairs.len(),
{
    if pairs.len() == 0 {
        Seq::empty()
    } else {
        pairs_body(pairs.drop_last()) + text_wire(pairs.last().0) + text_wire(pairs.last().1)
    }
}

/// An environment as it travels: the number of keys, then each key with its
/// value, in the order in which the keys first came.
pub open spec fn pairs_wire(pairs: Seq<(Seq<char>, Seq<char>)>) -> Seq<u8> {
    word_bytes(pairs.len() as u32) + pairs_body(pairs)
}

/// Whether every key and value of the environment can travel.
pub fn check_env(env: &Environment) -> (ok: bool)
    ensures
        ok == pairs_ok(env.pairs()),
{
    if env.len() > u32::MAX as usize {
        return false;
    }
    let mut i: usize = 0;
    while i < env.len()
        invariant
            i <= env.pairs().len(),
            forall|j: int|
                0 <= j < i ==> text_ok((#[trigger] env.pairs()[j]).0) && text_ok(
                    env.pairs()[j].1,
                ),
        decreases env.pairs().len() - i,
    {
        let (key, value) = env.entry(i);
        if !check_text(key) || !check_text(value) {
            assert(!(text_ok(env.pairs()[i as int].0) && text_ok(env.pairs()[i as int].1)));
            return false;
        }
        i += 1;
    }
    true
}

/// Appends an environment: the number of keys, then each key and value.
pub fn put_env(out: &mut Vec<u8>, env: &Environment)
    requires
        pairs_ok(env.pairs()),
    ensures
        final(out)@ == old(out)@ + pairs_wire(env.pairs()),
{
    put_word(out, env.len() as u32);
    let ghost start = out@;
    let ghost all = env.pairs();
    let mut i: usize = 0;
    while i < env.len()
        invariant
            i <= all.len(),
            all == env.pairs(),
            pairs_ok(all),
            out@ == start + pairs_body(all.take(i as int)),
        decreases all.len() - i,
    {
        let (key, value) = env.entry(i);
        assert(text_ok(all[i as int].0) && text_ok(all[i as int].1));
        put_text(out, key);
        put_text(out, value);
        proof {
            assert(all.take(i + 1).drop_last() =~= all.take(i as int));
            assert(out@ =~= start + pairs_body(all.take(i + 1)));
        }
        i += 1;
    }
    assert(all.take(i as int) =~= all);
    assert(out@ =~= old(out)@ + pairs_wire(all));
}

/// Whether a change of one variable can be encoded: the key can travel, and
/// so can the value where one is given.
pub open spec fn set_env_ok(key: Seq<char>, value: Option<Seq<char>>) -> bool {
    text_ok(key) && (value is Some ==> text_ok(value->0))
}

/// A change of one variable on the wire: the command, the key, and then
/// either the word one and the value, or the word zero where the variable is
/// to be cleared. Clearing and setting to the empty text differ.
pub open spec fn set_env_wire(key: Seq<char>, value: Option<Seq<char>>) -> Seq<u8> {
    word_bytes(Command::SetEnv.spec_id()) + text_wire(key) + match value {
        Some(v) => word_bytes(1) + text_wire(v),
        None => word_bytes(0),
    }
}

/// The change of one variable that `s` encodes, or nothing where it encodes
/// none.
pub open spec fn parse_set_env(s: Seq<u8>) -> Option<(Seq<char>, Option<Seq<char>>)> {
    if s.len() < 4 || word_of(s) != Command::SetEnv.spec_id() {
        None
    } else {
        match parse_text(s.skip(4)) {
            None => None,
            Some((key, used)) => {
                let rest = s.skip(4 + used);
                if rest.len() < 4 {
                    None
                } else if word_of(rest) == 0 {
                    if rest.len() == 4 {
                        Some((key, None))
                    } else {
                        None
                    }
                } else if word_of(rest) == 1 {
                    match parse_text(rest.skip(4)) {
                        Some((value, more)) if 4 + more == rest.len() => Some((key, Some(value))),
                        _ => None,
                    }
                } else {
                    None
                }
            },
        }
    }
}

/// The environment after the host has carried out a request: the variable
/// set or cleared as the request says, and no change where the request
/// encodes no change of a variable.
pub open spec fn env_after(before: Map<Seq<char>, Seq<char>>, request: Seq<u8>) -> Map<
    Seq<char>,
    Seq<char>,
> {
    match parse_set_env(request) {
        Some((key, Some(value))) => before.insert(key, value),
        Some((key, None)) => before.remove(key),
        None => before,
    }
}

/// An encoded change of a variable is read back as the same key and value.
pub proof fn set_env_round_trip(key: Seq<char>, value: Option<Seq<char>>)
    requires
        set_env_ok(key, value),
    ensures
        parse_set_env(set_env_wire(key, value)) == Some((key, value)),
{
    let s = set_env_wire(key, value);
    let tail = match value {
        Some(v) => word_bytes(1) + text_wire(v),
        None => word_bytes(0),
    };
    lemma_word_round_trip(Command::SetEnv.spec_id(), text_wire(key) + tail);
    assert(s =~= word_bytes(Command::SetEnv.spec_id()) + (text_wire(key) + tail));
    lemma_text_round_trip(key, tail);
    let used = text_wire(key).len() as int;
    assert(s.skip(4 + used) =~= s.skip(4).skip(used));
    match value {
        Some(v) => {
            lemma_word_round_trip(1, text_wire(v));
            lemma_text_round_trip(v, Seq::empty());
            assert(text_wire(v) + Seq::<u8>::empty() =~= text_wire(v));
        },
        None => {
            lemma_word_round_trip(0, Seq::empty());
            assert(word_bytes(0) + Seq::<u8>::empty() =~= word_bytes(0));
        },
    }
}

/// After the host has carried out a request that sets a key to a value, a
/// lookup of the key finds that value; after one that clears the key, the key
/// is absent. Every other key is as it was.
pub proof fn set_env_observed(
    before: Map<Seq<char>, Seq<char>>,
    key: Seq<char>,
    value: Option<Seq<char>>,
)
    requires
        set_env_ok(key, value),
    ensures
        ({
            let after = env_after(before, set_env_wire(key, value));
            &&& match value {
                Some(v) => after.dom().contains(key) && after[key] == v,
                None => !after.dom().contains(key),
            }
            &&& forall|other: Seq<char>|
                other != key ==> (after.dom().contains(other) <==> before.dom().contains(other))
                    && (after.dom().contains(other) ==> after[other] == before[other])
        }),
{
    set_env_round_trip(key, value);
}

/// Checks and encodes a change of one variable.
pub fn set_env_request(key: &str, val: Option<&str>) -> (r: Result<Vec<u8>, Error>)
    ensures
        match r {
            Ok(request) => set_env_ok(key@, option_view(val)) && request@ == set_env_wire(
                key@,
                option_view(val),
            ),
            Err(e) => !set_env_ok(key@, option_view(val)) && e == Error::InvalidArgument,
        },
{
    if !check_text(key) {
        return Err(Error::InvalidArgument);
    }
    let mut out: Vec<u8> = Vec::new();
    put_word(&mut out, Command::SetEnv.id());
    put_text(&mut out, key);
    match val {
        Some(v) => {
            if !check_text(v) {
                return Err(Error::InvalidArgument);
            }
            put_word(&mut out, 1);
            put_text(&mut out, v);
        },
        None => {
            put_word(&mut out, 0);
        },
    }
    assert(out@ =~= set_env_wire(key@, option_view(val)));
    Ok(out)
}

/// The text of an optional string slice.
pub open spec fn option_view(val: Option<&str>) -> Option<Seq<char>> {
    match val {
        Some(v) => Some(v@),
        None => None,
    }
}

/// Sets a variable of the caller's environment on the host, or clears it
/// where no value is given. A key or value that cannot travel fails with
/// `InvalidArgument` and the host is not called; otherwise the host is called
/// once and the result is what its reply says.
pub fn set_env<H: FnOnce(Vec<u8>) -> Vec<u8>>(host: H, key: &str, val: Option<&str>) -> (r:
    Result<(), Error>)
    requires
        set_env_ok(key@, option_view(val)) ==> accepts(
            host,
            set_env_wire(key@, option_view(val)),
        ),
    ensures
        !set_env_ok(key@, option_view(val)) ==> r == Err::<(), Error>(Error::InvalidArgument),
        set_env_ok(key@, option_view(val)) ==> exists|reply: Seq<u8>|
            answers(host, set_env_wire(key@, option_view(val)), reply) && r == unit_reply(
                Command::SetEnv.spec_id(),
                reply,
            ),
{
    match set_env_request(key, val) {
        Err(e) => Err(e),
        Ok(request) => {
            let reply = exchange(host, request);
            decode_unit(Command::SetEnv.id(), reply.as_slice())
        },
    }
}

/// Decodes a change of one variable, as the host does: the key and the
/// value, or nothing where the request encodes no such change.
pub fn decode_set_env(request: &[u8]) -> (r: Option<(String, Option<String>)>)
    ensures
        match (parse_set_env(request@), r) {
            (Some((key, Some(value))), Some((k, Some(v)))) => k@ == key && v@ == value,
            (Some((key, None)), Some((k, None))) => k@ == key,
            (None, None) => true,
            _ => false,
        },
{
    if request.len() < 4 {
        return None;
    }
    assert(request@.skip(0) =~= request@);
    if get_word(request, 0) != Command::SetEnv.id() {
        return None;
    }
    match get_text(request, 4) {
        None => None,
        Some((key, at)) => {
            let ghost rest = request@.skip(at as int);
            if request.len() - at < 4 {
                return None;
            }
            let flag = get_word(request, at);
            if flag == 0 {
                if request.len() - at == 4 {
                    Some((key, None))
                } else {
                    None
                }
            } else if flag == 1 {
                assert(rest.skip(4) =~= request@.skip(at + 4));
                match get_text(request, at + 4) {
                    None => None,
                    Some((value, end)) => {
                        if end == request.len() {
                            Some((key, Some(value)))
                        } else {
                            None
                        }
                    },
                }
            } else {
                None
            }
        },
    }
}

impl Environment {
    /// Carries out a request on the environment, as the host does: where the
    /// request encodes a change of a variable, the variable is set or
    /// cleared and the reply reports success; otherwise nothing changes and
    /// the reply reports an invalid argument.
    pub fn serve(&mut self, request: &[u8]) -> (reply: Vec<u8>)
        requires
            old(self).wf(),
        ensures
            final(self).wf(),
            final(self)@ == env_after(old(self)@, request@),
            reply@ == reply_wire(
                Command::SetEnv.spec_id(),
                if parse_set_env(request@) is Some {
                    0i32
                } else {
                    (-Error::InvalidArgument.spec_code()) as i32
                },
                Seq::empty(),
            ),
    {
        let empty: Vec<u8> = Vec::new();
        match decode_set_env(request) {
            None => encode_reply(Command::SetEnv.id(), -Error::InvalidArgument.code(), empty.as_slice()),
            Some((key, value)) => {
                match value {
                    Some(v) => self.set(key.as_str(), Some(v.as_str())),
                    None => self.set(key.as_str(), None),
                }
                encode_reply(Command::SetEnv.id(), 0, empty.as_slice())
            },
        }
    }
}

/// A parsed tail of pairs joined to what was parsed before it.
pub open spec fn joined_pairs(
    done: Seq<(Seq<char>, Seq<char>)>,
    used: int,
    tail: Option<(Seq<(Seq<char>, Seq<char>)>, int)>,
) -> Option<(Seq<(Seq<char>, Seq<char>)>, int)> {
    match tail {
        None => None,
        Some((rest, more)) => Some((done + rest, used + more)),
    }
}

/// The pair at the head of `s`, key and then value, and the bytes it takes.
pub open spec fn parse_pair(s: Seq<u8>) -> Option<((Seq<char>, Seq<char>), int)> {
    match parse_text(s) {
        None => None,
        Some((key, used)) => match parse_text(s.skip(used)) {
            None => None,
            Some((value, more)) => Some(((key, value), used + more)),
        },
    }
}

/// The `count` pairs at the head of `s` and the bytes they take.
pub open spec fn parse_pair_fields(s: Seq<u8>, count: nat) -> Option<
    (Seq<(Seq<char>, Seq<char>)>, int),
>
    decreases count,
{
    if count == 0 {
        Some((Seq::empty(), 0))
    } else {
        match parse_pair(s) {
            None => None,
            Some((first, used)) => joined_pairs(
                seq![first],
                used,
                parse_pair_fields(s.skip(used), (count - 1) as nat),
            ),
        }
    }
}

/// The list of pairs at the head of `s`, count first, and the bytes it takes.
pub open spec fn parse_pairs(s: Seq<u8>) -> Option<(Seq<(Seq<char>, Seq<char>)>, int)> {
    if s.len() < 4 {
        None
    } else {
        joined_pairs(Seq::empty(), 4, parse_pair_fields(s.skip(4), word_of(s) as nat))
    }
}

/// The fields of a list of pairs start with the key and value of its first.
pub proof fn lemma_pairs_body_front(pairs: Seq<(Seq<char>, Seq<char>)>)
    requires
        pairs.len() > 0,
    ensures
        pairs_body(pairs) == text_wire(pairs[0].0) + text_wire(pairs[0].1) + pairs_body(
            pairs.skip(1),
        ),
    decreases pairs.len(),
{
    let head = text_wire(pairs[0].0) + text_wire(pairs[0].1);
    if pairs.len() == 1 {
        assert(pairs.drop_last() =~= Seq::<(Seq<char>, Seq<char>)>::empty());
        assert(pairs.skip(1) =~= Seq::<(Seq<char>, Seq<char>)>::empty());
        assert(pairs_body(pairs.drop_last()) =~= Seq::<u8>::empty());
        assert(pairs_body(pairs) =~= head + pairs_body(pairs.skip(1)));
    } else {
        let front = pairs.drop_last();
        let tail = pairs.skip(1);
        lemma_pairs_body_front(front);
        assert(tail.drop_last() =~= front.skip(1));
        assert(tail.last() == pairs.last());
        assert(front[0] == pairs[0]);
        assert(pairs_body(pairs) =~= head + pairs_body(tail));
    }
}

/// An encoded pair followed by anything is read back as the pair.
pub proof fn lemma_pair_round_trip(key: Seq<char>, value: Seq<char>, rest: Seq<u8>)
    requires
        text_ok(key),
        text_ok(value),
    ensures
        parse_pair(text_wire(key) + text_wire(value) + rest) == Some(
            ((key, value), (text_wire(key).len() + text_wire(value).len()) as int),
        ),
        (text_wire(key) + text_wire(value) + rest).skip(
            (text_wire(key).len() + text_wire(value).len()) as int,
        ) == rest,
{
    let s = text_wire(key) + text_wire(value) + rest;
    assert(s =~= text_wire(key) + (text_wire(value) + rest));
    lemma_text_round_trip(key, text_wire(value) + rest);
    lemma_text_round_trip(value, rest);
    assert(s.skip((text_wire(key).len() + text_wire(value).len()) as int) =~= rest);
}

/// The fields of a list of pairs followed by anything are read back as the
/// list.
pub proof fn lemma_pair_fields_round_trip(pairs: Seq<(Seq<char>, Seq<char>)>, rest: Seq<u8>)
    requires
        forall|i: int|
            0 <= i < pairs.len() ==> text_ok((#[trigger] pairs[i]).0) && text_ok(pairs[i].1),
    ensures
        parse_pair_fields(pairs_body(pairs) + rest, pairs.len()) == Some(
            (pairs, pairs_body(pairs).len() as int),
        ),
    decreases pairs.len(),
{
    if pairs.len() == 0 {
        assert(pairs =~= Seq::<(Seq<char>, Seq<char>)>::empty());
    } else {
        let tail = pairs.skip(1);
        let s = pairs_body(pairs) + rest;
        lemma_pairs_body_front(pairs);
        assert(s =~= text_wire(pairs[0].0) + text_wire(pairs[0].1) + (pairs_body(tail) + rest));
        lemma_pair_round_trip(pairs[0].0, pairs[0].1, pairs_body(tail) + rest);
        assert forall|i: int| 0 <= i < tail.len() implies text_ok((#[trigger] tail[i]).0)
            && text_ok(tail[i].1) by {
            assert(tail[i] == pairs[i + 1]);
        }
        lemma_pair_fields_round_trip(tail, rest);
        assert(seq![pairs[0]] + tail =~= pairs);
    }
}

/// An encoded list of pairs followed by anything is read back as the list.
pub proof fn lemma_pairs_round_trip(pairs: Seq<(Seq<char>, Seq<char>)>, rest: Seq<u8>)
    requires
        pairs_ok(pairs),
    ensures
        parse_pairs(pairs_wire(pairs) + rest) == Some((pairs, pairs_wire(pairs).len() as int)),
        (pairs_wire(pairs) + rest).skip(pairs_wire(pairs).len() as int) == rest,
{
    let s = pairs_wire(pairs) + rest;
    lemma_word_round_trip(pairs.len() as u32, pairs_body(pairs) + rest);
    assert(s =~= word_bytes(pairs.len() as u32) + (pairs_body(pairs) + rest));
    lemma_pair_fields_round_trip(pairs, rest);
    assert(Seq::<(Seq<char>, Seq<char>)>::empty() + pairs =~= pairs);
    assert(s.skip(pairs_wire(pairs).len() as int) =~= rest);
}

/// Reads the pair that starts at `pos`.
fn get_pair(input: &[u8], pos: usize) -> (r: Option<((String, String), usize)>)
    requires
        pos <= input@.len(),
    ensures
        match (parse_pair(input@.skip(pos as int)), r) {
            (Some((pair, used)), Some((got, next))) => got.0@ == pair.0 && got.1@ == pair.1
                && next == pos + used && pos <= next <= input@.len(),
            (None, None) => true,
            _ => false,
        },
{
    match get_text(input, pos) {
        None => None,
        Some((key, at)) => {
            assert(input@.skip(pos as int).skip(at - pos) =~= input@.skip(at as int));
            match get_text(input, at) {
                None => None,
                Some((value, next)) => Some(((key, value), next)),
            }
        },
    }
}

/// Reads the list of pairs that starts at `pos`: the pairs in order and
/// where the list ends, or nothing where no list stands there.
pub fn get_pairs(input: &[u8], pos: usize) -> (r: Option<(Vec<(String, String)>, usize)>)
    requires
        pos <= input@.len(),
    ensures
        match (parse_pairs(input@.skip(pos as int)), r) {
            (Some((pairs, used)), Some((got, next))) => pair_views(got@) == pairs && next == pos
                + used && pos <= next <= input@.len(),
            (None, None) => true,
            _ => false,
        },
{
    let ghost s = input@.skip(pos as int);
    if input.len() - pos < 4 {
        return None;
    }
    let count = get_word(input, pos);
    let ghost whole = parse_pair_fields(s.skip(4), count as nat);
    let mut list: Vec<(String, String)> = Vec::new();
    let mut at: usize = pos + 4;
    let mut i: u32 = 0;
    assert(s.skip(4) =~= input@.skip(at as int));
    assert(pair_views(list@) =~= Seq::<(Seq<char>, Seq<char>)>::empty());
    assert(parse_pairs(s) == joined_pairs(pair_views(list@), 4, whole));
    while i < count
        invariant
            i <= count,
            pos + 4 <= at <= input@.len(),
            s == input@.skip(pos as int),
            parse_pairs(s) == joined_pairs(
                pair_views(list@),
                at - pos,
                parse_pair_fields(input@.skip(at as int), (count - i) as nat),
            ),
        decreases count - i,
    {
        let ghost here = input@.skip(at as int);
        let ghost done = pair_views(list@);
        match get_pair(input, at) {
            None => {
                assert(parse_pair_fields(here, (count - i) as nat) is None);
                return None;
            },
            Some((pair, next)) => {
                proof {
                    let used = next - at;
                    let tail = parse_pair_fields(here.skip(used), (count - i - 1) as nat);
                    let value = (pair.0@, pair.1@);
                    assert(here.skip(used) =~= input@.skip(next as int));
                    assert(done.push(value) =~= pair_views(list@.push(pair)));
                    if let Some((rest, more)) = tail {
                        assert(done + (seq![value] + rest) =~= done.push(value) + rest);
                    }
                }
                list.push(pair);
                at = next;
                i += 1;
            },
        }
    }
    proof {
        assert(pair_views(list@) + Seq::<(Seq<char>, Seq<char>)>::empty() =~= pair_views(list@));
    }
    Some((list, at))
}

impl Environment {
    /// The environment that holds exactly these pairs, in this order, or
    /// nothing where a key occurs twice.
    pub fn from_pairs(entries: Vec<(String, String)>) -> (r: Option<Environment>)
        ensures
            match r {
                Some(env) => env.wf() && env.pairs() == pair_views(entries@),
                None => !unique_keys(pair_views(entries@)),
            },
    {
        let ghost all = pair_views(entries@);
        let mut i: usize = 0;
        while i < entries.len()
            invariant
                i <= entries@.len(),
                all == pair_views(entries@),
                forall|a: int, b: int|
                    0 <= a < b < i ==> (#[trigger] all[a]).0 != (#[trigger] all[b]).0,
            decreases entries@.len() - i,
        {
            let mut j: usize = 0;
            while j < i
                invariant
                    j <= i < entries@.len(),
                    all == pair_views(entries@),
                    forall|a: int| 0 <= a < j ==> (#[trigger] all[a]).0 != all[i as int].0,
                decreases i - j,
            {
                if entries[j].0 == entries[i].0 {
                    assert(all[j as int].0 == all[i as int].0);
                    return None;
                }
                j += 1;
            }
            i += 1;
        }
        assert forall|a: int, b: int|
            0 <= a < all.len() && 0 <= b < all.len() && (#[trigger] all[a]).0 == (
            #[trigger] all[b]).0 implies a == b by {
            if a < b {
                assert(all[a].0 != all[b].0);
            } else if b < a {
                assert(all[b].0 != all[a].0);
            }
        }
        Some(Environment { entries })
    }
}

} // verus!
