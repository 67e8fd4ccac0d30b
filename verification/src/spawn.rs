//! Launching a process: the request is checked and encoded, handed to the
//! host exactly once, and the reply is decoded into an exit status with the
//! captured output (foreground) or into the child's identifier (background).

use vstd::prelude::*;
use crate::channel::{accepts, answers, exchange};
use crate::command::Command;
use crate::env::{
    check_env, get_pairs, lemma_pairs_round_trip, pairs_ok, pairs_wire, parse_pairs, put_env,
    unique_keys, Environment,
};
use crate::error::{Error, ExitCode, Pid};
use crate::redirect::{
    check_redirects, get_redirects, lemma_redirects_prefix_round_trip, parse_redirects_prefix,
    put_redirects, redirects_ok, redirects_wire, views, Redirect, RedirectView,
};
use crate::reply::{decode_status, reply_status};
use crate::text::{
    check_text, check_texts, get_text, get_texts, lemma_text_round_trip, lemma_texts_round_trip,
    parse_text, parse_texts, put_text, put_texts, str_views, string_views, text_ok, text_wire,
    texts_ok, texts_wire,
};
use crate::wire::{
    bits_signed, copy_range, from_bits, get_word, lemma_word_round_trip, put_word, word_bytes,
    word_of,
};

verus! {

/// What a launch came to.
#[derive(Debug, Clone, PartialEq, Eq)]
pub enum SpawnResult {
    /// A foreground process ran to its end.
    Completed { exit_status: ExitCode, output: Vec<u8> },
    /// A background process was handed over; its exit is not observed here.
    Detached { accepted: bool, child_pid: Pid },
}

/// A launch result as a mathematical value.
pub enum SpawnResultView {
    Completed { exit_status: ExitCode, output: Seq<u8> },
    Detached { accepted: bool, child_pid: Pid },
}

impl View for SpawnResult {
    type V = SpawnResultView;

    open spec fn view(&self) -> SpawnResultView {
        match *self {
            SpawnResult::Completed { exit_status, output } => SpawnResultView::Completed {
                exit_status,
                output: output@,
            },
            SpawnResult::Detached { accepted, child_pid } => SpawnResultView::Detached {
                accepted,
                child_pid,
            },
        }
    }
}

/// Whether a launch can be encoded: every text can travel and every list can
/// be counted.
pub open spec fn spawn_ok(
    path: Seq<char>,
    args: Seq<Seq<char>>,
    env: Seq<(Seq<char>, Seq<char>)>,
    redirects: Seq<RedirectView>,
    cwd: Seq<char>,
) -> bool {
    &&& text_ok(path)
    &&& texts_ok(args)
    &&& pairs_ok(env)
    &&& redirects_ok(redirects)
    &&& text_ok(cwd)
}

/// A launch request on the wire: the command, the executable's path, the
/// arguments, the environment, the background flag, the redirects in list
/// order, and the working directory.
pub open spec fn spawn_wire(
    path: Seq<char>,
    args: Seq<Seq<char>>,
    env: Seq<(Seq<char>, Seq<char>)>,
    background: bool,
    redirects: Seq<RedirectView>,
    cwd: Seq<char>,
) -> Seq<u8> {
    word_bytes(Command::Spawn.spec_id()) + text_wire(path) + texts_wire(args) + pairs_wire(env)
        + word_bytes(if background { 1u32 } else { 0u32 }) + redirects_wire(redirects) + text_wire(cwd)
}

/// What the reply to a launch says. A foreground reply carries the exit
/// status in its header and the captured output as all that follows, so no
/// byte of the output can be taken for a separator. A background reply
/// carries the child's identifier in one word and nothing else; it is accepted
/// where the status is zero, and an accepted child has a positive identifier.
pub open spec fn spawn_reply(background: bool, reply: Seq<u8>) -> Result<SpawnResultView, Error> {
    match reply_status(Command::Spawn.spec_id(), reply) {
        Err(e) => Err(e),
        Ok(status) => if !background {
            Ok(SpawnResultView::Completed { exit_status: status, output: reply.skip(8) })
        } else if reply.len() < 12 {
            Err(Error::TruncatedResponse)
        } else if reply.len() > 12 {
            Err(Error::MalformedResponse)
        } else {
            let child_pid = bits_signed(word_of(reply.skip(8)));
            if status == 0 && child_pid <= 0 {
                Err(Error::MalformedResponse)
            } else {
                Ok(SpawnResultView::Detached { accepted: status == 0, child_pid })
            }
        },
    }
}

/// Checks and encodes a launch request. Nothing is encoded where any part of
/// it cannot travel.
pub fn spawn_request(
    path: &str,
    args: &[&str],
    env: &Environment,
    background: bool,
    redirects: &[Redirect],
    cwd: &str,
) -> (r: Result<Vec<u8>, Error>)
    ensures
        match r {
            Ok(request) => spawn_ok(path@, str_views(args@), env.pairs(), views(redirects@), cwd@)
                && request@ == spawn_wire(
                path@,
                str_views(args@),
                env.pairs(),
                background,
                views(redirects@),
                cwd@,
            ),
            Err(e) => !spawn_ok(path@, str_views(args@), env.pairs(), views(redirects@), cwd@)
                && e == Error::InvalidArgument,
        },
{
    if !check_text(path) || !check_texts(args) || !check_env(env) || !check_redirects(redirects)
        || !check_text(cwd) {
        return Err(Error::InvalidArgument);
    }
    let mut out: Vec<u8> = Vec::new();
    put_word(&mut out, Command::Spawn.id());
    put_text(&mut out, path);
    put_texts(&mut out, args);
    put_env(&mut out, env);
    put_word(&mut out, if background { 1 } else { 0 });
    put_redirects(&mut out, redirects);
    put_text(&mut out, cwd);
    assert(out@ =~= spawn_wire(
        path@,
        str_views(args@),
        env.pairs(),
        background,
        views(redirects@),
        cwd@,
    ));
    Ok(out)
}

/// Decodes the reply to a launch.
pub fn decode_spawn_reply(background: bool, reply: &[u8]) -> (r: Result<SpawnResult, Error>)
    ensures
        match (spawn_reply(background, reply@), r) {
            (Ok(expected), Ok(result)) => result@ == expected,
            (Err(expected), Err(e)) => e == expected,
            _ => false,
        },
{
    match decode_status(Command::Spawn.id(), reply) {
        Err(e) => Err(e),
        Ok(status) => {
            if !background {
                let output = copy_range(reply, 8, reply.len());
                assert(output@ =~= reply@.skip(8));
                Ok(SpawnResult::Completed { exit_status: status, output })
            } else if reply.len() < 12 {
                Err(Error::TruncatedResponse)
            } else if reply.len() > 12 {
                Err(Error::MalformedResponse)
            } else {
                let child_pid = from_bits(get_word(reply, 8));
                if status == 0 && child_pid <= 0 {
                    Err(Error::MalformedResponse)
                } else {
                    Ok(SpawnResult::Detached { accepted: status == 0, child_pid })
                }
            }
        },
    }
}

/// A foreground launch never yields a child identifier and a background
/// launch never yields captured output; a child that was accepted has a
/// positive identifier.
pub proof fn spawn_reply_kind(background: bool, reply: Seq<u8>)
    ensures
        match spawn_reply(background, reply) {
            Ok(SpawnResultView::Completed { exit_status, .. }) => !background && exit_status >= 0,
            Ok(SpawnResultView::Detached { accepted, child_pid }) => background && (accepted
                ==> child_pid > 0),
            Err(_) => true,
        },
{
}

/// Launches a process. A request that cannot be encoded fails with
/// `InvalidArgument` and the host is not called; otherwise the host is called
/// with the encoded request, once, and the result is what its reply says.
pub fn spawn<H: FnOnce(Vec<u8>) -> Vec<u8>>(
    host: H,
    path: &str,
    args: &[&str],
    env: &Environment,
    background: bool,
    redirects: &[Redirect],
    cwd: &str,
) -> (r: Result<SpawnResult, Error>)
    requires
        spawn_ok(path@, str_views(args@), env.pairs(), views(redirects@), cwd@) ==> accepts(
            host,
            spawn_wire(path@, str_views(args@), env.pairs(), background, views(redirects@), cwd@),
        ),
    ensures
        !spawn_ok(path@, str_views(args@), env.pairs(), views(redirects@), cwd@) ==> r == Err::<
            SpawnResult,
            Error,
        >(Error::InvalidArgument),
        spawn_ok(path@, str_views(args@), env.pairs(), views(redirects@), cwd@) ==> exists|
            reply: Seq<u8>,
        |
            answers(
                host,
                spawn_wire(
                    path@,
                    str_views(args@),
                    env.pairs(),
                    background,
                    views(redirects@),
                    cwd@,
                ),
                reply,
            ) && match (spawn_reply(background, reply), r) {
                (Ok(expected), Ok(result)) => result@ == expected,
                (Err(expected), Err(e)) => e == expected,
                _ => false,
            },
{
    match spawn_request(path, args, env, background, redirects, cwd) {
        Err(e) => Err(e),
        Ok(request) => {
            let reply = exchange(host, request);
            decode_spawn_reply(background, reply.as_slice())
        },
    }
}

/// Everything one launch needs: built for one call and consumed by it.
#[derive(Debug)]
pub struct SpawnRequest {
    /// The executable.
    pub path: String,
    /// The arguments, in order.
    pub args: Vec<String>,
    /// The child's environment.
    pub env: Environment,
    /// Whether the caller goes on without waiting for the child's exit.
    pub background: bool,
    /// The descriptor actions, applied in list order.
    pub redirects: Vec<Redirect>,
    /// The working directory, as it was when the request was built.
    pub cwd: String,
}

impl SpawnRequest {
    /// Whether the request can be encoded.
    pub open spec fn ok(&self) -> bool {
        spawn_ok(
            self.path@,
            string_views(self.args@),
            self.env.pairs(),
            views(self.redirects@),
            self.cwd@,
        )
    }

    /// The request on the wire.
    pub open spec fn wire(&self) -> Seq<u8> {
        spawn_wire(
            self.path@,
            string_views(self.args@),
            self.env.pairs(),
            self.background,
            views(self.redirects@),
            self.cwd@,
        )
    }

    /// Checks and encodes the request.
    pub fn encode(&self) -> (r: Result<Vec<u8>, Error>)
        ensures
            match r {
                Ok(request) => self.ok() && request@ == self.wire(),
                Err(e) => !self.ok() && e == Error::InvalidArgument,
            },
    {
        let mut args: Vec<&str> = Vec::new();
        let mut i: usize = 0;
        while i < self.args.len()
            invariant
                i <= self.args@.len(),
                args@.len() == i,
                forall|j: int| 0 <= j < i ==> (#[trigger] args@[j])@ == self.args@[j]@,
            decreases self.args@.len() - i,
        {
            args.push(self.args[i].as_str());
            i += 1;
        }
        assert(str_views(args@) =~= string_views(self.args@));
        spawn_request(
            self.path.as_str(),
            args.as_slice(),
            &self.env,
            self.background,
            self.redirects.as_slice(),
            self.cwd.as_str(),
        )
    }
}

/// A launch request as a mathematical value.
pub struct SpawnRequestView {
    pub path: Seq<char>,
    pub args: Seq<Seq<char>>,
    pub env: Seq<(Seq<char>, Seq<char>)>,
    pub background: bool,
    pub redirects: Seq<RedirectView>,
    pub cwd: Seq<char>,
}

impl SpawnRequestView {
    /// Whether the request can be encoded.
    pub open spec fn ok(self) -> bool {
        spawn_ok(self.path, self.args, self.env, self.redirects, self.cwd)
    }

    /// The request on the wire.
    pub open spec fn wire(self) -> Seq<u8> {
        spawn_wire(self.path, self.args, self.env, self.background, self.redirects, self.cwd)
    }
}

impl View for SpawnRequest {
    type V = SpawnRequestView;

    open spec fn view(&self) -> SpawnRequestView {
        SpawnRequestView {
            path: self.path@,
            args: string_views(self.args@),
            env: self.env.pairs(),
            background: self.background,
            redirects: views(self.redirects@),
            cwd: self.cwd@,
        }
    }
}

/// What stands behind the environment in a launch request: a background
/// word of zero or one, the redirects, and the working directory as the last
/// field.
pub open spec fn parse_spawn_end(s: Seq<u8>) -> Option<(bool, Seq<RedirectView>, Seq<char>)> {
    if s.len() < 4 || word_of(s) > 1 {
        None
    } else {
        match parse_redirects_prefix(s.skip(4)) {
            None => None,
            Some((redirects, used)) => {
                let last = s.skip(4 + used);
                match parse_text(last) {
                    Some((cwd, n)) if n == last.len() => Some((word_of(s) == 1, redirects, cwd)),
                    _ => None,
                }
            },
        }
    }
}

/// The launch request that `s` encodes, or nothing where it encodes none:
/// the command, the path, the arguments, an environment without a repeated
/// key, and then the background word, the redirects and the working
/// directory.
pub open spec fn parse_spawn(s: Seq<u8>) -> Option<SpawnRequestView> {
    if s.len() < 4 || word_of(s) != Command::Spawn.spec_id() {
        None
    } else {
        match parse_text(s.skip(4)) {
            None => None,
            Some((path, n1)) => match parse_texts(s.skip(4 + n1)) {
                None => None,
                Some((args, n2)) => match parse_pairs(s.skip(4 + n1 + n2)) {
                    None => None,
                    Some((env, n3)) => match parse_spawn_end(s.skip(4 + n1 + n2 + n3)) {
                        Some((background, redirects, cwd)) if unique_keys(env) => Some(
                            SpawnRequestView { path, args, env, background, redirects, cwd },
                        ),
                        _ => None,
                    },
                },
            },
        }
    }
}

/// The end of an encoded launch request is read back as what it encodes.
proof fn lemma_spawn_end_round_trip(
    background: bool,
    redirects: Seq<RedirectView>,
    cwd: Seq<char>,
)
    requires
        redirects_ok(redirects),
        text_ok(cwd),
    ensures
        parse_spawn_end(
            word_bytes(if background { 1u32 } else { 0u32 }) + redirects_wire(redirects)
                + text_wire(cwd),
        ) == Some((background, redirects, cwd)),
{
    let flag_word = if background { 1u32 } else { 0u32 };
    let r5 = text_wire(cwd);
    let r4 = redirects_wire(redirects) + r5;
    let s = word_bytes(flag_word) + redirects_wire(redirects) + text_wire(cwd);
    assert(s =~= word_bytes(flag_word) + r4);
    lemma_word_round_trip(flag_word, r4);
    assert(s.skip(4) =~= r4);
    lemma_redirects_prefix_round_trip(redirects, r5);
    let n5 = redirects_wire(redirects).len() as int;
    assert(s.skip(4 + n5) =~= r5) by {
        assert(s.skip(4 + n5) =~= s.skip(4).skip(n5));
    }
    lemma_text_round_trip(cwd, Seq::empty());
    assert(r5 + Seq::<u8>::empty() =~= r5);
}

/// The three leading fields of an encoded launch request are read back one
/// by one, and what follows them is left.
#[verifier::rlimit(60)]
proof fn lemma_spawn_front_round_trip(
    path: Seq<char>,
    args: Seq<Seq<char>>,
    env: Seq<(Seq<char>, Seq<char>)>,
    rest: Seq<u8>,
)
    requires
        text_ok(path),
        texts_ok(args),
        pairs_ok(env),
    ensures
        ({
            let s = word_bytes(Command::Spawn.spec_id()) + text_wire(path) + texts_wire(args)
                + pairs_wire(env) + rest;
            let n1 = text_wire(path).len() as int;
            let n2 = texts_wire(args).len() as int;
            let n3 = pairs_wire(env).len() as int;
            &&& s.len() >= 4
            &&& word_of(s) == Command::Spawn.spec_id()
            &&& parse_text(s.skip(4)) == Some((path, n1))
            &&& parse_texts(s.skip(4 + n1)) == Some((args, n2))
            &&& parse_pairs(s.skip(4 + n1 + n2)) == Some((env, n3))
            &&& s.skip(4 + n1 + n2 + n3) == rest
        }),
{
    let s = word_bytes(Command::Spawn.spec_id()) + text_wire(path) + texts_wire(args) + pairs_wire(
        env,
    ) + rest;
    let n1 = text_wire(path).len() as int;
    let n2 = texts_wire(args).len() as int;
    let n3 = pairs_wire(env).len() as int;
    let r2 = pairs_wire(env) + rest;
    let r1 = texts_wire(args) + r2;
    let r0 = text_wire(path) + r1;
    assert(s =~= word_bytes(Command::Spawn.spec_id()) + r0);
    lemma_word_round_trip(Command::Spawn.spec_id(), r0);
    assert(s.skip(4) =~= r0);
    lemma_text_round_trip(path, r1);
    assert(s.skip(4 + n1) =~= r1) by {
        assert(s.skip(4 + n1) =~= s.skip(4).skip(n1));
    }
    lemma_texts_round_trip(args, r2);
    assert(s.skip(4 + n1 + n2) =~= r2) by {
        assert(s.skip(4 + n1 + n2) =~= s.skip(4 + n1).skip(n2));
    }
    lemma_pairs_round_trip(env, rest);
    assert(s.skip(4 + n1 + n2 + n3) =~= rest) by {
        assert(s.skip(4 + n1 + n2 + n3) =~= s.skip(4 + n1 + n2).skip(n3));
    }
}

/// An encoded launch request is read back as the same request: the same
/// path, the arguments and the redirects in their order, the same pairs of
/// the environment, the same background flag and working directory.
pub proof fn spawn_round_trip(request: SpawnRequestView)
    requires
        request.ok(),
        unique_keys(request.env),
    ensures
        parse_spawn(request.wire()) == Some(request),
{
    let end = word_bytes(if request.background { 1u32 } else { 0u32 }) + redirects_wire(
        request.redirects,
    ) + text_wire(request.cwd);
    lemma_spawn_end_round_trip(request.background, request.redirects, request.cwd);
    lemma_spawn_front_round_trip(request.path, request.args, request.env, end);
    assert(request.wire() =~= word_bytes(Command::Spawn.spec_id()) + text_wire(request.path)
        + texts_wire(request.args) + pairs_wire(request.env) + end);
}

/// Decodes a launch request, as the host does: the request, or nothing where
/// the input encodes none.
#[verifier::rlimit(60)]
pub fn decode_spawn_request(input: &[u8]) -> (r: Option<SpawnRequest>)
    ensures
        match (parse_spawn(input@), r) {
            (Some(expected), Some(request)) => request@ == expected && request.env.wf(),
            (None, None) => true,
            _ => false,
        },
{
    if input.len() < 4 {
        return None;
    }
    assert(input@.skip(0) =~= input@);
    if get_word(input, 0) != Command::Spawn.id() {
        return None;
    }
    let (path, a1) = match get_text(input, 4) {
        None => {
            return None;
        },
        Some(found) => found,
    };
    let (args, a2) = match get_texts(input, a1) {
        None => {
            return None;
        },
        Some(found) => found,
    };
    let (pairs, a3) = match get_pairs(input, a2) {
        None => {
            return None;
        },
        Some(found) => found,
    };
    let env = match Environment::from_pairs(pairs) {
        None => {
            return None;
        },
        Some(env) => env,
    };
    let ghost flag = input@.skip(a3 as int);
    if input.len() - a3 < 4 {
        return None;
    }
    let word = get_word(input, a3);
    if word > 1 {
        return None;
    }
    assert(flag.skip(4) =~= input@.skip(a3 + 4));
    let (redirects, a5) = match get_redirects(input, a3 + 4) {
        None => {
            return None;
        },
        Some(found) => found,
    };
    assert(flag.skip(a5 - a3) =~= input@.skip(a5 as int));
    let (cwd, a6) = match get_text(input, a5) {
        None => {
            return None;
        },
        Some(found) => found,
    };
    if a6 != input.len() {
        return None;
    }
    Some(SpawnRequest { path, args, env, background: word == 1, redirects, cwd })
}

} // verus!
