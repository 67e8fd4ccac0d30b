use std::cell::Cell;
use wasi_ext_lib::command::Command;
use wasi_ext_lib::env::Environment;
use wasi_ext_lib::error::Error;
use wasi_ext_lib::redirect::Redirect;
use wasi_ext_lib::reply::encode_reply;
use wasi_ext_lib::controller::SpawnController;
use wasi_ext_lib::spawn::{
    decode_spawn_reply, decode_spawn_request, spawn, spawn_request, SpawnRequest, SpawnResult,
};
use wasi_ext_lib::text::get_texts;

fn word(w: u32) -> Vec<u8> {
    w.to_le_bytes().to_vec()
}

fn text(s: &str) -> Vec<u8> {
    let mut out = word(s.len() as u32);
    out.extend_from_slice(s.as_bytes());
    out
}

fn echo_env() -> Environment {
    let mut env = Environment::new();
    env.set("PATH", Some("/bin"));
    env.set("HOME", Some("/root"));
    env
}

fn echo_request(background: bool) -> Vec<u8> {
    let mut out = word(10);
    out.extend(text("/bin/echo"));
    out.extend(word(2));
    out.extend(text("echo"));
    out.extend(text("hello"));
    out.extend(word(2));
    out.extend(text("PATH"));
    out.extend(text("/bin"));
    out.extend(text("HOME"));
    out.extend(text("/root"));
    out.extend(word(if background { 1 } else { 0 }));
    out.extend(word(1));
    out.extend(word(1));
    out.extend(word(1));
    out.extend(text("/tmp/out"));
    out.extend(text("/home/user"));
    out
}

#[test]
fn launch_request_has_exact_bytes() {
    let redirects = vec![Redirect::Write(1, "/tmp/out".to_string())];
    let request = spawn_request(
        "/bin/echo",
        &["echo", "hello"],
        &echo_env(),
        false,
        &redirects,
        "/home/user",
    );
    assert_eq!(request, Ok(echo_request(false)));
}

#[test]
fn foreground_launch_yields_status_and_output() {
    let redirects = vec![Redirect::Write(1, "/tmp/out".to_string())];
    let calls = Cell::new(0);
    let host = |request: Vec<u8>| -> Vec<u8> {
        calls.set(calls.get() + 1);
        assert_eq!(request, echo_request(false));
        encode_reply(Command::Spawn.id(), 0, b"hello\n")
    };
    let result = spawn(
        host,
        "/bin/echo",
        &["echo", "hello"],
        &echo_env(),
        false,
        &redirects,
        "/home/user",
    );
    assert_eq!(
        result,
        Ok(SpawnResult::Completed { exit_status: 0, output: b"hello\n".to_vec() })
    );
    assert_eq!(calls.get(), 1);
}

#[test]
fn background_launch_yields_the_child_and_no_output() {
    let redirects = vec![Redirect::Write(1, "/tmp/out".to_string())];
    let calls = Cell::new(0);
    let host = |request: Vec<u8>| -> Vec<u8> {
        calls.set(calls.get() + 1);
        assert_eq!(request, echo_request(true));
        encode_reply(Command::Spawn.id(), 0, &word(4242))
    };
    let result = spawn(
        host,
        "/bin/echo",
        &["echo", "hello"],
        &echo_env(),
        true,
        &redirects,
        "/home/user",
    );
    match result {
        Ok(SpawnResult::Detached { accepted, child_pid }) => {
            assert!(accepted);
            assert!(child_pid > 0);
            assert_eq!(child_pid, 4242);
        }
        other => panic!("not detached: {:?}", other),
    }
    assert_eq!(calls.get(), 1);
}

#[test]
fn background_reply_with_output_is_malformed() {
    let mut payload = word(4242);
    payload.extend_from_slice(b"hello\n");
    let reply = encode_reply(Command::Spawn.id(), 0, &payload);
    assert_eq!(decode_spawn_reply(true, &reply), Err(Error::MalformedResponse));
}

#[test]
fn background_reply_without_a_child_is_truncated() {
    let reply = encode_reply(Command::Spawn.id(), 0, &[1, 0]);
    assert_eq!(decode_spawn_reply(true, &reply), Err(Error::TruncatedResponse));
}

#[test]
fn accepted_child_has_a_positive_identifier() {
    let zero = encode_reply(Command::Spawn.id(), 0, &word(0));
    assert_eq!(decode_spawn_reply(true, &zero), Err(Error::MalformedResponse));
    let negative = encode_reply(Command::Spawn.id(), 0, &word(0xffff_ffff));
    assert_eq!(decode_spawn_reply(true, &negative), Err(Error::MalformedResponse));
    let declined = encode_reply(Command::Spawn.id(), 3, &word(0xffff_ffff));
    assert_eq!(
        decode_spawn_reply(true, &declined),
        Ok(SpawnResult::Detached { accepted: false, child_pid: -1 })
    );
}

#[test]
fn output_is_whatever_follows_the_status() {
    let output = vec![0, 0, 0, 0, b'\n', 0xff, 10, 0, 0, 0];
    let reply = encode_reply(Command::Spawn.id(), 3, &output);
    assert_eq!(
        decode_spawn_reply(false, &reply),
        Ok(SpawnResult::Completed { exit_status: 3, output })
    );
    let empty = encode_reply(Command::Spawn.id(), 0, &[]);
    assert_eq!(
        decode_spawn_reply(false, &empty),
        Ok(SpawnResult::Completed { exit_status: 0, output: vec![] })
    );
}

#[test]
fn host_failure_of_a_launch_carries_the_code() {
    let host = |_request: Vec<u8>| -> Vec<u8> { encode_reply(Command::Spawn.id(), -44, &[]) };
    let result = spawn(host, "/bin/none", &[], &Environment::new(), false, &[], "/");
    assert_eq!(result, Err(Error::HostError(44)));
}

#[test]
fn launch_that_cannot_be_encoded_never_reaches_the_host() {
    let calls = Cell::new(0);
    let env = Environment::new();
    let bad_redirect = vec![Redirect::Read(0, "in\0put".to_string())];
    let r1 = spawn(
        |_r: Vec<u8>| -> Vec<u8> {
            calls.set(calls.get() + 1);
            vec![]
        },
        "/bin/\0echo",
        &[],
        &env,
        false,
        &[],
        "/",
    );
    assert_eq!(r1, Err(Error::InvalidArgument));
    let r2 = spawn(
        |_r: Vec<u8>| -> Vec<u8> {
            calls.set(calls.get() + 1);
            vec![]
        },
        "/bin/echo",
        &["a", "b\0"],
        &env,
        false,
        &[],
        "/",
    );
    assert_eq!(r2, Err(Error::InvalidArgument));
    let r3 = spawn(
        |_r: Vec<u8>| -> Vec<u8> {
            calls.set(calls.get() + 1);
            vec![]
        },
        "/bin/echo",
        &[],
        &env,
        true,
        &bad_redirect,
        "/",
    );
    assert_eq!(r3, Err(Error::InvalidArgument));
    let r4 = spawn(
        |_r: Vec<u8>| -> Vec<u8> {
            calls.set(calls.get() + 1);
            vec![]
        },
        "/bin/echo",
        &[],
        &env,
        true,
        &[],
        "/\0",
    );
    assert_eq!(r4, Err(Error::InvalidArgument));
    let mut bad_env = Environment::new();
    bad_env.set("KEY", Some("val\0ue"));
    let r5 = spawn(
        |_r: Vec<u8>| -> Vec<u8> {
            calls.set(calls.get() + 1);
            vec![]
        },
        "/bin/echo",
        &[],
        &bad_env,
        true,
        &[],
        "/",
    );
    assert_eq!(r5, Err(Error::InvalidArgument));
    assert_eq!(calls.get(), 0);
}

#[test]
fn empty_reply_to_a_launch_is_truncated() {
    let host = |_request: Vec<u8>| -> Vec<u8> { vec![] };
    let result = spawn(host, "/bin/echo", &[], &Environment::new(), false, &[], "/");
    assert_eq!(result, Err(Error::TruncatedResponse));
}

#[test]
fn host_that_does_not_know_launches_is_reported() {
    let host = |_request: Vec<u8>| -> Vec<u8> { encode_reply(0, 0, &[]) };
    let result = spawn(host, "/bin/echo", &[], &Environment::new(), true, &[], "/");
    assert_eq!(result, Err(Error::UnsupportedOperation));
}

fn echo_spawn_request(background: bool) -> SpawnRequest {
    SpawnRequest {
        path: "/bin/echo".to_string(),
        args: vec!["echo".to_string(), "hello".to_string()],
        env: echo_env(),
        background,
        redirects: vec![Redirect::Write(1, "/tmp/out".to_string())],
        cwd: "/home/user".to_string(),
    }
}

#[test]
fn controller_walks_a_foreground_launch() {
    let controller = SpawnController::new(echo_spawn_request(false)).encode();
    let (controller, payload) = controller.dispatch();
    assert_eq!(payload, Some(echo_request(false)));
    let (controller, again) = controller.dispatch();
    assert_eq!(again, None);
    let reply = encode_reply(Command::Spawn.id(), 0, b"hello\n");
    let controller = controller.complete(&reply);
    assert_eq!(
        controller.outcome(),
        Some(Ok(SpawnResult::Completed { exit_status: 0, output: b"hello\n".to_vec() }))
    );
}

#[test]
fn controller_walks_a_background_launch() {
    let (controller, payload) = SpawnController::new(echo_spawn_request(true)).encode().dispatch();
    assert_eq!(payload, Some(echo_request(true)));
    let reply = encode_reply(Command::Spawn.id(), 0, &word(17));
    assert_eq!(
        controller.complete(&reply).outcome(),
        Some(Ok(SpawnResult::Detached { accepted: true, child_pid: 17 }))
    );
}

#[test]
fn controller_fails_an_invalid_request_without_a_payload() {
    let mut request = echo_spawn_request(false);
    request.args.push("bad\0arg".to_string());
    let (controller, payload) = SpawnController::new(request).encode().dispatch();
    assert_eq!(payload, None);
    let reply = encode_reply(Command::Spawn.id(), 0, b"ignored");
    assert_eq!(
        controller.complete(&reply).outcome(),
        Some(Err(Error::InvalidArgument))
    );
}

#[test]
fn controller_has_no_outcome_before_the_reply() {
    assert!(SpawnController::new(echo_spawn_request(false)).outcome().is_none());
    assert!(SpawnController::new(echo_spawn_request(false)).encode().outcome().is_none());
    let (dispatched, _) = SpawnController::new(echo_spawn_request(false)).encode().dispatch();
    assert!(dispatched.outcome().is_none());
}

#[test]
fn controller_ignores_a_reply_it_did_not_ask_for() {
    let reply = encode_reply(Command::Spawn.id(), 0, b"early");
    let controller = SpawnController::new(echo_spawn_request(false)).encode().complete(&reply);
    let (controller, payload) = controller.dispatch();
    assert_eq!(payload, Some(echo_request(false)));
    assert!(controller.outcome().is_none());
}

#[test]
fn controller_reports_a_host_failure() {
    let (controller, _) = SpawnController::new(echo_spawn_request(false)).encode().dispatch();
    let reply = encode_reply(Command::Spawn.id(), -2, &[]);
    assert_eq!(controller.complete(&reply).outcome(), Some(Err(Error::HostError(2))));
}

fn echo_host(request: Vec<u8>) -> Vec<u8> {
    let request = match decode_spawn_request(&request) {
        Some(request) => request,
        None => return encode_reply(Command::Spawn.id(), -28, &[]),
    };
    if request.path != "/bin/echo" {
        return encode_reply(Command::Spawn.id(), -44, &[]);
    }
    if request.background {
        return encode_reply(Command::Spawn.id(), 0, &word(77));
    }
    let mut output = request.args[1..].join(" ");
    output.push('\n');
    encode_reply(Command::Spawn.id(), 0, output.as_bytes())
}

#[test]
fn launch_request_is_read_back_by_the_host() {
    let request = decode_spawn_request(&echo_request(true)).unwrap();
    assert_eq!(request.path, "/bin/echo");
    assert_eq!(request.args, vec!["echo".to_string(), "hello".to_string()]);
    assert_eq!(request.env.len(), 2);
    assert_eq!(request.env.entry(0), ("PATH", "/bin"));
    assert_eq!(request.env.entry(1), ("HOME", "/root"));
    assert!(request.background);
    assert_eq!(request.redirects, vec![Redirect::Write(1, "/tmp/out".to_string())]);
    assert_eq!(request.cwd, "/home/user");
    assert_eq!(request.encode(), Ok(echo_request(true)));
}

#[test]
fn launch_runs_end_to_end_against_a_host_that_echoes() {
    let redirects = vec![Redirect::Write(1, "/tmp/out".to_string())];
    let env = echo_env();
    let foreground = spawn(
        echo_host,
        "/bin/echo",
        &["echo", "known", "output"],
        &env,
        false,
        &redirects,
        "/",
    );
    assert_eq!(
        foreground,
        Ok(SpawnResult::Completed { exit_status: 0, output: b"known output\n".to_vec() })
    );
    let background = spawn(
        echo_host,
        "/bin/echo",
        &["echo", "known", "output"],
        &env,
        true,
        &redirects,
        "/",
    );
    assert_eq!(
        background,
        Ok(SpawnResult::Detached { accepted: true, child_pid: 77 })
    );
    let missing = spawn(echo_host, "/bin/none", &[], &env, false, &[], "/");
    assert_eq!(missing, Err(Error::HostError(44)));
}

#[test]
fn malformed_launch_request_is_not_read() {
    let good = echo_request(false);
    assert!(decode_spawn_request(&good).is_some());
    for cut in 0..good.len() {
        assert!(decode_spawn_request(&good[..cut]).is_none());
    }
    let mut longer = good.clone();
    longer.push(0);
    assert!(decode_spawn_request(&longer).is_none());
    let mut other = good.clone();
    other[0] = 11;
    assert!(decode_spawn_request(&other).is_none());
}

#[test]
fn launch_request_with_a_repeated_key_is_not_read() {
    let mut out = word(10);
    out.extend(text("/bin/env"));
    out.extend(word(0));
    out.extend(word(2));
    out.extend(text("K"));
    out.extend(text("1"));
    out.extend(text("K"));
    out.extend(text("2"));
    out.extend(word(0));
    out.extend(word(0));
    out.extend(text("/"));
    assert!(decode_spawn_request(&out).is_none());
    out[28] = b'L';
    let request = decode_spawn_request(&out).unwrap();
    assert_eq!(request.env.entry(0), ("L", "1"));
    assert_eq!(request.env.entry(1), ("K", "2"));
    assert_eq!(request.env.get("L"), Some("1"));
    assert_eq!(request.env.get("K"), Some("2"));
}

#[test]
fn background_word_is_zero_or_one() {
    let mut out = word(10);
    out.extend(text("/bin/true"));
    out.extend(word(0));
    out.extend(word(0));
    let flag_at = out.len();
    out.extend(word(1));
    out.extend(word(0));
    out.extend(text("/"));
    assert!(decode_spawn_request(&out).unwrap().background);
    out[flag_at] = 0;
    assert!(!decode_spawn_request(&out).unwrap().background);
    out[flag_at] = 2;
    assert!(decode_spawn_request(&out).is_none());
}

#[test]
fn list_of_texts_is_read_in_order() {
    let mut bytes = word(3);
    bytes.extend(text("a"));
    bytes.extend(text(""));
    bytes.extend(text("ccc"));
    bytes.push(9);
    assert_eq!(
        get_texts(&bytes, 0),
        Some((vec!["a".to_string(), String::new(), "ccc".to_string()], 20))
    );
    assert_eq!(get_texts(&bytes[..19], 0), None);
    assert_eq!(get_texts(&word(1), 0), None);
}
