use std::cell::RefCell;
use wasi_ext_lib::command::Command;
use wasi_ext_lib::env::{decode_set_env, get_pairs, set_env, set_env_request, Environment};
use wasi_ext_lib::error::Error;
use wasi_ext_lib::reply::encode_reply;

#[test]
fn set_then_lookup_observes_the_value() {
    let mut env = Environment::new();
    env.set("EDITOR", Some("vi"));
    assert_eq!(env.get("EDITOR"), Some("vi"));
    env.set("EDITOR", Some("ed"));
    assert_eq!(env.get("EDITOR"), Some("ed"));
    assert_eq!(env.len(), 1);
}

#[test]
fn clearing_leaves_the_key_absent() {
    let mut env = Environment::new();
    env.set("A", Some("1"));
    env.set("B", Some("2"));
    env.set("A", None);
    assert_eq!(env.get("A"), None);
    assert_eq!(env.get("B"), Some("2"));
    assert_eq!(env.len(), 1);
    env.set("missing", None);
    assert_eq!(env.len(), 1);
}

#[test]
fn empty_value_is_not_a_cleared_key() {
    let mut env = Environment::new();
    env.set("EMPTY", Some(""));
    assert_eq!(env.get("EMPTY"), Some(""));
    assert_eq!(env.len(), 1);
    env.set("EMPTY", None);
    assert_eq!(env.get("EMPTY"), None);
    assert_eq!(env.len(), 0);
}

#[test]
fn keys_keep_the_order_in_which_they_came() {
    let mut env = Environment::new();
    env.set("first", Some("1"));
    env.set("second", Some("2"));
    env.set("first", Some("3"));
    assert_eq!(env.entry(0), ("first", "3"));
    assert_eq!(env.entry(1), ("second", "2"));
}

#[test]
fn change_of_a_variable_has_exact_bytes() {
    assert_eq!(
        set_env_request("K", Some("v1")),
        Ok(vec![4, 0, 0, 0, 1, 0, 0, 0, b'K', 1, 0, 0, 0, 2, 0, 0, 0, b'v', b'1'])
    );
    assert_eq!(
        set_env_request("K", None),
        Ok(vec![4, 0, 0, 0, 1, 0, 0, 0, b'K', 0, 0, 0, 0])
    );
    assert_eq!(
        set_env_request("K", Some("")),
        Ok(vec![4, 0, 0, 0, 1, 0, 0, 0, b'K', 1, 0, 0, 0, 0, 0, 0, 0])
    );
}

#[test]
fn change_of_a_variable_is_read_back() {
    let set = set_env_request("HOME", Some("/root")).unwrap();
    assert_eq!(
        decode_set_env(&set),
        Some(("HOME".to_string(), Some("/root".to_string())))
    );
    let clear = set_env_request("HOME", None).unwrap();
    assert_eq!(decode_set_env(&clear), Some(("HOME".to_string(), None)));
}

#[test]
fn malformed_change_is_not_read() {
    let set = set_env_request("HOME", Some("/root")).unwrap();
    for cut in 0..set.len() {
        assert_eq!(decode_set_env(&set[..cut]), None);
    }
    let mut longer = set.clone();
    longer.push(0);
    assert_eq!(decode_set_env(&longer), None);
    let mut other = set.clone();
    other[0] = 5;
    assert_eq!(decode_set_env(&other), None);
    let mut clear = set_env_request("HOME", None).unwrap();
    clear.push(0);
    assert_eq!(decode_set_env(&clear), None);
    let flag = vec![4, 0, 0, 0, 1, 0, 0, 0, b'K', 2, 0, 0, 0];
    assert_eq!(decode_set_env(&flag), None);
}

#[test]
fn key_or_value_with_nul_is_refused_before_the_host() {
    let touched = RefCell::new(false);
    let r1 = set_env(
        |_r: Vec<u8>| -> Vec<u8> {
            *touched.borrow_mut() = true;
            vec![]
        },
        "K\0",
        Some("v"),
    );
    assert_eq!(r1, Err(Error::InvalidArgument));
    let r2 = set_env(
        |_r: Vec<u8>| -> Vec<u8> {
            *touched.borrow_mut() = true;
            vec![]
        },
        "K",
        Some("\0"),
    );
    assert_eq!(r2, Err(Error::InvalidArgument));
    assert!(!*touched.borrow());
}

#[test]
fn host_side_lookup_observes_what_was_set() {
    let host_env = RefCell::new(Environment::new());
    let r = set_env(
        |request: Vec<u8>| -> Vec<u8> { host_env.borrow_mut().serve(&request) },
        "LANG",
        Some("C"),
    );
    assert_eq!(r, Ok(()));
    assert_eq!(host_env.borrow().get("LANG"), Some("C"));
    let r = set_env(
        |request: Vec<u8>| -> Vec<u8> { host_env.borrow_mut().serve(&request) },
        "LANG",
        Some(""),
    );
    assert_eq!(r, Ok(()));
    assert_eq!(host_env.borrow().get("LANG"), Some(""));
    let r = set_env(
        |request: Vec<u8>| -> Vec<u8> { host_env.borrow_mut().serve(&request) },
        "LANG",
        None,
    );
    assert_eq!(r, Ok(()));
    assert_eq!(host_env.borrow().get("LANG"), None);
}

#[test]
fn host_refuses_what_is_no_change_of_a_variable() {
    let mut env = Environment::new();
    env.set("A", Some("1"));
    let reply = env.serve(&[4, 0, 0, 0, 9]);
    assert_eq!(reply, encode_reply(Command::SetEnv.id(), -28, &[]));
    assert_eq!(env.get("A"), Some("1"));
    assert_eq!(env.len(), 1);
}

#[test]
fn host_failure_of_a_change_carries_the_code() {
    let r = set_env(
        |_r: Vec<u8>| -> Vec<u8> { encode_reply(Command::SetEnv.id(), -63, &[]) },
        "K",
        Some("v"),
    );
    assert_eq!(r, Err(Error::HostError(63)));
}

#[test]
fn environment_from_pairs_refuses_a_repeated_key() {
    let pairs = vec![
        ("A".to_string(), "1".to_string()),
        ("B".to_string(), "2".to_string()),
    ];
    let env = Environment::from_pairs(pairs).unwrap();
    assert_eq!(env.len(), 2);
    assert_eq!(env.entry(0), ("A", "1"));
    assert_eq!(env.entry(1), ("B", "2"));
    let repeated = vec![
        ("A".to_string(), "1".to_string()),
        ("B".to_string(), "2".to_string()),
        ("A".to_string(), "3".to_string()),
    ];
    assert!(Environment::from_pairs(repeated).is_none());
    assert_eq!(Environment::from_pairs(vec![]).unwrap().len(), 0);
}

#[test]
fn list_of_pairs_is_read_in_order() {
    let bytes = vec![
        2, 0, 0, 0, 1, 0, 0, 0, b'A', 1, 0, 0, 0, b'1', 1, 0, 0, 0, b'B', 0, 0, 0, 0, 7,
    ];
    assert_eq!(
        get_pairs(&bytes, 0),
        Some((
            vec![
                ("A".to_string(), "1".to_string()),
                ("B".to_string(), String::new())
            ],
            23
        ))
    );
    assert_eq!(get_pairs(&bytes[..22], 0), None);
}
