use std::cell::RefCell;
use wasi_ext_lib::command::Command;
use wasi_ext_lib::error::Error;
use wasi_ext_lib::events::{
    attach_sigint, event_source_fd, EventSource, WASI_EVENTS_MASK_SIZE, WASI_EVENT_SIGINT,
    WASI_EVENT_WINCH,
};
use wasi_ext_lib::mount::{mount, mount_request};
use wasi_ext_lib::process::{clean_inodes, getpid, kill, kill_request};
use wasi_ext_lib::reply::encode_reply;
use wasi_ext_lib::terminal::{
    decode_ioctl_reply, ioctl, ioctl_request, isatty, set_echo, IoctlArg, IoctlNum, WinSize,
};

fn word(w: u32) -> Vec<u8> {
    w.to_le_bytes().to_vec()
}

fn text(s: &str) -> Vec<u8> {
    let mut out = word(s.len() as u32);
    out.extend_from_slice(s.as_bytes());
    out
}

#[test]
fn kill_sends_the_number_of_the_signal() {
    let host = |request: Vec<u8>| -> Vec<u8> {
        assert_eq!(request, vec![11, 0, 0, 0, 42, 0, 0, 0, 9, 0, 0, 0]);
        encode_reply(Command::Kill.id(), 0, &[])
    };
    assert_eq!(kill(host, 42, wasi::SIGNAL_KILL), Ok(()));
    let host = |request: Vec<u8>| -> Vec<u8> {
        assert_eq!(request, kill_request(42, 2));
        encode_reply(Command::Kill.id(), 0, &[])
    };
    assert_eq!(kill(host, 42, wasi::SIGNAL_INT), Ok(()));
}

#[test]
fn kill_of_a_negative_process_keeps_its_bits() {
    assert_eq!(
        kill_request(-1, 15),
        vec![11, 0, 0, 0, 0xff, 0xff, 0xff, 0xff, 15, 0, 0, 0]
    );
}

#[test]
fn kill_of_a_missing_process_carries_the_code() {
    let host = |_r: Vec<u8>| -> Vec<u8> { encode_reply(Command::Kill.id(), -71, &[]) };
    assert_eq!(kill(host, 99999, wasi_ext_lib::SIGNAL_KILL), Err(Error::HostError(71)));
}

#[test]
fn getpid_is_the_status_of_the_reply() {
    let host = |request: Vec<u8>| -> Vec<u8> {
        assert_eq!(request, vec![5, 0, 0, 0]);
        encode_reply(Command::Getpid.id(), 1234, &[])
    };
    assert_eq!(getpid(host), Ok(1234));
    let failing = |_r: Vec<u8>| -> Vec<u8> { encode_reply(Command::Getpid.id(), -63, &[]) };
    assert_eq!(getpid(failing), Err(Error::HostError(63)));
}

#[test]
fn clean_inodes_is_a_bare_request() {
    let host = |request: Vec<u8>| -> Vec<u8> {
        assert_eq!(request, vec![9, 0, 0, 0]);
        encode_reply(Command::CleanInodes.id(), 0, &[])
    };
    assert_eq!(clean_inodes(host), Ok(()));
    let failing = |_r: Vec<u8>| -> Vec<u8> { encode_reply(Command::CleanInodes.id(), -5, &[]) };
    assert_eq!(clean_inodes(failing), Err(Error::HostError(5)));
}

#[test]
fn isatty_is_true_for_status_one_only() {
    let yes = |request: Vec<u8>| -> Vec<u8> {
        assert_eq!(request, vec![3, 0, 0, 0, 1, 0, 0, 0]);
        encode_reply(Command::Isatty.id(), 1, &[])
    };
    assert_eq!(isatty(yes, 1), Ok(true));
    let no = |_r: Vec<u8>| -> Vec<u8> { encode_reply(Command::Isatty.id(), 0, &[]) };
    assert_eq!(isatty(no, 1), Ok(false));
    let two = |_r: Vec<u8>| -> Vec<u8> { encode_reply(Command::Isatty.id(), 2, &[]) };
    assert_eq!(isatty(two, 1), Ok(false));
    let bad = |_r: Vec<u8>| -> Vec<u8> { encode_reply(Command::Isatty.id(), -8, &[]) };
    assert_eq!(isatty(bad, 77), Err(Error::HostError(8)));
}

#[test]
fn set_echo_sends_the_switch() {
    let on = |request: Vec<u8>| -> Vec<u8> {
        assert_eq!(request, vec![6, 0, 0, 0, 1, 0, 0, 0]);
        encode_reply(Command::SetEcho.id(), 0, &[])
    };
    assert_eq!(set_echo(on, true), Ok(()));
    let off = |request: Vec<u8>| -> Vec<u8> {
        assert_eq!(request, vec![6, 0, 0, 0, 0, 0, 0, 0]);
        encode_reply(Command::SetEcho.id(), -59, &[])
    };
    assert_eq!(set_echo(off, false), Err(Error::HostError(59)));
}

#[test]
fn control_numbers_are_the_terminal_constants() {
    assert_eq!(IoctlNum::GetScreenSize.number(), 2148008192);
    assert_eq!(IoctlNum::SetRaw.number(), 2147746049);
    assert_eq!(IoctlNum::SetEcho.number(), 2147746050);
}

#[test]
fn control_command_has_exact_bytes() {
    let mut expected = word(12);
    expected.extend(word(0));
    expected.extend(word(2147746049));
    expected.extend(word(1));
    expected.extend(word(1));
    assert_eq!(ioctl_request(0, IoctlNum::SetRaw, IoctlArg::Flag(true)), Ok(expected));
    let mut expected = word(12);
    expected.extend(word(0xffff_ffff));
    expected.extend(word(2147746050));
    expected.extend(word(0));
    expected.extend(word(0));
    assert_eq!(ioctl_request(-1, IoctlNum::SetEcho, IoctlArg::Nothing), Ok(expected));
    let mut expected = word(12);
    expected.extend(word(1));
    expected.extend(word(2148008192));
    expected.extend(word(0));
    expected.extend(word(0));
    assert_eq!(
        ioctl_request(
            1,
            IoctlNum::GetScreenSize,
            IoctlArg::ScreenSize(WinSize { rows: 7, cols: 9 })
        ),
        Ok(expected)
    );
}

#[test]
fn argument_of_the_wrong_shape_is_refused_before_the_host() {
    let touched = RefCell::new(false);
    let mut flag = IoctlArg::Flag(true);
    let r = ioctl(
        |_r: Vec<u8>| -> Vec<u8> {
            *touched.borrow_mut() = true;
            vec![]
        },
        0,
        IoctlNum::GetScreenSize,
        &mut flag,
    );
    assert_eq!(r, Err(Error::InvalidArgument));
    assert_eq!(flag, IoctlArg::Flag(true));
    let mut nothing = IoctlArg::Nothing;
    let r = ioctl(
        |_r: Vec<u8>| -> Vec<u8> {
            *touched.borrow_mut() = true;
            vec![]
        },
        0,
        IoctlNum::GetScreenSize,
        &mut nothing,
    );
    assert_eq!(r, Err(Error::InvalidArgument));
    let mut size = IoctlArg::ScreenSize(WinSize { rows: 0, cols: 0 });
    let r = ioctl(
        |_r: Vec<u8>| -> Vec<u8> {
            *touched.borrow_mut() = true;
            vec![]
        },
        0,
        IoctlNum::SetRaw,
        &mut size,
    );
    assert_eq!(r, Err(Error::InvalidArgument));
    let r = ioctl(
        |_r: Vec<u8>| -> Vec<u8> {
            *touched.borrow_mut() = true;
            vec![]
        },
        0,
        IoctlNum::SetEcho,
        &mut size,
    );
    assert_eq!(r, Err(Error::InvalidArgument));
    assert_eq!(size, IoctlArg::ScreenSize(WinSize { rows: 0, cols: 0 }));
    assert!(!*touched.borrow());
}

#[test]
fn size_query_writes_the_size() {
    let mut arg = IoctlArg::ScreenSize(WinSize { rows: 0, cols: 0 });
    let host = |_r: Vec<u8>| -> Vec<u8> {
        let mut payload = word(24);
        payload.extend(word(80));
        encode_reply(Command::Ioctl.id(), 0, &payload)
    };
    assert_eq!(ioctl(host, 1, IoctlNum::GetScreenSize, &mut arg), Ok(()));
    assert_eq!(arg, IoctlArg::ScreenSize(WinSize { rows: 24, cols: 80 }));
}

#[test]
fn failed_control_command_leaves_the_argument() {
    let mut arg = IoctlArg::ScreenSize(WinSize { rows: 3, cols: 4 });
    let host = |_r: Vec<u8>| -> Vec<u8> { encode_reply(Command::Ioctl.id(), -59, &[]) };
    assert_eq!(
        ioctl(host, 1, IoctlNum::GetScreenSize, &mut arg),
        Err(Error::HostError(59))
    );
    assert_eq!(arg, IoctlArg::ScreenSize(WinSize { rows: 3, cols: 4 }));
    let short = |_r: Vec<u8>| -> Vec<u8> { encode_reply(Command::Ioctl.id(), 0, &word(24)) };
    assert_eq!(
        ioctl(short, 1, IoctlNum::GetScreenSize, &mut arg),
        Err(Error::TruncatedResponse)
    );
    assert_eq!(arg, IoctlArg::ScreenSize(WinSize { rows: 3, cols: 4 }));
}

#[test]
fn mode_command_keeps_its_argument() {
    let mut arg = IoctlArg::Flag(false);
    let host = |_r: Vec<u8>| -> Vec<u8> { encode_reply(Command::Ioctl.id(), 0, &[]) };
    assert_eq!(ioctl(host, 0, IoctlNum::SetEcho, &mut arg), Ok(()));
    assert_eq!(arg, IoctlArg::Flag(false));
    let reply = encode_reply(Command::Ioctl.id(), 0, &[]);
    assert_eq!(
        decode_ioctl_reply(IoctlNum::SetRaw, IoctlArg::Nothing, &reply),
        Ok(IoctlArg::Nothing)
    );
}

#[test]
fn mount_request_has_exact_bytes() {
    let mut expected = word(14);
    expected.extend(text("/dev/sda1"));
    expected.extend(text("/mnt"));
    expected.extend(text("vfat"));
    expected.extend(word(0x0000_0005));
    expected.extend(word(0x0000_0001));
    expected.extend(text("rw"));
    assert_eq!(
        mount_request("/dev/sda1", "/mnt", "vfat", 0x0000_0001_0000_0005, "rw"),
        Ok(expected)
    );
}

#[test]
fn mount_of_an_unsupported_type_is_a_host_error_and_mounts_nothing() {
    let mounted: RefCell<Vec<String>> = RefCell::new(vec!["/".to_string()]);
    let host = |request: Vec<u8>| -> Vec<u8> {
        if request == mount_request("", "/mnt", "vfat", 0, "").unwrap() {
            mounted.borrow_mut().push("/mnt".to_string());
            encode_reply(Command::Mount.id(), 0, &[])
        } else {
            encode_reply(Command::Mount.id(), -43, &[])
        }
    };
    assert_eq!(mount(host, "", "/mnt", "nosuchfs", 0, ""), Err(Error::HostError(43)));
    assert_eq!(*mounted.borrow(), vec!["/".to_string()]);
    let host = |request: Vec<u8>| -> Vec<u8> {
        if request == mount_request("", "/mnt", "vfat", 0, "").unwrap() {
            mounted.borrow_mut().push("/mnt".to_string());
            encode_reply(Command::Mount.id(), 0, &[])
        } else {
            encode_reply(Command::Mount.id(), -43, &[])
        }
    };
    assert_eq!(mount(host, "", "/mnt", "vfat", 0, ""), Ok(()));
    assert_eq!(*mounted.borrow(), vec!["/".to_string(), "/mnt".to_string()]);
}

#[test]
fn mount_with_a_nul_is_refused_before_the_host() {
    let touched = RefCell::new(0);
    for bad in 0..4 {
        let field = |i: usize| if i == bad { "x\0" } else { "x" };
        let r = mount(
            |_r: Vec<u8>| -> Vec<u8> {
                *touched.borrow_mut() += 1;
                vec![]
            },
            field(0),
            field(1),
            field(2),
            7,
            field(3),
        );
        assert_eq!(r, Err(Error::InvalidArgument));
    }
    assert_eq!(*touched.borrow(), 0);
}

#[test]
fn event_calls_are_unsupported_where_events_are_off() {
    let touched = RefCell::new(false);
    let r = event_source_fd(
        |_r: Vec<u8>| -> Vec<u8> {
            *touched.borrow_mut() = true;
            vec![]
        },
        false,
        WASI_EVENT_WINCH,
    );
    assert_eq!(r, Err(Error::Unsupported));
    let r = attach_sigint(
        |_r: Vec<u8>| -> Vec<u8> {
            *touched.borrow_mut() = true;
            vec![]
        },
        false,
        3,
    );
    assert_eq!(r, Err(Error::Unsupported));
    assert!(!*touched.borrow());
}

#[test]
fn event_source_is_the_descriptor_of_the_reply() {
    let host = |request: Vec<u8>| -> Vec<u8> {
        assert_eq!(request, vec![7, 0, 0, 0, 3, 0, 0, 0]);
        encode_reply(Command::EventSourceFd.id(), 6, &[])
    };
    assert_eq!(
        event_source_fd(host, true, WASI_EVENT_WINCH | WASI_EVENT_SIGINT),
        Ok(6)
    );
    let host = |request: Vec<u8>| -> Vec<u8> {
        assert_eq!(request, vec![8, 0, 0, 0, 6, 0, 0, 0]);
        encode_reply(Command::AttachSigint.id(), 0, &[])
    };
    assert_eq!(attach_sigint(host, true, 6), Ok(()));
    let host = |_r: Vec<u8>| -> Vec<u8> { encode_reply(Command::AttachSigint.id(), -8, &[]) };
    assert_eq!(attach_sigint(host, true, 6), Err(Error::HostError(8)));
}

#[test]
fn event_registered_twice_is_delivered_once() {
    let mut source = EventSource::new(0);
    source.subscribe(WASI_EVENT_WINCH);
    source.subscribe(WASI_EVENT_WINCH);
    assert!(!source.readable());
    source.notify(WASI_EVENT_WINCH);
    assert!(source.readable());
    let payload = source.read();
    assert_eq!(payload.len(), WASI_EVENTS_MASK_SIZE);
    assert_eq!(payload, vec![1, 0, 0, 0]);
    assert!(!source.readable());
    assert_eq!(source.read(), vec![0, 0, 0, 0]);
}

#[test]
fn interrupt_attached_twice_is_delivered_once() {
    let mut source = EventSource::new(WASI_EVENT_WINCH);
    source.notify(WASI_EVENT_SIGINT);
    assert!(!source.readable());
    source.attach_sigint();
    source.attach_sigint();
    source.notify(WASI_EVENT_SIGINT);
    assert_eq!(source.read(), vec![2, 0, 0, 0]);
    assert_eq!(source.read(), vec![0, 0, 0, 0]);
}

#[test]
fn pending_events_coalesce_into_one_notification() {
    let mut source = EventSource::new(WASI_EVENT_WINCH | WASI_EVENT_SIGINT);
    source.notify(WASI_EVENT_WINCH);
    source.notify(WASI_EVENT_SIGINT);
    source.notify(WASI_EVENT_WINCH);
    assert_eq!(source.read(), vec![3, 0, 0, 0]);
    assert!(!source.readable());
}

#[test]
fn events_that_are_not_subscribed_are_dropped() {
    let mut source = EventSource::new(WASI_EVENT_WINCH);
    source.notify(WASI_EVENT_SIGINT | 0x8000_0000);
    assert!(!source.readable());
    source.notify(WASI_EVENT_SIGINT | WASI_EVENT_WINCH);
    assert_eq!(source.read(), vec![1, 0, 0, 0]);
}
