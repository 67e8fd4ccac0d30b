use wasi_ext_lib::command::Command;
use wasi_ext_lib::error::Error;
use wasi_ext_lib::fd::{
    fcntl, fcntl_request, Descriptor, FcntlCommand, FdTable, WASI_EXT_FDFLAG_CLOEXEC,
};
use wasi_ext_lib::reply::encode_reply;

fn stream(n: u64) -> Descriptor {
    Descriptor { stream: n, flags: 0 }
}

fn table_with(open: &[u32]) -> FdTable {
    let mut table = FdTable::new(1024);
    for fd in open {
        assert_eq!(table.open_at(*fd, stream(100 + *fd as u64)), Ok(()));
    }
    table
}

#[test]
fn move_takes_the_lowest_free_number() {
    let mut table = table_with(&[0, 1, 2, 5]);
    assert_eq!(table.move_fd(5, 0), Ok(3));
    assert_eq!(table.get(5), None);
    assert_eq!(table.get(3), Some(stream(105)));
    assert_eq!(table.get(0), Some(stream(100)));
    assert_eq!(table.get(1), Some(stream(101)));
    assert_eq!(table.get(2), Some(stream(102)));
    assert_eq!(table.get(4), None);
}

#[test]
fn move_of_three_lands_above_the_standard_streams() {
    let mut table = table_with(&[0, 1, 2, 3]);
    assert_eq!(table.move_fd(3, 0), Ok(4));
    assert_eq!(table.get(3), None);
    assert_eq!(table.get(4), Some(stream(103)));
}

#[test]
fn move_respects_the_floor() {
    let mut table = table_with(&[0, 1, 2, 10, 11]);
    assert_eq!(table.move_fd(1, 10), Ok(12));
    assert_eq!(table.get(1), None);
    assert_eq!(table.get(12), Some(stream(101)));
    assert_eq!(table.move_fd(0, 1), Ok(1));
    assert_eq!(table.get(0), None);
    assert_eq!(table.get(1), Some(stream(100)));
}

#[test]
fn move_keeps_the_flags() {
    let mut table = table_with(&[0]);
    assert_eq!(table.set_flags(0, WASI_EXT_FDFLAG_CLOEXEC), Ok(()));
    assert_eq!(table.move_fd(0, 7), Ok(7));
    assert_eq!(table.get_flags(7), Ok(WASI_EXT_FDFLAG_CLOEXEC));
    assert_eq!(table.get(7), Some(Descriptor { stream: 100, flags: 0x40 }));
}

#[test]
fn sequential_moves_never_reuse_a_number() {
    let mut table = table_with(&[0, 1, 2]);
    assert_eq!(table.move_fd(0, 3), Ok(3));
    assert_eq!(table.move_fd(1, 3), Ok(4));
    assert_eq!(table.move_fd(2, 3), Ok(5));
    assert_eq!(table.get(3), Some(stream(100)));
    assert_eq!(table.get(4), Some(stream(101)));
    assert_eq!(table.get(5), Some(stream(102)));
    assert_eq!(table.get(0), None);
    assert_eq!(table.get(1), None);
    assert_eq!(table.get(2), None);
}

#[test]
fn move_of_a_closed_descriptor_fails_and_changes_nothing() {
    let mut table = table_with(&[0, 1]);
    assert_eq!(table.move_fd(9, 0), Err(Error::HostError(8)));
    assert_eq!(table.get(0), Some(stream(100)));
    assert_eq!(table.get(1), Some(stream(101)));
    assert_eq!(table.get(2), None);
}

#[test]
fn move_without_a_free_number_fails_and_changes_nothing() {
    let mut table = FdTable::new(3);
    for fd in 0..3 {
        assert_eq!(table.open_at(fd, stream(fd as u64)), Ok(()));
    }
    assert_eq!(table.move_fd(0, 1), Err(Error::HostError(33)));
    assert_eq!(table.move_fd(0, 3), Err(Error::HostError(33)));
    assert_eq!(table.move_fd(0, u32::MAX), Err(Error::HostError(33)));
    for fd in 0..3 {
        assert_eq!(table.get(fd), Some(stream(fd as u64)));
    }
}

#[test]
fn table_bound_is_capped() {
    assert_eq!(FdTable::new(16).limit(), 16);
    assert_eq!(FdTable::new(u32::MAX).limit(), i32::MAX as u32);
    assert_eq!(FdTable::new(0).limit(), 0);
}

#[test]
fn open_refuses_a_taken_or_distant_number() {
    let mut table = FdTable::new(4);
    assert_eq!(table.open_at(2, stream(1)), Ok(()));
    assert_eq!(table.open_at(2, stream(2)), Err(Error::HostError(8)));
    assert_eq!(table.open_at(4, stream(3)), Err(Error::HostError(33)));
    assert_eq!(table.get(2), Some(stream(1)));
    assert_eq!(table.get(4), None);
}

#[test]
fn close_frees_the_number() {
    let mut table = table_with(&[0, 1, 2]);
    assert_eq!(table.close(1), Ok(()));
    assert_eq!(table.get(1), None);
    assert_eq!(table.close(1), Err(Error::HostError(8)));
    assert_eq!(table.close(700), Err(Error::HostError(8)));
    assert_eq!(table.move_fd(2, 0), Ok(1));
}

#[test]
fn flags_touch_one_descriptor_only() {
    let mut table = table_with(&[0, 1, 2]);
    assert_eq!(table.get_flags(1), Ok(0));
    assert_eq!(table.set_flags(1, 0x00c0), Ok(()));
    assert_eq!(table.get_flags(1), Ok(0x00c0));
    assert_eq!(table.get(1), Some(Descriptor { stream: 101, flags: 0x00c0 }));
    assert_eq!(table.get(0), Some(stream(100)));
    assert_eq!(table.get(2), Some(stream(102)));
    assert_eq!(table.get_flags(3), Err(Error::HostError(8)));
    assert_eq!(table.set_flags(3, 1), Err(Error::HostError(8)));
    assert_eq!(table.get(3), None);
}

#[test]
fn commands_apply_to_a_table() {
    let mut table = table_with(&[0, 1, 2, 5]);
    assert_eq!(table.apply(5, FcntlCommand::F_MVFD { min_fd_num: 0 }), Ok(3));
    assert_eq!(table.apply(3, FcntlCommand::F_SETFD { flags: 0x40 }), Ok(0));
    assert_eq!(table.apply(3, FcntlCommand::F_GETFD), Ok(0x40));
    assert_eq!(table.apply(5, FcntlCommand::F_GETFD), Err(Error::HostError(8)));
    assert_eq!(
        table.apply(5, FcntlCommand::F_MVFD { min_fd_num: 0 }),
        Err(Error::HostError(8))
    );
}

#[test]
fn descriptor_commands_have_exact_bytes() {
    assert_eq!(
        fcntl_request(5, FcntlCommand::F_MVFD { min_fd_num: 3 }),
        vec![13, 0, 0, 0, 5, 0, 0, 0, 0, 0, 0, 0, 3, 0, 0, 0]
    );
    assert_eq!(
        fcntl_request(6, FcntlCommand::F_GETFD),
        vec![13, 0, 0, 0, 6, 0, 0, 0, 1, 0, 0, 0, 0, 0, 0, 0]
    );
    assert_eq!(
        fcntl_request(7, FcntlCommand::F_SETFD { flags: 0x40 }),
        vec![13, 0, 0, 0, 7, 0, 0, 0, 2, 0, 0, 0, 0x40, 0, 0, 0]
    );
}

#[test]
fn descriptor_command_goes_through_a_host_with_a_table() {
    let table = std::cell::RefCell::new(table_with(&[0, 1, 2, 5]));
    let host = |request: Vec<u8>| -> Vec<u8> {
        assert_eq!(request, fcntl_request(5, FcntlCommand::F_MVFD { min_fd_num: 0 }));
        match table.borrow_mut().apply(5, FcntlCommand::F_MVFD { min_fd_num: 0 }) {
            Ok(value) => encode_reply(Command::Fcntl.id(), value, &[]),
            Err(e) => encode_reply(Command::Fcntl.id(), -e.code(), &[]),
        }
    };
    assert_eq!(fcntl(host, 5, FcntlCommand::F_MVFD { min_fd_num: 0 }), Ok(3));
    assert_eq!(table.borrow().get(5), None);
    assert_eq!(table.borrow().get(3), Some(stream(105)));
    let again = |_request: Vec<u8>| -> Vec<u8> {
        match table.borrow_mut().apply(5, FcntlCommand::F_MVFD { min_fd_num: 0 }) {
            Ok(value) => encode_reply(Command::Fcntl.id(), value, &[]),
            Err(e) => encode_reply(Command::Fcntl.id(), -e.code(), &[]),
        }
    };
    assert_eq!(
        fcntl(again, 5, FcntlCommand::F_MVFD { min_fd_num: 0 }),
        Err(Error::HostError(8))
    );
}

#[test]
fn move_command_tells_a_closed_source_from_a_full_table() {
    let mut table = FdTable::new(3);
    for fd in 0..3 {
        assert_eq!(table.open_at(fd, stream(fd as u64)), Ok(()));
    }
    assert_eq!(
        table.apply(1, FcntlCommand::F_MVFD { min_fd_num: 0 }),
        Err(Error::HostError(33))
    );
    assert_eq!(
        table.apply(7, FcntlCommand::F_MVFD { min_fd_num: 0 }),
        Err(Error::HostError(8))
    );
    assert_eq!(table.close(0), Ok(()));
    assert_eq!(table.apply(2, FcntlCommand::F_MVFD { min_fd_num: 0 }), Ok(0));
    for (fd, expected) in [(0, Some(stream(2))), (1, Some(stream(1))), (2, None)] {
        assert_eq!(table.get(fd), expected);
    }
}
