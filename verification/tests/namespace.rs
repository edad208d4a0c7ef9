use contain::error::SysError;
use contain::ns_ffi::{call_wo_fd, check, fd_payload, getns, mkns, native_bytes, setrens};
use contain::ns_ffi::{register_request, register_request_from};
use contain::ns_ffi::{ByteOrder, FdCall, NsCall};

const ERROR_BIT: usize = 1 << (usize::BITS - 1);

#[test]
fn values_are_kept() {
    for value in [0, 1, 7, 4096, ERROR_BIT - 1] {
        assert_eq!(check(value), Ok(value));
    }
}

#[test]
fn errors_are_decoded() {
    for errno in [0, 1, 2, 13, 4095, i32::MAX] {
        assert_eq!(check(ERROR_BIT | errno as usize), Err(SysError { errno }));
    }
}

#[test]
fn error_numbers_are_cut_down() {
    assert_eq!(check(usize::MAX), Err(SysError { errno: (usize::MAX & !ERROR_BIT) as i32 }));
}

#[test]
fn requests_of_the_namespace_interface() {
    let names = vec!["rand".to_string(), "null".to_string()];
    assert_eq!(mkns(&names), NsCall::MkNs { names, flags: 0 });
    assert_eq!(getns(), NsCall::GetNs);
    assert_eq!(setrens(usize::MAX, 9), NsCall::SetRens { rns: usize::MAX, ens: 9 });
}

#[test]
fn fd_calls_carry_their_flags() {
    assert_eq!(
        call_wo_fd(4, &vec![1, 2, 3]),
        FdCall {
            number: 0x2000_0000 | 0x0100_0000 | 0x0200_0000 | 0xCA11,
            fd: 4,
            payload: vec![1, 2, 3],
            options: (1 << 9) | (1 << 11),
        }
    );
}

#[test]
fn register_requests_hold_kind_and_name() {
    let name = "caf\u{e9}".to_string();
    let mut little = 2usize.to_le_bytes().to_vec();
    little.extend_from_slice(name.as_bytes());
    assert_eq!(register_request(&name, ByteOrder::Little), little);
    let mut big = 2usize.to_be_bytes().to_vec();
    big.extend_from_slice(name.as_bytes());
    assert_eq!(register_request(&name, ByteOrder::Big), big);
    assert_eq!(register_request_from(vec![9, 8], &name), b"\x09\x08caf\xc3\xa9".to_vec());
}

#[test]
fn requests_tell_the_scheme() {
    let (file, tcp) = ("file".to_string(), "tcp".to_string());
    for order in [ByteOrder::Little, ByteOrder::Big] {
        assert_ne!(register_request(&file, order), register_request(&tcp, order));
    }
}

#[test]
fn bytes_tell_the_number() {
    for fd in [0, 1, 258, usize::MAX, usize::MAX - 255, 0x0102_0304] {
        assert_eq!(fd_payload(fd, ByteOrder::Little), fd.to_le_bytes().to_vec());
        assert_eq!(fd_payload(fd, ByteOrder::Big), fd.to_be_bytes().to_vec());
    }
    assert_ne!(fd_payload(3, ByteOrder::Big), fd_payload(4, ByteOrder::Big));
}

#[test]
fn bytes_are_those_in_memory() {
    let order = if 1u16.to_ne_bytes()[0] == 1 { ByteOrder::Little } else { ByteOrder::Big };
    for n in [0, 2, 0x0102_0304, usize::MAX - 1] {
        assert_eq!(native_bytes(n, order), n.to_ne_bytes().to_vec());
    }
}
