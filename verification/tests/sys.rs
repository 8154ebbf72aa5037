use fortanix_sgx_abi::Error;
use interp_step::sys::{decode_error_kind, sgx_ineffective, strlen, unsupported, unsupported_err,
    ErrorKind};

#[test]
fn error_codes_match_the_platform_abi() {
    // The numeric codes in the decoder are exactly the platform ABI's.
    assert_eq!(decode_error_kind(Error::NotFound as i32), ErrorKind::NotFound);
    assert_eq!(
        decode_error_kind(Error::PermissionDenied as i32),
        ErrorKind::PermissionDenied
    );
    assert_eq!(
        decode_error_kind(Error::ConnectionRefused as i32),
        ErrorKind::ConnectionRefused
    );
    assert_eq!(
        decode_error_kind(Error::ConnectionReset as i32),
        ErrorKind::ConnectionReset
    );
    assert_eq!(
        decode_error_kind(Error::ConnectionAborted as i32),
        ErrorKind::ConnectionAborted
    );
    assert_eq!(decode_error_kind(Error::NotConnected as i32), ErrorKind::NotConnected);
    assert_eq!(decode_error_kind(Error::AddrInUse as i32), ErrorKind::AddrInUse);
    assert_eq!(
        decode_error_kind(Error::AddrNotAvailable as i32),
        ErrorKind::AddrNotAvailable
    );
    assert_eq!(decode_error_kind(Error::BrokenPipe as i32), ErrorKind::BrokenPipe);
    assert_eq!(decode_error_kind(Error::AlreadyExists as i32), ErrorKind::AlreadyExists);
    assert_eq!(decode_error_kind(Error::WouldBlock as i32), ErrorKind::WouldBlock);
    assert_eq!(decode_error_kind(Error::InvalidInput as i32), ErrorKind::InvalidInput);
    assert_eq!(decode_error_kind(Error::InvalidData as i32), ErrorKind::InvalidData);
    assert_eq!(decode_error_kind(Error::TimedOut as i32), ErrorKind::TimedOut);
    assert_eq!(decode_error_kind(Error::WriteZero as i32), ErrorKind::WriteZero);
    assert_eq!(decode_error_kind(Error::Interrupted as i32), ErrorKind::Interrupted);
    assert_eq!(decode_error_kind(Error::Other as i32), ErrorKind::Other);
    assert_eq!(decode_error_kind(Error::UnexpectedEof as i32), ErrorKind::UnexpectedEof);
}

#[test]
fn unknown_error_codes_read_as_other() {
    assert_eq!(decode_error_kind(0), ErrorKind::Other);
    assert_eq!(decode_error_kind(-1), ErrorKind::Other);
    assert_eq!(decode_error_kind(Error::UserRangeStart as i32), ErrorKind::Other);
    assert_eq!(decode_error_kind(Error::UserRangeEnd as i32), ErrorKind::Other);
    assert_eq!(decode_error_kind(0x1234), ErrorKind::Other);
}

#[test]
fn unsupported_reports_the_unsupported_kind() {
    let e = unsupported_err();
    assert_eq!(e.kind, ErrorKind::Unsupported);
    assert_eq!(e.message(), "operation not supported on SGX yet");
    let r: Result<u32, _> = unsupported();
    assert_eq!(r.unwrap_err().kind, ErrorKind::Unsupported);
}

#[test]
fn sgx_ineffective_passes_the_value_through() {
    assert_eq!(sgx_ineffective(42u64), Ok(42u64));
    assert_eq!(sgx_ineffective("x"), Ok("x"));
}

#[test]
fn strlen_finds_the_first_nul() {
    assert_eq!(strlen(&vec![b'a', b'b', b'c', 0, b'd']), 3);
    assert_eq!(strlen(&vec![0]), 0);
    assert_eq!(strlen(&vec![b'a', b'b']), 2);
    assert_eq!(strlen(&Vec::new()), 0);
}
