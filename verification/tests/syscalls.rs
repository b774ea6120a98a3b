use fvm::error::{ActorError, ExitCode};
use fvm::invocation::invocation_outcome;
use fvm::syscalls::{abort, ExecutionError};

fn aborted(exit_code: u64, message: &[u8]) -> ActorError {
    match abort(exit_code, message) {
        Err(ExecutionError::Actor(e)) => e,
        Ok(n) => panic!("abort returned {}", n),
    }
}

#[test]
fn abort_carries_code_and_message() {
    let e = aborted(16, b"illegal argument");
    assert_eq!(e.exit_code(), ExitCode::ErrIllegalArgument);
    assert_eq!(e.msg(), "illegal argument");
    assert!(!e.is_fatal());
    assert!(!e.is_ok());
    let e = aborted(0, "h\u{e9}llo \u{1f600}".as_bytes());
    assert_eq!(e.exit_code(), ExitCode::OK);
    assert_eq!(e.msg(), "h\u{e9}llo \u{1f600}");
    assert!(e.is_ok());
    assert_eq!(aborted(32, b"").msg(), "");
}

#[test]
fn abort_replaces_a_message_that_is_no_utf8() {
    for bad in [&[0xffu8][..], &[b'a', 0x80], &[0xc3], &[0xed, 0xa0, 0x80], &[0xc0, 0x80]] {
        let e = aborted(1000, bad);
        assert_eq!(e.exit_code(), ExitCode::ErrPlaceholder);
        assert_eq!(e.msg(), "non-utf8 abort message");
    }
}

#[test]
fn exit_codes_and_their_numbers() {
    let known: Vec<u64> = (0..=21).chain([32, 1000]).collect();
    for v in 0..2000u64 {
        match ExitCode::from_u64(v) {
            Some(code) => {
                assert!(known.contains(&v));
                assert_eq!(code.value(), v);
            }
            None => assert!(!known.contains(&v)),
        }
    }
    assert_eq!(ExitCode::from_u64(0), Some(ExitCode::OK));
    assert_eq!(ExitCode::from_u64(1), Some(ExitCode::SysErrSenderInvalid));
    assert_eq!(ExitCode::from_u64(2), Some(ExitCode::SysErrSenderStateInvalid));
    assert_eq!(ExitCode::from_u64(6), Some(ExitCode::SysErrInsufficientFunds));
    assert_eq!(ExitCode::from_u64(7), Some(ExitCode::SysErrOutOfGas));
    assert_eq!(ExitCode::from_u64(10), Some(ExitCode::SysErrIllegalArgument));
    assert_eq!(ExitCode::from_u64(u64::MAX), None);
    assert!(ExitCode::OK.is_success());
    assert!(!ExitCode::SysErrOutOfGas.is_success());
}

#[test]
fn actor_errors() {
    let e = ActorError::new(ExitCode::ErrNotFound, "gone".to_string());
    assert_eq!((e.is_fatal(), e.exit_code(), e.msg()), (false, ExitCode::ErrNotFound, "gone"));
    let f = ActorError::new_fatal("broken".to_string());
    assert_eq!((f.is_fatal(), f.exit_code(), f.msg()), (true, ExitCode::ErrPlaceholder, "broken"));
}

#[test]
fn end_of_an_invocation() {
    let data = || vec![1u8, 2];
    // the entry point returned a number that stands for an exit code
    assert_eq!(invocation_outcome(Some(0), None, data()), (ExitCode::OK, data()));
    assert_eq!(invocation_outcome(Some(16), None, data()), (ExitCode::ErrIllegalArgument, data()));
    // a number that stands for none
    assert_eq!(invocation_outcome(Some(22), None, data()), (ExitCode::SysErrIllegalActor, data()));
    assert_eq!(
        invocation_outcome(Some(u32::MAX), None, vec![]),
        (ExitCode::SysErrIllegalActor, vec![])
    );
    // a trap that no abort explains
    assert_eq!(invocation_outcome(None, None, data()), (ExitCode::SysErrIllegalActor, vec![]));
    // an abort counts, whatever came back
    assert_eq!(
        invocation_outcome(None, Some(ExitCode::ErrForbidden), data()),
        (ExitCode::ErrForbidden, vec![])
    );
    assert_eq!(
        invocation_outcome(Some(0), Some(ExitCode::SysErrOutOfGas), data()),
        (ExitCode::SysErrOutOfGas, vec![])
    );
}
