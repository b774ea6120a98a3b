//! Exit codes and the errors that actors and syscalls raise.

use vstd::prelude::*;

verus! {

/// Classifies the outcome of a message or of a syscall.
#[derive(Clone, Copy, Debug, PartialEq, Eq, Structural, Hash)]
pub enum ExitCode {
    OK,
    /// The message sender does not exist or is not an account.
    SysErrSenderInvalid,
    /// The sender's sequence or balance does not admit the message.
    SysErrSenderStateInvalid,
    SysErrInvalidMethod,
    SysErrReserved1,
    SysErrInvalidReceiver,
    /// The sender cannot cover the value of a send.
    SysErrInsufficientFunds,
    /// The gas budget of the message is exhausted.
    SysErrOutOfGas,
    SysErrForbidden,
    SysErrIllegalActor,
    SysErrIllegalArgument,
    SysErrReserved2,
    SysErrReserved3,
    SysErrReserved4,
    SysErrReserved5,
    SysErrReserved6,
    ErrIllegalArgument,
    ErrNotFound,
    ErrForbidden,
    ErrInsufficientFunds,
    ErrIllegalState,
    ErrSerialization,
    ErrTooManyProveCommits,
    ErrPlaceholder,
}

impl ExitCode {
    /// The number that stands for the code on the wire.
    pub open spec fn spec_value(self) -> u64 {
        match self {
            ExitCode::OK => 0,
            ExitCode::SysErrSenderInvalid => 1,
            ExitCode::SysErrSenderStateInvalid => 2,
            ExitCode::SysErrInvalidMethod => 3,
            ExitCode::SysErrReserved1 => 4,
            ExitCode::SysErrInvalidReceiver => 5,
            ExitCode::SysErrInsufficientFunds => 6,
            ExitCode::SysErrOutOfGas => 7,
            ExitCode::SysErrForbidden => 8,
            ExitCode::SysErrIllegalActor => 9,
            ExitCode::SysErrIllegalArgument => 10,
            ExitCode::SysErrReserved2 => 11,
            ExitCode::SysErrReserved3 => 12,
            ExitCode::SysErrReserved4 => 13,
            ExitCode::SysErrReserved5 => 14,
            ExitCode::SysErrReserved6 => 15,
            ExitCode::ErrIllegalArgument => 16,
            ExitCode::ErrNotFound => 17,
            ExitCode::ErrForbidden => 18,
            ExitCode::ErrInsufficientFunds => 19,
            ExitCode::ErrIllegalState => 20,
            ExitCode::ErrSerialization => 21,
            ExitCode::ErrTooManyProveCommits => 32,
            ExitCode::ErrPlaceholder => 1000,
        }
    }

    /// Whether a number stands for an exit code.
    pub open spec fn known(v: u64) -> bool {
        v <= 21 || v == 32 || v == 1000
    }

    pub open spec fn spec_is_success(self) -> bool {
        self == ExitCode::OK
    }

    /// Different exit codes stand on the wire as different numbers.
    pub proof fn lemma_values_differ()
        ensures
            forall|a: ExitCode, b: ExitCode|
                #[trigger] a.spec_value() == #[trigger] b.spec_value() ==> a == b,
    {
    }

    #[verifier::when_used_as_spec(spec_value)]
    pub fn value(self) -> (r: u64)
        ensures
            r == self.spec_value(),
            Self::known(r),
    {
        match self {
            ExitCode::OK => 0,
            ExitCode::SysErrSenderInvalid => 1,
            ExitCode::SysErrSenderStateInvalid => 2,
            ExitCode::SysErrInvalidMethod => 3,
            ExitCode::SysErrReserved1 => 4,
            ExitCode::SysErrInvalidReceiver => 5,
            ExitCode::SysErrInsufficientFunds => 6,
            ExitCode::SysErrOutOfGas => 7,
            ExitCode::SysErrForbidden => 8,
            ExitCode::SysErrIllegalActor => 9,
            ExitCode::SysErrIllegalArgument => 10,
            ExitCode::SysErrReserved2 => 11,
            ExitCode::SysErrReserved3 => 12,
            ExitCode::SysErrReserved4 => 13,
            ExitCode::SysErrReserved5 => 14,
            ExitCode::SysErrReserved6 => 15,
            ExitCode::ErrIllegalArgument => 16,
            ExitCode::ErrNotFound => 17,
            ExitCode::ErrForbidden => 18,
            ExitCode::ErrInsufficientFunds => 19,
            ExitCode::ErrIllegalState => 20,
            ExitCode::ErrSerialization => 21,
            ExitCode::ErrTooManyProveCommits => 32,
            ExitCode::ErrPlaceholder => 1000,
        }
    }

    /// The exit code that a number stands for, if any.
    pub fn from_u64(v: u64) -> (r: Option<ExitCode>)
        ensures
            r is Some <==> Self::known(v),
            r matches Some(code) ==> code.spec_value() == v,
    {
        match v {
            0 => Some(ExitCode::OK),
            1 => Some(ExitCode::SysErrSenderInvalid),
            2 => Some(ExitCode::SysErrSenderStateInvalid),
            3 => Some(ExitCode::SysErrInvalidMethod),
            4 => Some(ExitCode::SysErrReserved1),
            5 => Some(ExitCode::SysErrInvalidReceiver),
            6 => Some(ExitCode::SysErrInsufficientFunds),
            7 => Some(ExitCode::SysErrOutOfGas),
            8 => Some(ExitCode::SysErrForbidden),
            9 => Some(ExitCode::SysErrIllegalActor),
            10 => Some(ExitCode::SysErrIllegalArgument),
            11 => Some(ExitCode::SysErrReserved2),
            12 => Some(ExitCode::SysErrReserved3),
            13 => Some(ExitCode::SysErrReserved4),
            14 => Some(ExitCode::SysErrReserved5),
            15 => Some(ExitCode::SysErrReserved6),
            16 => Some(ExitCode::ErrIllegalArgument),
            17 => Some(ExitCode::ErrNotFound),
            18 => Some(ExitCode::ErrForbidden),
            19 => Some(ExitCode::ErrInsufficientFunds),
            20 => Some(ExitCode::ErrIllegalState),
            21 => Some(ExitCode::ErrSerialization),
            32 => Some(ExitCode::ErrTooManyProveCommits),
            1000 => Some(ExitCode::ErrPlaceholder),
            _ => None,
        }
    }

    #[verifier::when_used_as_spec(spec_is_success)]
    pub fn is_success(self) -> (r: bool)
        ensures
            r == self.spec_is_success(),
    {
        self == ExitCode::OK
    }
}

/// What an [`ActorError`] says, as plain values.
pub struct ActorErrorView {
    pub fatal: bool,
    pub exit_code: ExitCode,
    pub msg: Seq<char>,
}

/// An error raised by an actor or on its behalf. A fatal error aborts the
/// whole top-level message; any other one only fails the call in progress
/// with its exit code.
#[derive(Clone, Debug, PartialEq, Eq)]
pub struct ActorError {
    fatal: bool,
    exit_code: ExitCode,
    msg: String,
}

impl View for ActorError {
    type V = ActorErrorView;

    closed spec fn view(&self) -> ActorErrorView {
        ActorErrorView { fatal: self.fatal, exit_code: self.exit_code, msg: self.msg@ }
    }
}

impl ActorError {
    /// A recoverable error with the given exit code.
    pub fn new(exit_code: ExitCode, msg: String) -> (r: ActorError)
        ensures
            r@ == (ActorErrorView { fatal: false, exit_code, msg: msg@ }),
    {
        ActorError { fatal: false, exit_code, msg }
    }

    /// A fatal error.
    pub fn new_fatal(msg: String) -> (r: ActorError)
        ensures
            r@ == (ActorErrorView { fatal: true, exit_code: ExitCode::ErrPlaceholder, msg: msg@ }),
    {
        ActorError { fatal: true, exit_code: ExitCode::ErrPlaceholder, msg }
    }

    pub fn is_fatal(&self) -> (r: bool)
        ensures
            r == self@.fatal,
    {
        self.fatal
    }

    pub fn exit_code(&self) -> (r: ExitCode)
        ensures
            r == self@.exit_code,
    {
        self.exit_code
    }

    pub fn msg(&self) -> (r: &str)
        ensures
            r@ == self@.msg,
    {
        self.msg.as_str()
    }

    /// Whether the error carries the success code.
    pub fn is_ok(&self) -> (r: bool)
        ensures
            r == (self@.exit_code == ExitCode::OK),
    {
        self.exit_code == ExitCode::OK
    }
}

} // verus!
