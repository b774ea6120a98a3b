//! What the machine makes of the requests of sandboxed code that end an
//! invocation.

use crate::error::{ActorError, ExitCode};
use vstd::prelude::*;
use vstd::utf8::{encode_utf8, valid_utf8};

verus! {

/// Why an invocation stopped.
#[derive(Clone, Debug, PartialEq, Eq)]
pub enum ExecutionError {
    /// The actor aborted.
    Actor(ActorError),
}

/// Calls `String::from_utf8`.
///
/// Trusted: the result is `None` exactly when the bytes are not valid UTF-8,
/// and otherwise the string whose UTF-8 encoding the bytes are.
#[verifier::external_body]
fn string_from_utf8(bytes: Vec<u8>) -> (r: Option<String>)
    ensures
        r is Some <==> valid_utf8(bytes@),
        r matches Some(s) ==> encode_utf8(s@) == bytes@,
{
    match String::from_utf8(bytes) {
        Ok(s) => Some(s),
        Err(_) => None,
    }
}

/// The message that stands in for one that is no valid UTF-8.
pub const NON_UTF8_ABORT_MESSAGE: &'static str = "non-utf8 abort message";

/// Raises an actor-driven abort: always an error, which carries the exit
/// code that `exit_code` stands for and the message, or a stand-in for a
/// message that is no valid UTF-8.
pub fn abort(exit_code: u64, message: &[u8]) -> (r: Result<u32, ExecutionError>)
    requires
        ExitCode::known(exit_code),
    ensures
        r matches Err(ExecutionError::Actor(e)) && !e@.fatal && e@.exit_code.spec_value()
            == exit_code && if valid_utf8(message@) {
            encode_utf8(e@.msg) == message@
        } else {
            e@.msg == NON_UTF8_ABORT_MESSAGE@
        },
{
    let code = match ExitCode::from_u64(exit_code) {
        Some(code) => code,
        None => ExitCode::ErrPlaceholder,
    };
    let msg = match string_from_utf8(crate::bytes::copy_bytes(message)) {
        Some(msg) => msg,
        None => NON_UTF8_ABORT_MESSAGE.to_owned(),
    };
    Err(ExecutionError::Actor(ActorError::new(code, msg)))
}

} // verus!
