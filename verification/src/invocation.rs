//! What a sandbox needs to run one invocation.

use crate::cid::Cid;
use crate::error::ExitCode;
use crate::kernel::DefaultKernel;
use vstd::prelude::*;

verus! {

/// The data bound to one sandbox instance: the kernel that the sandboxed code
/// talks to, and the identifier of the code to run. The method to invoke and
/// the handle of its parameters are read off the kernel.
#[derive(Debug)]
pub struct InvocationContainer {
    pub kernel: DefaultKernel,
    pub code: Cid,
}

impl InvocationContainer {
    pub fn new(kernel: DefaultKernel, code: Cid) -> (r: InvocationContainer)
        ensures
            r.kernel == kernel,
            r.code == code,
    {
        InvocationContainer { kernel, code }
    }
}

/// The exit code with which an invocation ended: that of the abort, if the
/// code aborted; else the one that the number returned by the entry point
/// stands for; and that of an illegal actor when the number stands for none
/// or the code trapped without an abort, so that `returned` is `None`.
pub open spec fn spec_exit_code(returned: Option<u32>, aborted: Option<ExitCode>) -> ExitCode {
    match aborted {
        Some(exit_code) => exit_code,
        None => match returned {
            Some(number) => if ExitCode::known(number as u64) {
                choose|exit_code: ExitCode| exit_code.spec_value() == number
            } else {
                ExitCode::SysErrIllegalActor
            },
            None => ExitCode::SysErrIllegalActor,
        },
    }
}

/// What the end of an invocation comes to: the exit code, as
/// [`spec_exit_code`] has it, and the data that the code returned, which
/// counts only where the entry point returned without an abort.
pub fn invocation_outcome(returned: Option<u32>, aborted: Option<ExitCode>, data: Vec<u8>) -> (r: (
    ExitCode,
    Vec<u8>,
))
    ensures
        r.0 == spec_exit_code(returned, aborted),
        r.1@ == if aborted is None && returned is Some {
            data@
        } else {
            Seq::<u8>::empty()
        },
{
    match (aborted, returned) {
        (Some(exit_code), _) => (exit_code, Vec::new()),
        (None, Some(number)) => match ExitCode::from_u64(number as u64) {
            Some(exit_code) => {
                proof {
                    ExitCode::lemma_values_differ();
                }
                (exit_code, data)
            },
            None => (ExitCode::SysErrIllegalActor, data),
        },
        (None, None) => (ExitCode::SysErrIllegalActor, Vec::new()),
    }
}

} // verus!
