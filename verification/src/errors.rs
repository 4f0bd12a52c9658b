use vstd::prelude::*;

use crate::ustar::ArchiveError;
use crate::vm::{RunOk, RunResult};

verus! {

/// A failure that the contract caused and cannot handle; the second field is what caused it.
pub struct ContractError(pub String, pub Option<Box<VmError>>);

/// A failure that the contract raised on purpose (a rollback), with its message.
pub struct UserError(pub String);

impl UserError {
    /// The error's text: `UserError(` and its message, quoted and escaped as `{:?}` writes it,
    /// and `)`.
    pub fn to_string(&self) -> (r: String)
        ensures
            r@ == "UserError("@ + crate::text::debug_quoted(self.0@) + ")"@,
    {
        String::from_str("UserError(").concat(crate::text::str_debug(self.0.as_str()).as_str()).concat(")")
    }
}

/// The contract finished early, handing back these calldata bytes.
pub struct ContractReturn(pub Vec<u8>);

/// The guest called `proc_exit` with this code.
pub struct I32Exit(pub i32);

/// The ways a run of a virtual machine can stop other than by returning normally.
pub enum VmError {
    Contract(ContractError),
    User(UserError),
    Returned(ContractReturn),
    Exit(I32Exit),
    /// An archive could not be read.
    Archive(ArchiveError),
    /// A trap of the wasm engine, by its description.
    Trap(String),
    /// Any other failure, by its message; the host sees it as an internal error.
    Other(String),
}

impl ContractError {
    /// The error reported when a memory limit is exceeded.
    pub fn oom(cause: Option<VmError>) -> (r: ContractError)
        ensures
            r.0@ == "OOM"@,
            match cause {
                None => r.1 is None,
                Some(c) => r.1 == Some(Box::new(c)),
            },
    {
        let message = String::from_str("OOM");
        match cause {
            None => ContractError(message, None),
            Some(c) => ContractError(message, Some(Box::new(c))),
        }
    }

    /// The error's text: `VMError(` and its message and `)`.
    pub fn to_string(&self) -> (r: String)
        ensures
            r@ == "VMError("@ + self.0@ + ")"@,
    {
        String::from_str("VMError(").concat(self.0.as_str()).concat(")")
    }

    /// Wraps `cause` under `message`, unless the cause already is a contract error, which is
    /// then kept as it is.
    pub fn wrap(message: String, cause: VmError) -> (r: ContractError)
        ensures
            match cause {
                VmError::Contract(ce) => r == ce,
                other => r.0 == message && r.1 == Some(Box::new(other)),
            },
    {
        match cause {
            VmError::Contract(ce) => ce,
            other => ContractError(message, Some(Box::new(other))),
        }
    }

    /// Turns a contract error that ended a run into the run's result; every other outcome passes
    /// through unchanged.
    pub fn unwrap_res(res: RunResult) -> (r: RunResult)
        ensures
            match res {
                Err(VmError::Contract(ce)) => r == Ok::<RunOk, VmError>(RunOk::ContractError(ce.0, ce.1)),
                other => r == other,
            },
    {
        match res {
            Ok(x) => Ok(x),
            Err(e) => match e {
                VmError::Contract(ce) => Ok(RunOk::ContractError(ce.0, ce.1)),
                other => Err(other),
            },
        }
    }
}

} // verus!
