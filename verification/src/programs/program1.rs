use vstd::prelude::*;

use crate::programs::user::{terminate_process, SyscallRequest};

verus! {

/// The syscalls the first program makes, in order: it ends itself; the
/// kernel does not come back to it.
pub fn main() -> (calls: Vec<SyscallRequest>)
    ensures
        calls@ == seq![SyscallRequest { number: 2, arg: None }],
{
    let mut calls: Vec<SyscallRequest> = Vec::new();
    calls.push(terminate_process());
    calls
}

} // verus!
