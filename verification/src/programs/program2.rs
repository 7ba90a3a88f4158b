use vstd::prelude::*;

use crate::programs::user::{acquire_resource, terminate_process, yield_process, SyscallRequest};

verus! {

/// The syscalls the second program makes, in order: it takes mutex 0, gives
/// up the processor, then ends itself.
pub fn main2() -> (calls: Vec<SyscallRequest>)
    ensures
        calls@ == seq![
            SyscallRequest { number: 4, arg: Some(0) },
            SyscallRequest { number: 3, arg: None },
            SyscallRequest { number: 2, arg: None },
        ],
{
    let mut calls: Vec<SyscallRequest> = Vec::new();
    calls.push(acquire_resource(0));
    calls.push(yield_process());
    calls.push(terminate_process());
    calls
}

} // verus!
