use vstd::prelude::*;

verus! {

/// The registers a user program sets before `sysenter`: the syscall number
/// (r13) and, for some syscalls, an argument (r12).
#[derive(Copy, Clone, Debug, PartialEq, Eq, Structural)]
pub struct SyscallRequest {
    pub number: u64,
    pub arg: Option<u64>,
}

/// The argument of the character-output request: attribute in the second
/// byte, character below it.
pub open spec fn putc_arg(ac: (u8, char)) -> u64 {
    ((ac.0 as u64) << 8u64) | (ac.1 as u64)
}

/// Asks the kernel for a page; its address comes back in r13.
pub fn alloc_memory() -> (r: SyscallRequest)
    ensures
        r == (SyscallRequest { number: 1, arg: None }),
{
    SyscallRequest { number: 1, arg: None }
}

/// Ends the calling program.
pub fn terminate_process() -> (r: SyscallRequest)
    ensures
        r == (SyscallRequest { number: 2, arg: None }),
{
    SyscallRequest { number: 2, arg: None }
}

/// Gives up the processor.
pub fn yield_process() -> (r: SyscallRequest)
    ensures
        r == (SyscallRequest { number: 3, arg: None }),
{
    SyscallRequest { number: 3, arg: None }
}

/// Asks for mutex `m_id`.
pub fn acquire_resource(m_id: u64) -> (r: SyscallRequest)
    ensures
        r == (SyscallRequest { number: 4, arg: Some(m_id) }),
{
    SyscallRequest { number: 4, arg: Some(m_id) }
}

/// Lets go of mutex `m_id`.
pub fn release_resource(m_id: u64) -> (r: SyscallRequest)
    ensures
        r == (SyscallRequest { number: 5, arg: Some(m_id) }),
{
    SyscallRequest { number: 5, arg: Some(m_id) }
}

/// Asks the kernel to print character `ac.1` in attribute `ac.0`.
pub fn putc(ac: (u8, char)) -> (r: SyscallRequest)
    ensures
        r == (SyscallRequest { number: 6, arg: Some(putc_arg(ac)) }),
{
    let (attr, ch) = ac;
    let val: u64 = (attr as u64) << 8u64 | ch as u64;
    SyscallRequest { number: 6, arg: Some(val) }
}

} // verus!
