//! The syscall opcode table: the fixed numeric codes of the kernel ABI.

use vstd::prelude::*;

verus! {

/// The closed set of operations the hosting kernel offers.  Each variant is
/// bound to one numeric code by [`Syscall::code`]; that table is the ABI and
/// must match the kernel exactly.
#[derive(Clone, Copy)]
pub enum Syscall {
    Print,
    Draw,
    Reset,
    Open,
    Close,
    Seek,
    Read,
    Write,
    Socket,
}

impl Syscall {
    /// The numeric code of this operation: the single, auditable place where
    /// the ABI numbers live.
    pub open spec fn code(self) -> isize {
        match self {
            Syscall::Print => 1,
            Syscall::Draw => 2,
            Syscall::Reset => 0,
            Syscall::Open => 10,
            Syscall::Close => 11,
            Syscall::Seek => 12,
            Syscall::Read => 13,
            Syscall::Write => 14,
            Syscall::Socket => 15,
        }
    }

    /// The code as a machine word, ready to be placed in the opcode register.
    pub fn to_isize(&self) -> (r: isize)
        ensures
            r == self.code(),
    {
        match *self {
            Syscall::Print => 1,
            Syscall::Draw => 2,
            Syscall::Reset => 0,
            Syscall::Open => 10,
            Syscall::Close => 11,
            Syscall::Seek => 12,
            Syscall::Read => 13,
            Syscall::Write => 14,
            Syscall::Socket => 15,
        }
    }
}

} // verus!
