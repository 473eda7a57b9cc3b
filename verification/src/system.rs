//! Typed system operations: one fallible wrapper per resource operation.
//!
//! Each wrapper fixes the opcode and the argument shape for one operation
//! and hands the gateway an (address, length) pair for every buffer.  A
//! wrapper never panics and never interprets the kernel's answer: it always
//! returns the raw signed result word, leaving policy to the caller.
//! Wrappers that take host bytes first stage them into guest memory at a
//! caller-chosen address, which is the address the kernel is then given.

use vstd::prelude::*;

use crate::gateway::syscall1;
use crate::gateway::syscall2;
use crate::gateway::syscall3;
use crate::kernel::open_step;
use crate::kernel::read_step;
use crate::kernel::seek_step;
use crate::kernel::socket_step;
use crate::kernel::write_step;
use crate::machine::{Machine, MachineModel, DescModel, FAILURE, MAX_DESCS, MEM_SIZE, WOULD_BLOCK, store};
use crate::syscall::Syscall;

verus! {

/// The machine after staging `data` into guest memory at `at`.
pub open spec fn staged(m: MachineModel, at: int, data: Seq<u8>) -> MachineModel {
    MachineModel { mem: store(m.mem, at, data), ..m }
}

/// Print a byte message: stage it at `at` and trap.  Fire and forget: the
/// kernel's result carries nothing a caller acts on, so none is returned.
/// A message that does not fit in guest memory at `at` is dropped whole.
pub fn print(m: &mut Machine, msg: &[u8], at: usize)
    requires
        old(m)@.wf(),
    ensures
        final(m)@.wf(),
        at + msg@.len() <= MEM_SIZE ==> final(m)@ == (MachineModel {
            mem: store(old(m)@.mem, at as int, msg@),
            console: old(m)@.console + msg@,
            ..old(m)@
        }),
        at + msg@.len() > MEM_SIZE ==> final(m)@ == old(m)@,
{
    if at > MEM_SIZE || msg.len() > MEM_SIZE - at {
        return ;
    }
    m.store_bytes(at, msg);
    let len = msg.len();
    let r = syscall2(m, Syscall::Print, at as isize, len as isize);
    proof {
        let sm = staged(old(m)@, at as int, msg@);
        assert(sm.mem.subrange(at as int, at + msg@.len()) =~= msg@);
        assert(m@ =~= (MachineModel {
            mem: store(old(m)@.mem, at as int, msg@),
            console: old(m)@.console + msg@,
            ..old(m)@
        }));
    }
}

/// Open a file: stage the path bytes at `at` and trap with the path's
/// (address, length) pair and the flags word.  Returns a fresh descriptor,
/// or the failure sentinel exactly when the descriptor table is full.
pub fn open(m: &mut Machine, path_name: &[u8], at: usize, flags: isize) -> (r: isize)
    requires
        old(m)@.wf(),
        at + path_name@.len() <= MEM_SIZE,
    ensures
        final(m)@.wf(),
        (final(m)@, r as int) == open_step(
            staged(old(m)@, at as int, path_name@),
            at as int,
            path_name@.len() as int,
            flags as int,
        ),
        r >= 0 <==> old(m)@.descs.len() < MAX_DESCS,
        r >= 0 ==> r as int == old(m)@.descs.len(),
        r < 0 ==> r == FAILURE && final(m)@ == staged(old(m)@, at as int, path_name@),
{
    m.store_bytes(at, path_name);
    let len = path_name.len();
    syscall3(m, Syscall::Open, at as isize, len as isize, flags)
}

/// Open a socket: stage the `host:port` address bytes at `at` and trap.
/// Returns a fresh descriptor, or the failure sentinel exactly when the
/// descriptor table is full.
pub fn socket(m: &mut Machine, address: &[u8], at: usize) -> (r: isize)
    requires
        old(m)@.wf(),
        at + address@.len() <= MEM_SIZE,
    ensures
        final(m)@.wf(),
        (final(m)@, r as int) == socket_step(
            staged(old(m)@, at as int, address@),
            at as int,
            address@.len() as int,
        ),
        r >= 0 <==> old(m)@.descs.len() < MAX_DESCS,
        r >= 0 ==> r as int == old(m)@.descs.len() && final(m)@.descs[r as int]
            == DescModel::Socket,
        r < 0 ==> r == FAILURE && final(m)@ == staged(old(m)@, at as int, address@),
{
    m.store_bytes(at, address);
    let len = address.len();
    syscall2(m, Syscall::Socket, at as isize, len as isize)
}

/// Close a descriptor.  Returns zero exactly when the handle named a live
/// descriptor, which is retired for good; the failure sentinel otherwise.
pub fn close(m: &mut Machine, fd: isize) -> (r: isize)
    requires
        old(m)@.wf(),
    ensures
        final(m)@.wf(),
        (final(m)@, r as int) == crate::kernel::close_step(old(m)@, fd as int),
        r == 0 <==> 0 <= fd < old(m)@.descs.len() && !(old(m)@.descs[fd as int] is Closed),
        r != 0 ==> r == FAILURE && final(m)@ == old(m)@,
        r == 0 ==> final(m)@.descs == old(m)@.descs.update(fd as int, DescModel::Closed),
{
    syscall1(m, Syscall::Close, fd)
}

/// Move a file descriptor's position.  Returns the new position, counted
/// from the start (whence 0), the current position (whence 1) or the end
/// (whence 2); the failure sentinel exactly when the handle is not a file,
/// the whence word is none of these, or the target lies outside the file.
pub fn seek(m: &mut Machine, fd: isize, offset: isize, whence: isize) -> (r: isize)
    requires
        old(m)@.wf(),
    ensures
        final(m)@.wf(),
        (final(m)@, r as int) == seek_step(old(m)@, fd as int, offset as int, whence as int),
        r < 0 ==> r == FAILURE && final(m)@ == old(m)@,
{
    syscall3(m, Syscall::Seek, fd, offset, whence)
}

/// Read from a descriptor into the guest-memory region at `buf_addr`.  A
/// file yields the bytes at its position and advances it; a socket yields
/// delivered bytes, or the reserved would-block sentinel exactly when none
/// are waiting.  The failure sentinel comes exactly when the region is out
/// of bounds or the handle is not live.
pub fn read(m: &mut Machine, fd: isize, buf_addr: usize, buf_len: usize) -> (r: isize)
    requires
        old(m)@.wf(),
        buf_addr <= (isize::MAX as usize),
        buf_len <= (isize::MAX as usize),
    ensures
        final(m)@.wf(),
        (final(m)@, r as int) == read_step(
            old(m)@,
            fd as int,
            buf_addr as int,
            buf_len as int,
        ),
        r == WOULD_BLOCK <==> buf_addr + buf_len <= old(m)@.mem.len() && 0 <= fd < old(
            m,
        )@.descs.len() && old(m)@.descs[fd as int] is Socket && old(m)@.socket_in.len() == 0,
        r == FAILURE <==> !(buf_addr + buf_len <= old(m)@.mem.len()) || !(0 <= fd < old(
            m,
        )@.descs.len()) || old(m)@.descs[fd as int] is Closed,
        r >= 0 ==> r as int <= buf_len,
{
    syscall3(m, Syscall::Read, fd, buf_addr as isize, buf_len as isize)
}

/// Write host bytes to a descriptor: stage them at `at` and trap with the
/// (address, length) pair, as the kernel only reads guest memory.
pub fn write_u8_slice(m: &mut Machine, fd: isize, buf: &[u8], at: usize) -> (r: isize)
    requires
        old(m)@.wf(),
        at + buf@.len() <= MEM_SIZE,
    ensures
        final(m)@.wf(),
        (final(m)@, r as int) == write_step(
            staged(old(m)@, at as int, buf@),
            fd as int,
            at as int,
            buf@.len() as int,
        ),
        r >= 0 ==> r as int == buf@.len(),
        r < 0 ==> r == FAILURE,
{
    m.store_bytes(at, buf);
    let len = buf.len();
    syscall3(m, Syscall::Write, fd, at as isize, len as isize)
}

/// Write a guest-memory region, named by raw address and count, to a
/// descriptor.  Returns the byte count, or the failure sentinel exactly
/// when the region is out of bounds, the handle is not live, or a file
/// would outgrow the kernel's bound.
pub fn write_ptr(m: &mut Machine, fd: isize, ptr: usize, count: usize) -> (r: isize)
    requires
        old(m)@.wf(),
        ptr <= (isize::MAX as usize),
        count <= (isize::MAX as usize),
    ensures
        final(m)@.wf(),
        (final(m)@, r as int) == write_step(old(m)@, fd as int, ptr as int, count as int),
        r >= 0 ==> r as int == count,
        r < 0 ==> r == FAILURE && final(m)@ == old(m)@,
{
    syscall3(m, Syscall::Write, fd, ptr as isize, count as isize)
}

} // verus!
