//! The simulated kernel: what each syscall does to the machine.
//!
//! The hosting kernel itself is an external collaborator of the real guest;
//! this module gives it a concrete, verified stand-in with the same
//! contract, so that the gateway and everything above it can be checked
//! end to end.  [`kernel_step`] is the kernel's transition function: it
//! decodes a register bank against guest memory and produces the next
//! machine together with the signed result word.  Negative results are
//! failures; the one reserved sentinel [`crate::machine::WOULD_BLOCK`]
//! marks a socket read that found no data.

use vstd::prelude::*;

use crate::gateway::Frame;
use crate::gateway::FrameModel;
use crate::machine::{
    descs_model, files_model, region, region_ok, store, Desc, DescModel, FileEntry, FileModel,
    Machine, MachineModel, FAILURE, MAX_DESCS, MAX_FILE_LEN, WOULD_BLOCK,
};
use crate::syscall::Syscall;

verus! {

/// The smaller of two integers.
pub open spec fn int_min(a: int, b: int) -> int {
    if a <= b {
        a
    } else {
        b
    }
}

/// Index of the first file at or after `i` whose path is `path`, or -1.
pub open spec fn find_file_from(files: Seq<FileModel>, path: Seq<u8>, i: int) -> int
    decreases files.len() - i,
{
    if i < 0 || i >= files.len() {
        -1
    } else if files[i].path == path {
        i
    } else {
        find_file_from(files, path, i + 1)
    }
}

/// Index of the first file whose path is `path`, or -1 if there is none.
pub open spec fn find_file(files: Seq<FileModel>, path: Seq<u8>) -> int {
    find_file_from(files, path, 0)
}

/// What a lookup result means: -1 exactly when no file at or after `i`
/// carries the path, and otherwise the first index that does.
pub proof fn lemma_find_file_from(files: Seq<FileModel>, path: Seq<u8>, i: int)
    requires
        0 <= i,
    ensures
        ({
            let r = find_file_from(files, path, i);
            &&& (r == -1 <==> (forall|j: int| i <= j < files.len() ==> files[j].path != path))
            &&& (r != -1 ==> i <= r < files.len() && files[r].path == path && (forall|j: int|
                i <= j < r ==> files[j].path != path))
        }),
    decreases files.len() - i,
{
    if i < files.len() && files[i].path != path {
        lemma_find_file_from(files, path, i + 1);
    }
}

/// File contents after writing `patch` at offset `pos`: the prefix before
/// `pos` is kept, the patch replaces what it overlaps, and any old suffix
/// beyond the patch survives.
pub open spec fn spliced(d: Seq<u8>, pos: int, patch: Seq<u8>) -> Seq<u8> {
    d.take(pos) + patch + (if pos + patch.len() <= d.len() {
        d.skip(pos + patch.len())
    } else {
        Seq::empty()
    })
}

/// Print: append the named region to the console; the result is the length.
pub open spec fn print_step(m: MachineModel, a0: int, a1: int) -> (MachineModel, int) {
    if !region_ok(m, a0, a1) {
        (m, FAILURE as int)
    } else {
        (MachineModel { console: m.console + region(m, a0, a1), ..m }, a1)
    }
}

/// Redraw: note that the display should be rendered; no memory is touched.
pub open spec fn draw_step(m: MachineModel) -> (MachineModel, int) {
    let d: u64 = if m.draws < u64::MAX {
        (m.draws + 1) as u64
    } else {
        m.draws
    };
    (MachineModel { draws: d, ..m }, 0)
}

/// Reset: the model kernel acknowledges the trap and keeps its state.
pub open spec fn reset_step(m: MachineModel) -> (MachineModel, int) {
    (m, 0)
}

/// Open: read the path from the named region, create the file if it is new,
/// and hand out a fresh descriptor positioned at the start.  The flags word
/// `a2` is kernel-interpreted; this kernel has a single mode and accepts
/// any value of it.
pub open spec fn open_step(m: MachineModel, a0: int, a1: int, a2: int) -> (MachineModel, int) {
    if !region_ok(m, a0, a1) || m.descs.len() >= MAX_DESCS {
        (m, FAILURE as int)
    } else {
        let path = region(m, a0, a1);
        let fi = find_file(m.files, path);
        let fidx: int = if fi == -1 {
            m.files.len() as int
        } else {
            fi
        };
        let files: Seq<FileModel> = if fi == -1 {
            m.files.push(FileModel { path, data: Seq::empty() })
        } else {
            m.files
        };
        (
            MachineModel {
                files,
                descs: m.descs.push(DescModel::File { file: fidx, pos: 0 }),
                ..m
            },
            m.descs.len() as int,
        )
    }
}

/// Socket: read the `host:port` bytes from the named region and hand out a
/// fresh socket descriptor.  The address itself is interpreted by the
/// network stack behind the kernel, which this model leaves open.
pub open spec fn socket_step(m: MachineModel, a0: int, a1: int) -> (MachineModel, int) {
    if !region_ok(m, a0, a1) || m.descs.len() >= MAX_DESCS {
        (m, FAILURE as int)
    } else {
        (MachineModel { descs: m.descs.push(DescModel::Socket), ..m }, m.descs.len() as int)
    }
}

/// Close: retire a live descriptor; its slot is never handed out again.
pub open spec fn close_step(m: MachineModel, a0: int) -> (MachineModel, int) {
    if 0 <= a0 < m.descs.len() && !(m.descs[a0] is Closed) {
        (MachineModel { descs: m.descs.update(a0, DescModel::Closed), ..m }, 0)
    } else {
        (m, FAILURE as int)
    }
}

/// Seek: move a file descriptor's position relative to the start (whence 0),
/// the current position (whence 1) or the end (whence 2); the result is the
/// new position.  Positions outside the file, other whence values and
/// non-file descriptors fail.
pub open spec fn seek_step(m: MachineModel, a0: int, a1: int, a2: int) -> (MachineModel, int) {
    if !(0 <= a0 < m.descs.len()) {
        (m, FAILURE as int)
    } else {
        match m.descs[a0] {
            DescModel::File { file, pos } => {
                let dlen = m.files[file].data.len() as int;
                if a2 == 0 || a2 == 1 || a2 == 2 {
                    let base: int = if a2 == 0 {
                        0
                    } else if a2 == 1 {
                        pos
                    } else {
                        dlen
                    };
                    let np = base + a1;
                    if 0 <= np <= dlen {
                        (
                            MachineModel {
                                descs: m.descs.update(a0, DescModel::File { file, pos: np }),
                                ..m
                            },
                            np,
                        )
                    } else {
                        (m, FAILURE as int)
                    }
                } else {
                    (m, FAILURE as int)
                }
            },
            _ => (m, FAILURE as int),
        }
    }
}

/// Read: fill the named region from a descriptor.  A file hands out bytes
/// from its position onward; a socket hands out delivered bytes, or the
/// reserved would-block sentinel when none are waiting.  The result is the
/// byte count.
pub open spec fn read_step(m: MachineModel, a0: int, a1: int, a2: int) -> (MachineModel, int) {
    if !region_ok(m, a1, a2) || !(0 <= a0 < m.descs.len()) {
        (m, FAILURE as int)
    } else {
        match m.descs[a0] {
            DescModel::Closed => (m, FAILURE as int),
            DescModel::Socket => {
                if m.socket_in.len() == 0 {
                    (m, WOULD_BLOCK as int)
                } else {
                    let n = int_min(a2, m.socket_in.len() as int);
                    (
                        MachineModel {
                            mem: store(m.mem, a1, m.socket_in.take(n)),
                            socket_in: m.socket_in.skip(n),
                            ..m
                        },
                        n,
                    )
                }
            },
            DescModel::File { file, pos } => {
                let n = int_min(a2, m.files[file].data.len() - pos);
                (
                    MachineModel {
                        mem: store(m.mem, a1, m.files[file].data.subrange(pos, pos + n)),
                        descs: m.descs.update(a0, DescModel::File { file, pos: pos + n }),
                        ..m
                    },
                    n,
                )
            },
        }
    }
}

/// Write: send the named region to a descriptor.  A file takes the bytes at
/// its position, growing if needed but never beyond the kernel's file-size
/// bound; a socket sends them on.  The result is the byte count.
pub open spec fn write_step(m: MachineModel, a0: int, a1: int, a2: int) -> (MachineModel, int) {
    if !region_ok(m, a1, a2) || !(0 <= a0 < m.descs.len()) {
        (m, FAILURE as int)
    } else {
        match m.descs[a0] {
            DescModel::Closed => (m, FAILURE as int),
            DescModel::Socket => (
                MachineModel { socket_out: m.socket_out + region(m, a1, a2), ..m },
                a2,
            ),
            DescModel::File { file, pos } => {
                if pos + a2 > MAX_FILE_LEN {
                    (m, FAILURE as int)
                } else {
                    let nd = spliced(m.files[file].data, pos, region(m, a1, a2));
                    (
                        MachineModel {
                            files: m.files.update(
                                file,
                                FileModel { path: m.files[file].path, data: nd },
                            ),
                            descs: m.descs.update(a0, DescModel::File { file, pos: pos + a2 }),
                            ..m
                        },
                        a2,
                    )
                }
            },
        }
    }
}

/// The kernel's transition function: dispatch a register bank on the opcode
/// register and apply the operation it names.  An opcode outside the table
/// fails and leaves the machine as it was.
pub open spec fn kernel_step(m: MachineModel, f: FrameModel) -> (MachineModel, int) {
    if f.a7 == Syscall::Print.code() as int {
        print_step(m, f.a0, f.a1)
    } else if f.a7 == Syscall::Draw.code() as int {
        draw_step(m)
    } else if f.a7 == Syscall::Reset.code() as int {
        reset_step(m)
    } else if f.a7 == Syscall::Open.code() as int {
        open_step(m, f.a0, f.a1, f.a2)
    } else if f.a7 == Syscall::Close.code() as int {
        close_step(m, f.a0)
    } else if f.a7 == Syscall::Seek.code() as int {
        seek_step(m, f.a0, f.a1, f.a2)
    } else if f.a7 == Syscall::Read.code() as int {
        read_step(m, f.a0, f.a1, f.a2)
    } else if f.a7 == Syscall::Write.code() as int {
        write_step(m, f.a0, f.a1, f.a2)
    } else if f.a7 == Syscall::Socket.code() as int {
        socket_step(m, f.a0, f.a1)
    } else {
        (m, FAILURE as int)
    }
}

/// Every kernel step keeps the machine well formed.
pub proof fn lemma_kernel_step_wf(m: MachineModel, f: FrameModel)
    requires
        m.wf(),
    ensures
        kernel_step(m, f).0.wf(),
{
    let m2 = kernel_step(m, f).0;
    if f.a7 == Syscall::Open.code() as int {
        if region_ok(m, f.a0, f.a1) && m.descs.len() < MAX_DESCS {
            let path = region(m, f.a0, f.a1);
            lemma_find_file_from(m.files, path, 0);
            assert forall|i: int| 0 <= i < m2.descs.len() implies m2.desc_ok(m2.descs[i]) by {
                if i < m.descs.len() {
                    assert(m.desc_ok(m.descs[i]));
                }
            }
            assert forall|i: int, j: int|
                0 <= i < j < m2.files.len() implies m2.files[i].path != m2.files[j].path by {
                if j < m.files.len() {
                    assert(m.files[i].path != m.files[j].path);
                }
            }
        }
    } else if f.a7 == Syscall::Seek.code() as int {
        if 0 <= f.a0 < m.descs.len() {
            assert(m.desc_ok(m.descs[f.a0]));
        }
    } else if f.a7 == Syscall::Read.code() as int {
        if region_ok(m, f.a1, f.a2) && 0 <= f.a0 < m.descs.len() {
            assert(m.desc_ok(m.descs[f.a0]));
            match m.descs[f.a0] {
                DescModel::File { file, pos } => {
                    let n = int_min(f.a2, m.files[file].data.len() - pos);
                    assert forall|i: int| 0 <= i < m2.descs.len() implies m2.desc_ok(
                        m2.descs[i],
                    ) by {
                        assert(m.desc_ok(m.descs[i]));
                    }
                },
                _ => {},
            }
        }
    } else if f.a7 == Syscall::Write.code() as int {
        if region_ok(m, f.a1, f.a2) && 0 <= f.a0 < m.descs.len() {
            assert(m.desc_ok(m.descs[f.a0]));
            match m.descs[f.a0] {
                DescModel::File { file, pos } => {
                    if pos + f.a2 <= MAX_FILE_LEN {
                        let nd = spliced(m.files[file].data, pos, region(m, f.a1, f.a2));
                        assert(nd.len() == if pos + f.a2 <= m.files[file].data.len() {
                            m.files[file].data.len() as int
                        } else {
                            pos + f.a2
                        });
                        assert forall|i: int| 0 <= i < m2.descs.len() implies m2.desc_ok(
                            m2.descs[i],
                        ) by {
                            assert(m.desc_ok(m.descs[i]));
                        }
                        assert forall|i: int, j: int|
                            0 <= i < j < m2.files.len() implies m2.files[i].path
                            != m2.files[j].path by {
                            assert(m.files[i].path != m.files[j].path);
                        }
                    }
                },
                _ => {},
            }
        }
    } else if f.a7 == Syscall::Close.code() as int {
        if 0 <= f.a0 < m.descs.len() && !(m.descs[f.a0] is Closed) {
            assert forall|i: int| 0 <= i < m2.descs.len() implies m2.desc_ok(m2.descs[i]) by {
                assert(m.desc_ok(m.descs[i]));
            }
        }
    } else if f.a7 == Syscall::Socket.code() as int {
        if region_ok(m, f.a0, f.a1) && m.descs.len() < MAX_DESCS {
            assert forall|i: int| 0 <= i < m2.descs.len() implies m2.desc_ok(m2.descs[i]) by {
                if i < m.descs.len() {
                    assert(m.desc_ok(m.descs[i]));
                }
            }
        }
    }
}

/// A descriptor, once closed, is invalid for good: no kernel step brings a
/// closed slot back to life, and the table never shrinks, so a retired
/// handle is never handed out again.
pub proof fn lemma_closed_descriptors_stay_closed(m: MachineModel, f: FrameModel, i: int)
    requires
        0 <= i < m.descs.len(),
        m.descs[i] is Closed,
    ensures
        kernel_step(m, f).0.descs[i] is Closed,
        kernel_step(m, f).0.descs.len() >= m.descs.len(),
{
}

/// A socket read that receives no data returns exactly the reserved
/// would-block sentinel, leaving the machine as it was; the sentinel is
/// negative and distinct from the generic failure result, while every
/// successful read is non-negative, so the three outcomes cannot be
/// mistaken for one another.
pub proof fn lemma_socket_read_would_block(m: MachineModel, fd: int, ba: int, bl: int)
    requires
        m.wf(),
        region_ok(m, ba, bl),
        0 <= fd < m.descs.len(),
        m.descs[fd] is Socket,
        m.socket_in.len() == 0,
    ensures
        read_step(m, fd, ba, bl) == (m, WOULD_BLOCK as int),
        WOULD_BLOCK < 0,
        WOULD_BLOCK != FAILURE,
{
}

/// Round trip through the file system: writing a byte sequence to a file
/// descriptor and then reading from a freshly reopened descriptor for the
/// same path yields the same bytes.  On a well-formed machine with two
/// descriptor slots free, in-bounds path, data and buffer regions and a
/// data length within the kernel's file bound, no kernel-side error
/// occurs: both opens succeed, the write takes every byte, the close
/// succeeds, and the read returns the full length and the very bytes that
/// were written.
pub proof fn lemma_file_round_trip(m: MachineModel, pa: int, pl: int, da: int, dl: int, ba: int)
    requires
        m.wf(),
        region_ok(m, pa, pl),
        region_ok(m, da, dl),
        region_ok(m, ba, dl),
        m.descs.len() + 2 <= MAX_DESCS,
        dl <= MAX_FILE_LEN,
    ensures
        ({
            let data = region(m, da, dl);
            let s1 = open_step(m, pa, pl, 0);
            let s2 = write_step(s1.0, s1.1, da, dl);
            let s3 = close_step(s2.0, s1.1);
            let s4 = open_step(s3.0, pa, pl, 0);
            let s5 = read_step(s4.0, s4.1, ba, dl);
            &&& s1.1 >= 0
            &&& s2.1 == dl
            &&& s3.1 == 0
            &&& s4.1 >= 0
            &&& s5.1 == dl
            &&& region(s5.0, ba, dl) == data
        }),
{
    let path = region(m, pa, pl);
    let data = region(m, da, dl);

    // First open: a fresh descriptor at the start of the path's file.
    let s1 = open_step(m, pa, pl, 0);
    let fd = s1.1;
    let m1 = s1.0;
    let f_open = FrameModel {
        a7: Syscall::Open.code() as int,
        a0: pa,
        a1: pl,
        a2: 0,
        a3: 0,
        a4: 0,
    };
    assert(kernel_step(m, f_open) == s1);
    lemma_kernel_step_wf(m, f_open);
    lemma_find_file_from(m.files, path, 0);
    let fi = if find_file(m.files, path) == -1 {
        m.files.len() as int
    } else {
        find_file(m.files, path)
    };
    assert(m1.files[fi].path == path);
    assert(m1.descs[fd] == DescModel::File { file: fi, pos: 0 });

    // Write: every byte of the data region lands at the file's start.
    assert(region(m1, da, dl) == data);
    let s2 = write_step(m1, fd, da, dl);
    let m2 = s2.0;
    let f_write = FrameModel {
        a7: Syscall::Write.code() as int,
        a0: fd,
        a1: da,
        a2: dl,
        a3: 0,
        a4: 0,
    };
    assert(kernel_step(m1, f_write) == s2);
    lemma_kernel_step_wf(m1, f_write);
    assert(s2.1 == dl);
    assert(m2.files[fi].data == spliced(m1.files[fi].data, 0, data));
    assert(m2.files[fi].data.subrange(0, dl) =~= data);
    assert(m2.files[fi].path == path);

    // Close the writing descriptor.
    let s3 = close_step(m2, fd);
    let m3 = s3.0;
    let f_close = FrameModel {
        a7: Syscall::Close.code() as int,
        a0: fd,
        a1: 0,
        a2: 0,
        a3: 0,
        a4: 0,
    };
    assert(kernel_step(m2, f_close) == s3);
    lemma_kernel_step_wf(m2, f_close);
    assert(s3.1 == 0);

    // Second open: the lookup finds the very file that was written, since
    // paths are unique on a well-formed machine.
    assert(region(m3, pa, pl) == path);
    let s4 = open_step(m3, pa, pl, 0);
    let fd2 = s4.1;
    let m4 = s4.0;
    lemma_find_file_from(m3.files, path, 0);
    let fj = find_file(m3.files, path);
    assert(m3.files[fi].path == path);
    assert(fj != -1);
    assert(fj == fi) by {
        if fj < fi {
            assert(m3.files[fj].path != m3.files[fi].path);
        } else if fi < fj {
            assert(m3.files[fi].path != m3.files[fj].path);
        }
    }
    let f_open2 = FrameModel {
        a7: Syscall::Open.code() as int,
        a0: pa,
        a1: pl,
        a2: 0,
        a3: 0,
        a4: 0,
    };
    assert(kernel_step(m3, f_open2) == s4);
    lemma_kernel_step_wf(m3, f_open2);
    assert(fd2 == m3.descs.len());
    assert(m4.descs[fd2] == DescModel::File { file: fi, pos: 0 });

    // Read from the fresh descriptor: the file holds at least the written
    // length, so the whole buffer is filled with the written bytes.
    let s5 = read_step(m4, fd2, ba, dl);
    assert(m4.files[fi].data.len() >= dl);
    assert(s5.1 == dl);
    assert(m4.files[fi].data.subrange(0, dl) == data);
    assert(region(s5.0, ba, dl) =~= data);
}

/// Byte-for-byte equality of two vectors.
fn bytes_eq(a: &Vec<u8>, b: &Vec<u8>) -> (r: bool)
    ensures
        r == (a@ == b@),
{
    if a.len() != b.len() {
        return false;
    }
    let n = a.len();
    let mut i: usize = 0;
    while i < n
        invariant
            i <= n,
            n == a.len(),
            n == b.len(),
            forall|j: int| 0 <= j < i ==> a@[j] == b@[j],
        decreases n - i,
    {
        if a[i] != b[i] {
            return false;
        }
        i = i + 1;
    }
    proof {
        assert(a@ =~= b@);
    }
    true
}

/// Append the region `src[off .. off + n]` to `dst`.
fn append_region(dst: &mut Vec<u8>, src: &Vec<u8>, off: usize, n: usize)
    requires
        off + n <= src.len(),
    ensures
        final(dst)@ == old(dst)@ + src@.subrange(off as int, off + n),
{
    proof {
        assert(dst@ =~= old(dst)@ + src@.subrange(off as int, off as int));
    }
    let mut i: usize = 0;
    while i < n
        invariant
            i <= n,
            off + n <= src.len(),
            dst@ == old(dst)@ + src@.subrange(off as int, off + i),
        decreases n - i,
    {
        proof {
            assert(old(dst)@ + src@.subrange(off as int, off + i + 1) =~= (old(dst)@
                + src@.subrange(off as int, off + i)).push(src@[off + i]));
        }
        dst.push(src[off + i]);
        i = i + 1;
    }
}

/// Write the region `src[off .. off + n]` over guest memory at `addr`.
fn copy_region(mem: &mut Vec<u8>, addr: usize, src: &Vec<u8>, off: usize, n: usize)
    requires
        addr + n <= old(mem).len(),
        off + n <= src.len(),
    ensures
        final(mem)@ == store(old(mem)@, addr as int, src@.subrange(off as int, off + n)),
{
    let mut i: usize = 0;
    while i < n
        invariant
            i <= n,
            addr + n <= mem.len(),
            off + n <= src.len(),
            mem@.len() == old(mem)@.len(),
            forall|j: int| 0 <= j < i ==> mem@[addr + j] == #[trigger] src@[off + j],
            forall|k: int|
                0 <= k < mem@.len() && !(addr <= k < addr + i) ==> mem@[k] == old(mem)@[k],
        decreases n - i,
    {
        mem.set(addr + i, src[off + i]);
        i = i + 1;
    }
    proof {
        let s = store(old(mem)@, addr as int, src@.subrange(off as int, off + n));
        assert forall|k: int| 0 <= k < mem@.len() implies mem@[k] == s[k] by {
            if addr <= k < addr + n {
                assert(mem@[addr + (k - addr)] == src@[off + (k - addr)]);
            }
        }
        assert(mem@ =~= s);
    }
}

/// The suffix of `v` from index `n` on.
fn vec_tail(v: &Vec<u8>, n: usize) -> (r: Vec<u8>)
    requires
        n <= v.len(),
    ensures
        r@ == v@.skip(n as int),
{
    let mut r: Vec<u8> = Vec::new();
    let mut i: usize = n;
    while i < v.len()
        invariant
            n <= i <= v.len(),
            r@.len() == i - n,
            forall|j: int| 0 <= j < r@.len() ==> r@[j] == v@[n + j],
        decreases v.len() - i,
    {
        r.push(v[i]);
        i = i + 1;
    }
    proof {
        assert(r@ =~= v@.skip(n as int));
    }
    r
}

/// `d` with `patch` written at offset `pos`.
fn splice_bytes(d: &Vec<u8>, pos: usize, patch: &Vec<u8>) -> (r: Vec<u8>)
    requires
        pos <= d.len(),
        pos + patch@.len() <= usize::MAX,
    ensures
        r@ == spliced(d@, pos as int, patch@),
{
    let mut r: Vec<u8> = Vec::new();
    let mut i: usize = 0;
    while i < pos
        invariant
            i <= pos,
            pos <= d.len(),
            r@.len() == i,
            forall|j: int| 0 <= j < i ==> r@[j] == d@[j],
        decreases pos - i,
    {
        r.push(d[i]);
        i = i + 1;
    }
    proof {
        assert(r@ =~= d@.take(pos as int));
    }
    append_region(&mut r, patch, 0, patch.len());
    proof {
        assert(patch@.subrange(0, patch@.len() as int) =~= patch@);
    }
    let end = pos + patch.len();
    if end < d.len() {
        append_region(&mut r, d, end, d.len() - end);
    }
    proof {
        assert(r@ =~= spliced(d@, pos as int, patch@));
    }
    r
}

/// Index of the file carrying `path`, matching [`find_file`].
fn find_file_exec(files: &Vec<FileEntry>, path: &Vec<u8>) -> (r: Option<usize>)
    ensures
        match r {
            Some(k) => k < files@.len() && find_file(files_model(files@), path@) == k as int,
            None => find_file(files_model(files@), path@) == -1,
        },
{
    let n = files.len();
    let mut i: usize = 0;
    while i < n
        invariant
            i <= n,
            n == files.len(),
            find_file(files_model(files@), path@) == find_file_from(
                files_model(files@),
                path@,
                i as int,
            ),
        decreases n - i,
    {
        if bytes_eq(&files[i].path, path) {
            return Some(i);
        }
        i = i + 1;
    }
    None
}

impl Machine {
    /// The kernel's trap handler: the executable form of [`kernel_step`].
    pub fn handle(&mut self, f: &Frame) -> (r: isize)
        requires
            old(self)@.wf(),
        ensures
            (final(self)@, r as int) == kernel_step(old(self)@, f@),
    {
        let op = f.a7;
        if op == Syscall::Print.to_isize() {
            self.do_print(f.a0, f.a1)
        } else if op == Syscall::Draw.to_isize() {
            self.do_draw()
        } else if op == Syscall::Reset.to_isize() {
            0
        } else if op == Syscall::Open.to_isize() {
            self.do_open(f.a0, f.a1, f.a2)
        } else if op == Syscall::Close.to_isize() {
            self.do_close(f.a0)
        } else if op == Syscall::Seek.to_isize() {
            self.do_seek(f.a0, f.a1, f.a2)
        } else if op == Syscall::Read.to_isize() {
            self.do_read(f.a0, f.a1, f.a2)
        } else if op == Syscall::Write.to_isize() {
            self.do_write(f.a0, f.a1, f.a2)
        } else if op == Syscall::Socket.to_isize() {
            self.do_socket(f.a0, f.a1)
        } else {
            FAILURE
        }
    }

    /// Whether registers name a region inside guest memory; mirrors
    /// [`region_ok`].
    fn args_region_ok(&self, addr: isize, len: isize) -> (r: bool)
        ensures
            r == region_ok(self@, addr as int, len as int),
    {
        let ml = self.mem.len();
        addr >= 0 && len >= 0 && (addr as usize) <= ml && (len as usize) <= ml - (addr as usize)
    }

    fn do_print(&mut self, a0: isize, a1: isize) -> (r: isize)
        requires
            old(self)@.wf(),
        ensures
            (final(self)@, r as int) == print_step(old(self)@, a0 as int, a1 as int),
    {
        if !self.args_region_ok(a0, a1) {
            return FAILURE;
        }
        let addr = a0 as usize;
        let len = a1 as usize;
        append_region(&mut self.console, &self.mem, addr, len);
        proof {
            assert(self@ =~= print_step(old(self)@, a0 as int, a1 as int).0);
        }
        a1
    }

    fn do_draw(&mut self) -> (r: isize)
        ensures
            (final(self)@, r as int) == draw_step(old(self)@),
    {
        if self.draws < u64::MAX {
            self.draws = self.draws + 1;
        }
        proof {
            assert(self@ =~= draw_step(old(self)@).0);
        }
        0
    }

    fn do_open(&mut self, a0: isize, a1: isize, a2: isize) -> (r: isize)
        requires
            old(self)@.wf(),
        ensures
            (final(self)@, r as int) == open_step(old(self)@, a0 as int, a1 as int, a2 as int),
    {
        if !self.args_region_ok(a0, a1) || self.descs.len() >= MAX_DESCS {
            return FAILURE;
        }
        let addr = a0 as usize;
        let len = a1 as usize;
        let path = self.fetch_bytes(addr, len);
        let ghost p = path@;
        let fd = self.descs.len();
        let fi_opt = find_file_exec(&self.files, &path);
        let fi: usize = match fi_opt {
            Some(k) => k,
            None => {
                let k = self.files.len();
                self.files.push(FileEntry { path, data: Vec::new() });
                proof {
                    assert(files_model(self.files@) =~= files_model(old(self).files@).push(
                        FileModel { path: p, data: Seq::empty() },
                    ));
                }
                k
            },
        };
        self.descs.push(Desc::File { file: fi, pos: 0 });
        proof {
            assert(descs_model(self.descs@) =~= descs_model(old(self).descs@).push(
                DescModel::File { file: fi as int, pos: 0 },
            ));
            assert(self@ =~= open_step(old(self)@, a0 as int, a1 as int, a2 as int).0);
        }
        fd as isize
    }

    fn do_socket(&mut self, a0: isize, a1: isize) -> (r: isize)
        requires
            old(self)@.wf(),
        ensures
            (final(self)@, r as int) == socket_step(old(self)@, a0 as int, a1 as int),
    {
        if !self.args_region_ok(a0, a1) || self.descs.len() >= MAX_DESCS {
            return FAILURE;
        }
        let fd = self.descs.len();
        self.descs.push(Desc::Socket);
        proof {
            assert(descs_model(self.descs@) =~= descs_model(old(self).descs@).push(
                DescModel::Socket,
            ));
            assert(self@ =~= socket_step(old(self)@, a0 as int, a1 as int).0);
        }
        fd as isize
    }

    fn do_close(&mut self, a0: isize) -> (r: isize)
        requires
            old(self)@.wf(),
        ensures
            (final(self)@, r as int) == close_step(old(self)@, a0 as int),
    {
        if a0 < 0 {
            return FAILURE;
        }
        let fd = a0 as usize;
        if fd >= self.descs.len() {
            return FAILURE;
        }
        let live = match self.descs[fd] {
            Desc::Closed => false,
            _ => true,
        };
        if !live {
            return FAILURE;
        }
        self.descs.set(fd, Desc::Closed);
        proof {
            assert(descs_model(self.descs@) =~= descs_model(old(self).descs@).update(
                fd as int,
                DescModel::Closed,
            ));
            assert(self@ =~= close_step(old(self)@, a0 as int).0);
        }
        0
    }

    fn do_seek(&mut self, a0: isize, a1: isize, a2: isize) -> (r: isize)
        requires
            old(self)@.wf(),
        ensures
            (final(self)@, r as int) == seek_step(old(self)@, a0 as int, a1 as int, a2 as int),
    {
        if a0 < 0 {
            return FAILURE;
        }
        let fd = a0 as usize;
        if fd >= self.descs.len() {
            return FAILURE;
        }
        let d = self.descs[fd];
        match d {
            Desc::File { file, pos } => {
                proof {
                    assert(old(self)@.desc_ok(old(self)@.descs[fd as int]));
                }
                let dlen = self.files[file].data.len();
                if !(a2 == 0 || a2 == 1 || a2 == 2) {
                    return FAILURE;
                }
                let base: usize = if a2 == 0 {
                    0
                } else if a2 == 1 {
                    pos
                } else {
                    dlen
                };
                if a1 < 0 - (base as isize) || a1 > (dlen - base) as isize {
                    return FAILURE;
                }
                let np = ((base as isize) + a1) as usize;
                self.descs.set(fd, Desc::File { file, pos: np });
                proof {
                    assert(descs_model(self.descs@) =~= descs_model(old(self).descs@).update(
                        fd as int,
                        DescModel::File { file: file as int, pos: np as int },
                    ));
                    assert(self@ =~= seek_step(old(self)@, a0 as int, a1 as int, a2 as int).0);
                }
                np as isize
            },
            _ => FAILURE,
        }
    }

    fn do_read(&mut self, a0: isize, a1: isize, a2: isize) -> (r: isize)
        requires
            old(self)@.wf(),
        ensures
            (final(self)@, r as int) == read_step(old(self)@, a0 as int, a1 as int, a2 as int),
    {
        if !self.args_region_ok(a1, a2) {
            return FAILURE;
        }
        if a0 < 0 {
            return FAILURE;
        }
        let fd = a0 as usize;
        if fd >= self.descs.len() {
            return FAILURE;
        }
        let addr = a1 as usize;
        let len = a2 as usize;
        let d = self.descs[fd];
        match d {
            Desc::Closed => FAILURE,
            Desc::Socket => {
                if self.socket_in.len() == 0 {
                    return WOULD_BLOCK;
                }
                let avail = self.socket_in.len();
                let n = if len <= avail {
                    len
                } else {
                    avail
                };
                copy_region(&mut self.mem, addr, &self.socket_in, 0, n);
                let rest = vec_tail(&self.socket_in, n);
                self.socket_in = rest;
                proof {
                    assert(old(self).socket_in@.subrange(0, n as int) =~= old(
                        self,
                    ).socket_in@.take(n as int));
                    assert(self@ =~= read_step(old(self)@, a0 as int, a1 as int, a2 as int).0);
                }
                n as isize
            },
            Desc::File { file, pos } => {
                proof {
                    assert(old(self)@.desc_ok(old(self)@.descs[fd as int]));
                }
                let dlen = self.files[file].data.len();
                let avail = dlen - pos;
                let n = if len <= avail {
                    len
                } else {
                    avail
                };
                copy_region(&mut self.mem, addr, &self.files[file].data, pos, n);
                self.descs.set(fd, Desc::File { file, pos: pos + n });
                proof {
                    assert(descs_model(self.descs@) =~= descs_model(old(self).descs@).update(
                        fd as int,
                        DescModel::File { file: file as int, pos: pos + n },
                    ));
                    assert(self@ =~= read_step(old(self)@, a0 as int, a1 as int, a2 as int).0);
                }
                n as isize
            },
        }
    }

    fn do_write(&mut self, a0: isize, a1: isize, a2: isize) -> (r: isize)
        requires
            old(self)@.wf(),
        ensures
            (final(self)@, r as int) == write_step(old(self)@, a0 as int, a1 as int, a2 as int),
    {
        if !self.args_region_ok(a1, a2) {
            return FAILURE;
        }
        if a0 < 0 {
            return FAILURE;
        }
        let fd = a0 as usize;
        if fd >= self.descs.len() {
            return FAILURE;
        }
        let addr = a1 as usize;
        let len = a2 as usize;
        let d = self.descs[fd];
        match d {
            Desc::Closed => FAILURE,
            Desc::Socket => {
                append_region(&mut self.socket_out, &self.mem, addr, len);
                proof {
                    assert(self@ =~= write_step(old(self)@, a0 as int, a1 as int, a2 as int).0);
                }
                a2
            },
            Desc::File { file, pos } => {
                proof {
                    assert(old(self)@.desc_ok(old(self)@.descs[fd as int]));
                }
                if len > MAX_FILE_LEN - pos {
                    return FAILURE;
                }
                let patch = self.fetch_bytes(addr, len);
                let ghost old_files = self.files@;
                let nd = splice_bytes(&self.files[file].data, pos, &patch);
                let fe = &mut self.files[file];
                fe.data = nd;
                self.descs.set(fd, Desc::File { file, pos: pos + len });
                proof {
                    assert(files_model(self.files@) =~= files_model(old_files).update(
                        file as int,
                        FileModel {
                            path: files_model(old_files)[file as int].path,
                            data: spliced(
                                files_model(old_files)[file as int].data,
                                pos as int,
                                old(self)@.mem.subrange(a1 as int, a1 + a2),
                            ),
                        },
                    ));
                    assert(descs_model(self.descs@) =~= descs_model(old(self).descs@).update(
                        fd as int,
                        DescModel::File { file: file as int, pos: pos + len },
                    ));
                    assert(self@ =~= write_step(old(self)@, a0 as int, a1 as int, a2 as int).0);
                }
                a2
            },
        }
    }
}

} // verus!
