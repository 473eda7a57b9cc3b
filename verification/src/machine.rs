//! The simulated guest machine: flat guest memory plus the kernel-side state
//! (files, descriptors, socket queues, console) that the syscalls act on.
//!
//! The real guest talks to hardware: a trap instruction and a physical
//! display region.  Here both sides live in one ordinary value so that the
//! gateway, the system operations and the demo script are verified against
//! an explicit model of what the kernel does.

use vstd::prelude::*;

verus! {

/// Size of guest memory in bytes.  The display region and every staging
/// buffer the demo uses lie below this bound.
pub const MEM_SIZE: usize = 4096;

/// The kernel refuses to hand out more descriptors than this.
pub const MAX_DESCS: usize = 1024;

/// The kernel refuses to grow a single file beyond this many bytes.
pub const MAX_FILE_LEN: usize = 65536;

/// Generic failure result: any operation the kernel rejects returns this.
pub const FAILURE: isize = -1;

/// Reserved sentinel: a socket read that finds no data returns this, and it
/// is distinct from every other result the kernel produces.
pub const WOULD_BLOCK: isize = -64;

/// One file of the simulated file system.
pub struct FileEntry {
    pub path: Vec<u8>,
    pub data: Vec<u8>,
}

/// One slot of the descriptor table.  Slots are never reused: closing a
/// descriptor retires its slot for good.
#[derive(Clone, Copy)]
pub enum Desc {
    /// The slot was closed and the handle is invalid from now on.
    Closed,
    /// An open file: which file, and the current position within it.
    File { file: usize, pos: usize },
    /// An open socket.
    Socket,
}

/// The whole simulated machine.
pub struct Machine {
    /// Flat guest memory; the display region lives inside it.
    pub mem: Vec<u8>,
    /// The simulated file system, keyed by path bytes.
    pub files: Vec<FileEntry>,
    /// The descriptor table; a handle is an index into it.
    pub descs: Vec<Desc>,
    /// Bytes the network has delivered but no read has consumed yet.
    pub socket_in: Vec<u8>,
    /// Bytes written to sockets, in order.
    pub socket_out: Vec<u8>,
    /// Bytes printed to the console, in order.
    pub console: Vec<u8>,
    /// How many redraw traps the kernel has received (saturating).
    pub draws: u64,
}

/// Mathematical model of one file.
#[verifier::ext_equal]
pub ghost struct FileModel {
    pub path: Seq<u8>,
    pub data: Seq<u8>,
}

/// Mathematical model of one descriptor slot.
pub ghost enum DescModel {
    Closed,
    File { file: int, pos: int },
    Socket,
}

/// Mathematical model of the whole machine.
#[verifier::ext_equal]
pub ghost struct MachineModel {
    pub mem: Seq<u8>,
    pub files: Seq<FileModel>,
    pub descs: Seq<DescModel>,
    pub socket_in: Seq<u8>,
    pub socket_out: Seq<u8>,
    pub console: Seq<u8>,
    pub draws: u64,
}

impl View for FileEntry {
    type V = FileModel;

    open spec fn view(&self) -> FileModel {
        FileModel { path: self.path@, data: self.data@ }
    }
}

impl View for Desc {
    type V = DescModel;

    open spec fn view(&self) -> DescModel {
        match *self {
            Desc::Closed => DescModel::Closed,
            Desc::File { file, pos } => DescModel::File { file: file as int, pos: pos as int },
            Desc::Socket => DescModel::Socket,
        }
    }
}

/// The model of a file table.
pub open spec fn files_model(files: Seq<FileEntry>) -> Seq<FileModel> {
    Seq::new(files.len(), |i: int| files[i]@)
}

/// The model of a descriptor table.
pub open spec fn descs_model(descs: Seq<Desc>) -> Seq<DescModel> {
    Seq::new(descs.len(), |i: int| descs[i]@)
}

impl View for Machine {
    type V = MachineModel;

    open spec fn view(&self) -> MachineModel {
        MachineModel {
            mem: self.mem@,
            files: files_model(self.files@),
            descs: descs_model(self.descs@),
            socket_in: self.socket_in@,
            socket_out: self.socket_out@,
            console: self.console@,
            draws: self.draws,
        }
    }
}

impl MachineModel {
    /// A descriptor slot is consistent with the file table.
    pub open spec fn desc_ok(self, d: DescModel) -> bool {
        match d {
            DescModel::Closed => true,
            DescModel::Socket => true,
            DescModel::File { file, pos } => {
                &&& 0 <= file < self.files.len()
                &&& 0 <= pos <= self.files[file].data.len()
            },
        }
    }

    /// Well-formedness of the machine: fixed memory size, a bounded
    /// descriptor table whose slots point into the file table, bounded
    /// files, and pairwise distinct paths.
    pub open spec fn wf(self) -> bool {
        &&& self.mem.len() == MEM_SIZE
        &&& self.descs.len() <= MAX_DESCS
        &&& forall|i: int| 0 <= i < self.descs.len() ==> self.desc_ok(self.descs[i])
        &&& forall|i: int| 0 <= i < self.files.len() ==> #[trigger] self.files[i].data.len()
            <= MAX_FILE_LEN
        &&& forall|i: int, j: int|
            0 <= i < j < self.files.len() ==> self.files[i].path != self.files[j].path
    }
}

/// The model of a machine fresh out of reset: zeroed memory and nothing
/// open, delivered, sent, printed or drawn.
pub open spec fn init_model() -> MachineModel {
    MachineModel {
        mem: Seq::new(MEM_SIZE as nat, |i: int| 0u8),
        files: Seq::empty(),
        descs: Seq::empty(),
        socket_in: Seq::empty(),
        socket_out: Seq::empty(),
        console: Seq::empty(),
        draws: 0,
    }
}

impl Machine {
    /// Build a fresh machine.
    pub fn new() -> (m: Machine)
        ensures
            m@ == init_model(),
            m@.wf(),
    {
        let mut mem: Vec<u8> = Vec::new();
        let mut i: usize = 0;
        while i < MEM_SIZE
            invariant
                i <= MEM_SIZE,
                mem@.len() == i,
                forall|j: int| 0 <= j < i ==> mem@[j] == 0u8,
            decreases MEM_SIZE - i,
        {
            mem.push(0u8);
            i = i + 1;
        }
        let m = Machine {
            mem,
            files: Vec::new(),
            descs: Vec::new(),
            socket_in: Vec::new(),
            socket_out: Vec::new(),
            console: Vec::new(),
            draws: 0,
        };
        proof {
            assert(m@.mem =~= init_model().mem);
            assert(m@.files =~= init_model().files);
            assert(m@.descs =~= init_model().descs);
            assert(m@ =~= init_model());
        }
        m
    }

    /// Place bytes into guest memory, as a loader or the caller of a system
    /// operation would before handing the kernel an (address, length) pair.
    pub fn store_bytes(&mut self, addr: usize, data: &[u8])
        requires
            addr + data@.len() <= old(self)@.mem.len(),
        ensures
            final(self)@ == (MachineModel {
                mem: store(old(self)@.mem, addr as int, data@),
                ..old(self)@
            }),
    {
        let n = data.len();
        let mut i: usize = 0;
        while i < n
            invariant
                i <= n,
                n == data@.len(),
                addr + n <= self.mem.len(),
                self.mem@.len() == old(self).mem@.len(),
                forall|j: int| 0 <= j < i ==> self.mem@[addr + j] == data@[j],
                forall|j: int|
                    0 <= j < self.mem@.len() && !(addr <= j < addr + i) ==> self.mem@[j] == old(
                        self,
                    ).mem@[j],
                self.files == old(self).files,
                self.descs == old(self).descs,
                self.socket_in == old(self).socket_in,
                self.socket_out == old(self).socket_out,
                self.console == old(self).console,
                self.draws == old(self).draws,
            decreases n - i,
        {
            self.mem.set(addr + i, data[i]);
            i = i + 1;
        }
        proof {
            assert(self@.mem =~= store(old(self)@.mem, addr as int, data@));
            assert(self@ =~= (MachineModel {
                mem: store(old(self)@.mem, addr as int, data@),
                ..old(self)@
            }));
        }
    }

    /// Copy a region of guest memory out, as a test harness or the host side
    /// of the demo would to look at a buffer.
    pub fn fetch_bytes(&self, addr: usize, len: usize) -> (r: Vec<u8>)
        requires
            addr + len <= self@.mem.len(),
        ensures
            r@ == self@.mem.subrange(addr as int, addr + len),
    {
        let mut r: Vec<u8> = Vec::new();
        let mut i: usize = 0;
        while i < len
            invariant
                i <= len,
                addr + len <= self.mem.len(),
                r@.len() == i,
                forall|j: int| 0 <= j < i ==> r@[j] == self.mem@[addr + j],
            decreases len - i,
        {
            r.push(self.mem[addr + i]);
            i = i + 1;
        }
        proof {
            assert(r@ =~= self@.mem.subrange(addr as int, addr + len));
        }
        r
    }

    /// Model the network delivering bytes to the socket side of the kernel.
    pub fn feed_socket(&mut self, data: &[u8])
        ensures
            final(self)@ == (MachineModel {
                socket_in: old(self)@.socket_in + data@,
                ..old(self)@
            }),
    {
        let n = data.len();
        let mut i: usize = 0;
        while i < n
            invariant
                i <= n,
                n == data@.len(),
                self.socket_in@ == old(self).socket_in@ + data@.subrange(0, i as int),
                self.mem == old(self).mem,
                self.files == old(self).files,
                self.descs == old(self).descs,
                self.socket_out == old(self).socket_out,
                self.console == old(self).console,
                self.draws == old(self).draws,
            decreases n - i,
        {
            proof {
                assert(old(self).socket_in@ + data@.subrange(0, i as int + 1) =~= (old(
                    self,
                ).socket_in@ + data@.subrange(0, i as int)).push(data@[i as int]));
            }
            self.socket_in.push(data[i]);
            i = i + 1;
        }
        proof {
            assert(data@.subrange(0, n as int) =~= data@);
            assert(self@ =~= (MachineModel { socket_in: old(self)@.socket_in + data@, ..old(self)@ }));
        }
    }
}

/// Guest memory after writing `data` at `addr`: the bytes of the region are
/// replaced, everything else is untouched, and the size does not change.
pub open spec fn store(mem: Seq<u8>, addr: int, data: Seq<u8>) -> Seq<u8> {
    Seq::new(
        mem.len(),
        |i: int|
            if addr <= i < addr + data.len() {
                data[i - addr]
            } else {
                mem[i]
            },
    )
}

/// The bytes of the guest-memory region starting at `addr` of length `len`.
pub open spec fn region(m: MachineModel, addr: int, len: int) -> Seq<u8> {
    m.mem.subrange(addr, addr + len)
}

/// Whether an (address, length) pair names a region inside guest memory.
pub open spec fn region_ok(m: MachineModel, addr: int, len: int) -> bool {
    0 <= addr && 0 <= len && addr + len <= m.mem.len()
}

} // verus!
