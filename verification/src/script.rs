//! The demo script: a strictly sequential orchestrator.
//!
//! The script is a state machine over [`Phase`] with no branch back to an
//! earlier state: write a file, do a socket round trip, read the file back,
//! fill the screen, persist the screen, halt.  Each step checks results for
//! the generic negative-failure condition (and, for the socket read, the
//! reserved would-block sentinel), reports failures through `print`, and
//! proceeds to the next phase regardless of outcome.  The terminal state is
//! explicit, so a harness can assert that it is reached without hanging.

use vstd::prelude::*;

use crate::kernel::{find_file, lemma_find_file_from, spliced};
use crate::machine::{DescModel, Machine, MachineModel, MAX_DESCS, WOULD_BLOCK};
use crate::screen::{draw_screen, set_cell_by_index, Color, NUM_COLORS, SIZE, START_ADDR};
use crate::system::{close, open, print, read, socket, staged, write_ptr, write_u8_slice};

verus! {

/// Where the demo stages the path of its text file.
pub const FILE_PATH_ADDR: usize = 0x000;

/// Where the demo stages the bytes it writes to the file.
pub const MSG_ADDR: usize = 0x040;

/// Where the demo stages the socket's `host:port` address.
pub const SOCKET_ADDR_ADDR: usize = 0x080;

/// Where the demo stages the bytes it sends over the socket.
pub const SOCKET_MSG_ADDR: usize = 0x0C0;

/// Where the demo reads file and socket answers to.
pub const BUF_ADDR: usize = 0x100;

/// Size of the demo's read buffer.
pub const BUF_LEN: usize = 32;

/// Where the demo stages the path of the screen-image file.
pub const IMAGE_PATH_ADDR: usize = 0x140;

/// Where diagnostics and console output are staged.
pub const SCRATCH_ADDR: usize = 0x800;

/// The path of the demo's text file, `./file.txt`.
pub open spec fn file_path_bytes() -> Seq<u8> {
    seq![46u8, 47u8, 102u8, 105u8, 108u8, 101u8, 46u8, 116u8, 120u8, 116u8]
}

/// The bytes the demo writes to its text file, `ClickHouse!`.
pub open spec fn message_bytes() -> Seq<u8> {
    seq![67u8, 108u8, 105u8, 99u8, 107u8, 72u8, 111u8, 117u8, 115u8, 101u8, 33u8]
}

/// The socket address the demo connects to, `localhost:9008`.
pub open spec fn socket_address_bytes() -> Seq<u8> {
    seq![108u8, 111u8, 99u8, 97u8, 108u8, 104u8, 111u8, 115u8, 116u8, 58u8, 57u8, 48u8, 48u8, 56u8]
}

/// The query the demo sends over the socket, `128`, a tab, and `[]`.
pub open spec fn socket_message_bytes() -> Seq<u8> {
    seq![49u8, 50u8, 56u8, 9u8, 91u8, 93u8]
}

/// The path of the screen-image file, `./image.bin`.
pub open spec fn image_path_bytes() -> Seq<u8> {
    seq![46u8, 47u8, 105u8, 109u8, 97u8, 103u8, 101u8, 46u8, 98u8, 105u8, 110u8]
}

/// Build [`file_path_bytes`] as a vector.
pub fn file_path() -> (v: Vec<u8>)
    ensures
        v@ == file_path_bytes(),
{
    let mut v: Vec<u8> = Vec::new();
    v.push(46);
    v.push(47);
    v.push(102);
    v.push(105);
    v.push(108);
    v.push(101);
    v.push(46);
    v.push(116);
    v.push(120);
    v.push(116);
    proof {
        assert(v@ =~= file_path_bytes());
    }
    v
}

/// Build [`message_bytes`] as a vector.
pub fn message() -> (v: Vec<u8>)
    ensures
        v@ == message_bytes(),
{
    let mut v: Vec<u8> = Vec::new();
    v.push(67);
    v.push(108);
    v.push(105);
    v.push(99);
    v.push(107);
    v.push(72);
    v.push(111);
    v.push(117);
    v.push(115);
    v.push(101);
    v.push(33);
    proof {
        assert(v@ =~= message_bytes());
    }
    v
}

/// Build [`socket_address_bytes`] as a vector.
pub fn socket_address() -> (v: Vec<u8>)
    ensures
        v@ == socket_address_bytes(),
{
    let mut v: Vec<u8> = Vec::new();
    v.push(108);
    v.push(111);
    v.push(99);
    v.push(97);
    v.push(108);
    v.push(104);
    v.push(111);
    v.push(115);
    v.push(116);
    v.push(58);
    v.push(57);
    v.push(48);
    v.push(48);
    v.push(56);
    proof {
        assert(v@ =~= socket_address_bytes());
    }
    v
}

/// Build [`socket_message_bytes`] as a vector.
pub fn socket_message() -> (v: Vec<u8>)
    ensures
        v@ == socket_message_bytes(),
{
    let mut v: Vec<u8> = Vec::new();
    v.push(49);
    v.push(50);
    v.push(56);
    v.push(9);
    v.push(91);
    v.push(93);
    proof {
        assert(v@ =~= socket_message_bytes());
    }
    v
}

/// Build [`image_path_bytes`] as a vector.
pub fn image_path() -> (v: Vec<u8>)
    ensures
        v@ == image_path_bytes(),
{
    let mut v: Vec<u8> = Vec::new();
    v.push(46);
    v.push(47);
    v.push(105);
    v.push(109);
    v.push(97);
    v.push(103);
    v.push(101);
    v.push(46);
    v.push(98);
    v.push(105);
    v.push(110);
    proof {
        assert(v@ =~= image_path_bytes());
    }
    v
}

/// The states of the orchestrator, in the order they are passed through.
#[derive(Clone, Copy, Debug, PartialEq, Eq, Structural)]
pub enum Phase {
    WriteFile,
    SocketRoundTrip,
    ReadFile,
    FillScreen,
    DumpScreen,
    Halt,
}

/// The successor of each phase; the terminal state is its own successor.
pub open spec fn next_phase(p: Phase) -> Phase {
    match p {
        Phase::WriteFile => Phase::SocketRoundTrip,
        Phase::SocketRoundTrip => Phase::ReadFile,
        Phase::ReadFile => Phase::FillScreen,
        Phase::FillScreen => Phase::DumpScreen,
        Phase::DumpScreen => Phase::Halt,
        Phase::Halt => Phase::Halt,
    }
}

/// How many steps a phase is from the terminal state.
pub open spec fn phase_rank(p: Phase) -> nat {
    match p {
        Phase::WriteFile => 5,
        Phase::SocketRoundTrip => 4,
        Phase::ReadFile => 3,
        Phase::FillScreen => 2,
        Phase::DumpScreen => 1,
        Phase::Halt => 0,
    }
}

/// The file at index `fi` is the demo's text file and holds the demo
/// message at its start.
pub open spec fn holds_demo_message(m: MachineModel, fi: int) -> bool {
    &&& 0 <= fi < m.files.len()
    &&& m.files[fi].path == file_path_bytes()
    &&& m.files[fi].data.len() >= message_bytes().len()
    &&& m.files[fi].data.subrange(0, message_bytes().len() as int) == message_bytes()
}

/// The file at index `fi` is the screen-image file and its first bytes
/// are exactly `display`.
pub open spec fn holds_image_of(m: MachineModel, fi: int, display: Seq<u8>) -> bool {
    &&& 0 <= fi < m.files.len()
    &&& m.files[fi].path == image_path_bytes()
    &&& m.files[fi].data.len() >= SIZE
    &&& m.files[fi].data.subrange(0, SIZE as int) == display
}

/// The file at index `fi` is the screen-image file and holds the filled
/// display pattern: one code byte per cell, each cell colored by its index
/// modulo the color count.
pub open spec fn holds_screen_image(m: MachineModel, fi: int) -> bool {
    &&& 0 <= fi < m.files.len()
    &&& m.files[fi].path == image_path_bytes()
    &&& m.files[fi].data.len() >= SIZE
    &&& forall|j: int|
        0 <= j < SIZE ==> #[trigger] m.files[fi].data[j] == Color::of_index(
            (j % (NUM_COLORS as int)) as u8,
        ).ansi()
}

/// Write the demo message to `./file.txt`: open, write, close, reporting
/// each failure and carrying on.  When a descriptor slot is free, every
/// call succeeds and the file holds the message afterwards.
fn step_write_file(m: &mut Machine)
    requires
        old(m)@.wf(),
    ensures
        final(m)@.wf(),
        final(m)@.socket_out == old(m)@.socket_out,
        final(m)@.descs.len() <= old(m)@.descs.len() + 1,
        old(m)@.descs.len() < MAX_DESCS ==> exists|fi: int|
            holds_demo_message(final(m)@, fi),
{
    let path = file_path();
    let ghost m0 = m@;
    let fd = open(m, path.as_slice(), FILE_PATH_ADDR, 0);
    let ghost ma = m@;
    if fd < 0 {
        print(m, "open write file failed\n".as_bytes(), SCRATCH_ADDR);
    }
    let msg = message();
    let n = write_u8_slice(m, fd, msg.as_slice(), MSG_ADDR);
    let ghost mc = m@;
    if n < 0 {
        print(m, "write to file failed\n".as_bytes(), SCRATCH_ADDR);
    }
    let c = close(m, fd);
    if c < 0 {
        print(m, "close write file failed\n".as_bytes(), SCRATCH_ADDR);
    }
    proof {
        if m0.descs.len() < MAX_DESCS {
            let fp = file_path_bytes();
            let msgs = message_bytes();
            let sm = staged(m0, FILE_PATH_ADDR as int, fp);
            assert(sm.mem.subrange(FILE_PATH_ADDR as int, FILE_PATH_ADDR + fp.len()) =~= fp);
            lemma_find_file_from(m0.files, fp, 0);
            let r = find_file(m0.files, fp);
            let fi: int = if r == -1 {
                m0.files.len() as int
            } else {
                r
            };
            assert(ma.files[fi].path == fp);
            assert(ma.descs[fd as int] == DescModel::File { file: fi, pos: 0 });
            let sw = staged(ma, MSG_ADDR as int, msgs);
            assert(sw.mem.subrange(MSG_ADDR as int, MSG_ADDR + msgs.len()) =~= msgs);
            assert(mc.files[fi].data == spliced(ma.files[fi].data, 0, msgs));
            assert(mc.files[fi].data.subrange(0, msgs.len() as int) =~= msgs);
            assert(m@.files == mc.files);
            assert(holds_demo_message(m@, fi));
        }
    }
}

/// Send the query over the socket, read the answer, print it, close the
/// socket.  A read that would block is reported as such, distinctly from a
/// failed read.  The file system is not touched.
fn step_socket_round_trip(m: &mut Machine)
    requires
        old(m)@.wf(),
    ensures
        final(m)@.wf(),
        final(m)@.files == old(m)@.files,
        final(m)@.descs.len() <= old(m)@.descs.len() + 1,
        old(m)@.descs.len() < MAX_DESCS ==> final(m)@.socket_out == old(m)@.socket_out
            + socket_message_bytes(),
{
    let addr_bytes = socket_address();
    let ghost m0 = m@;
    let sfd = socket(m, addr_bytes.as_slice(), SOCKET_ADDR_ADDR);
    if sfd < 0 {
        print(m, "failed to bind socket\n".as_bytes(), SCRATCH_ADDR);
    }
    let payload = socket_message();
    let ghost ma = m@;
    let n = write_u8_slice(m, sfd, payload.as_slice(), SOCKET_MSG_ADDR);
    proof {
        // What the kernel saw on the wire is the staged query itself.
        if m0.descs.len() < MAX_DESCS {
            let sw = staged(ma, SOCKET_MSG_ADDR as int, socket_message_bytes());
            assert(sw.mem.subrange(
                SOCKET_MSG_ADDR as int,
                SOCKET_MSG_ADDR + socket_message_bytes().len(),
            ) =~= socket_message_bytes());
        }
    }
    if n < 0 {
        print(m, "write to socket failed\n".as_bytes(), SCRATCH_ADDR);
    }
    let n = read(m, sfd, BUF_ADDR, BUF_LEN);
    if n == WOULD_BLOCK {
        print(m, "no data in socket, try again\n".as_bytes(), SCRATCH_ADDR);
    } else if n < 0 {
        print(m, "read from socket failed\n".as_bytes(), SCRATCH_ADDR);
    }
    print(m, "read from socket:\n".as_bytes(), SCRATCH_ADDR);
    if n >= 0 {
        let answer = m.fetch_bytes(BUF_ADDR, n as usize);
        print(m, answer.as_slice(), SCRATCH_ADDR);
    }
    print(m, "\n".as_bytes(), SCRATCH_ADDR);
    let c = close(m, sfd);
    if c < 0 {
        print(m, "close socket failed\n".as_bytes(), SCRATCH_ADDR);
    }
}

/// Reopen `./file.txt`, read it into the buffer, close it, and print what
/// was read.  Every file that already existed is left as it was.
fn step_read_file(m: &mut Machine)
    requires
        old(m)@.wf(),
    ensures
        final(m)@.wf(),
        final(m)@.socket_out == old(m)@.socket_out,
        final(m)@.descs.len() <= old(m)@.descs.len() + 1,
        final(m)@.files.len() >= old(m)@.files.len(),
        forall|i: int|
            0 <= i < old(m)@.files.len() ==> #[trigger] final(m)@.files[i] == old(m)@.files[i],
{
    let path = file_path();
    let fd = open(m, path.as_slice(), FILE_PATH_ADDR, 0);
    if fd < 0 {
        print(m, "open read file failed\n".as_bytes(), SCRATCH_ADDR);
    }
    let n = read(m, fd, BUF_ADDR, BUF_LEN);
    if n < 0 {
        print(m, "read from file failed\n".as_bytes(), SCRATCH_ADDR);
    }
    let c = close(m, fd);
    if c < 0 {
        print(m, "close read file failed\n".as_bytes(), SCRATCH_ADDR);
    }
    print(m, "read from file:\n".as_bytes(), SCRATCH_ADDR);
    if n >= 0 {
        let contents = m.fetch_bytes(BUF_ADDR, n as usize);
        print(m, contents.as_slice(), SCRATCH_ADDR);
    }
}

/// Fill every cell of the display with the color of its index modulo the
/// color count, redrawing after each cell as the demo does.  Afterwards the
/// display buffer holds exactly one code byte per cell.
fn step_fill_screen(m: &mut Machine)
    requires
        old(m)@.wf(),
    ensures
        final(m)@.wf(),
        final(m)@.mem.len() == old(m)@.mem.len(),
        forall|j: int|
            0 <= j < SIZE ==> #[trigger] final(m)@.mem[START_ADDR + j] == Color::of_index(
                (j % (NUM_COLORS as int)) as u8,
            ).ansi(),
        final(m)@.files == old(m)@.files,
        final(m)@.descs == old(m)@.descs,
        final(m)@.socket_in == old(m)@.socket_in,
        final(m)@.socket_out == old(m)@.socket_out,
{
    let mut i: u32 = 0;
    while i < SIZE
        invariant
            m@.wf(),
            i <= SIZE,
            m@.mem.len() == old(m)@.mem.len(),
            forall|j: int|
                0 <= j < i ==> #[trigger] m@.mem[START_ADDR + j] == Color::of_index(
                    (j % (NUM_COLORS as int)) as u8,
                ).ansi(),
            forall|k: int|
                0 <= k < m@.mem.len() && !(START_ADDR <= k < START_ADDR + i) ==> m@.mem[k] == old(
                    m,
                )@.mem[k],
            m@.files == old(m)@.files,
            m@.descs == old(m)@.descs,
            m@.socket_in == old(m)@.socket_in,
            m@.socket_out == old(m)@.socket_out,
            m@.console == old(m)@.console,
        decreases SIZE - i,
    {
        set_cell_by_index(m, i, Color::from_index((i % (NUM_COLORS as u32)) as u8));
        draw_screen(m);
        i = i + 1;
    }
    let note = "Updated pixels.\n".as_bytes();
    if note.len() <= START_ADDR - SCRATCH_ADDR {
        print(m, note, SCRATCH_ADDR);
    }
}

/// Persist the display buffer: open `./image.bin` and write the raw screen
/// region, by base address and cell count, then close.  Every file that
/// already existed keeps its path, and its contents too unless it is the
/// image file itself.
fn step_dump_screen(m: &mut Machine)
    requires
        old(m)@.wf(),
    ensures
        final(m)@.wf(),
        final(m)@.socket_out == old(m)@.socket_out,
        final(m)@.files.len() >= old(m)@.files.len(),
        forall|i: int|
            0 <= i < old(m)@.files.len() ==> (#[trigger] final(m)@.files[i]).path == old(
                m,
            )@.files[i].path,
        forall|i: int|
            0 <= i < old(m)@.files.len() && old(m)@.files[i].path != image_path_bytes()
                ==> #[trigger] final(m)@.files[i] == old(m)@.files[i],
        old(m)@.descs.len() < MAX_DESCS ==> exists|fi: int|
            #[trigger] holds_image_of(
                final(m)@,
                fi,
                old(m)@.mem.subrange(START_ADDR as int, START_ADDR + SIZE),
            ),
{
    let ghost m0 = m@;
    let path = image_path();
    let fd = open(m, path.as_slice(), IMAGE_PATH_ADDR, 0);
    let ghost ma = m@;
    proof {
        let sm = staged(m0, IMAGE_PATH_ADDR as int, image_path_bytes());
        assert(sm.mem.subrange(
            IMAGE_PATH_ADDR as int,
            IMAGE_PATH_ADDR + image_path_bytes().len(),
        ) =~= image_path_bytes());
        lemma_find_file_from(m0.files, image_path_bytes(), 0);
    }
    if fd < 0 {
        print(m, "open write image file failed\n".as_bytes(), SCRATCH_ADDR);
    }
    let n = write_ptr(m, fd, START_ADDR, SIZE as usize);
    let ghost mc = m@;
    if n < 0 {
        print(m, "write to image file failed\n".as_bytes(), SCRATCH_ADDR);
    }
    let c = close(m, fd);
    if c < 0 {
        print(m, "close write file failed\n".as_bytes(), SCRATCH_ADDR);
    }
    proof {
        if m0.descs.len() < MAX_DESCS {
            let ip = image_path_bytes();
            let display = m0.mem.subrange(START_ADDR as int, START_ADDR + SIZE);
            let r = find_file(m0.files, ip);
            let fi: int = if r == -1 {
                m0.files.len() as int
            } else {
                r
            };
            assert(ma.files[fi].path == ip);
            assert(ma.descs[fd as int] == DescModel::File { file: fi, pos: 0 });
            assert(ma.mem.subrange(START_ADDR as int, START_ADDR + SIZE) =~= display);
            assert(mc.files[fi].data == spliced(
                ma.files[fi].data,
                0,
                ma.mem.subrange(START_ADDR as int, START_ADDR + SIZE),
            ));
            assert(mc.files[fi].data.subrange(0, SIZE as int) =~= display);
            assert(m@.files == mc.files);
            assert(holds_image_of(m@, fi, display));
        }
    }
}

/// Run one phase of the script and hand back the next one.  The terminal
/// state does nothing and stays put.  The clauses per phase say what each
/// one achieves whenever a descriptor slot is free: the first leaves the
/// demo message in the text file, the socket phase sends the query, the
/// fill phase paints every display cell, and the dump phase persists the
/// display into the image file; and no phase disturbs a file that is not
/// its own.
pub fn script_step(m: &mut Machine, p: Phase) -> (q: Phase)
    requires
        old(m)@.wf(),
    ensures
        final(m)@.wf(),
        q == next_phase(p),
        p is WriteFile ==> final(m)@.descs.len() <= old(m)@.descs.len() + 1,
        p is WriteFile && old(m)@.descs.len() < MAX_DESCS ==> exists|fi: int|
            holds_demo_message(final(m)@, fi),
        !(p is SocketRoundTrip) ==> final(m)@.socket_out == old(m)@.socket_out,
        p is SocketRoundTrip || p is ReadFile ==> final(m)@.descs.len() <= old(m)@.descs.len()
            + 1,
        p is FillScreen ==> final(m)@.descs == old(m)@.descs,
        p is FillScreen ==> forall|j: int|
            0 <= j < SIZE ==> #[trigger] final(m)@.mem[START_ADDR + j] == Color::of_index(
                (j % (NUM_COLORS as int)) as u8,
            ).ansi(),
        p is DumpScreen && old(m)@.descs.len() < MAX_DESCS ==> exists|fi: int|
            #[trigger] holds_image_of(
                final(m)@,
                fi,
                old(m)@.mem.subrange(START_ADDR as int, START_ADDR + SIZE),
            ),
        p is SocketRoundTrip && old(m)@.descs.len() < MAX_DESCS ==> final(m)@.socket_out == old(
            m,
        )@.socket_out + socket_message_bytes(),
        p is SocketRoundTrip || p is FillScreen ==> final(m)@.files == old(m)@.files,
        p is ReadFile || p is DumpScreen ==> final(m)@.files.len() >= old(m)@.files.len(),
        p is ReadFile ==> forall|i: int|
            0 <= i < old(m)@.files.len() ==> #[trigger] final(m)@.files[i] == old(m)@.files[i],
        p is DumpScreen ==> forall|i: int|
            0 <= i < old(m)@.files.len() && old(m)@.files[i].path != image_path_bytes()
                ==> #[trigger] final(m)@.files[i] == old(m)@.files[i],
        p is Halt ==> *final(m) == *old(m),
{
    match p {
        Phase::WriteFile => {
            step_write_file(m);
            Phase::SocketRoundTrip
        },
        Phase::SocketRoundTrip => {
            step_socket_round_trip(m);
            Phase::ReadFile
        },
        Phase::ReadFile => {
            step_read_file(m);
            Phase::FillScreen
        },
        Phase::FillScreen => {
            step_fill_screen(m);
            Phase::DumpScreen
        },
        Phase::DumpScreen => {
            step_dump_screen(m);
            Phase::Halt
        },
        Phase::Halt => Phase::Halt,
    }
}

/// Run the whole script from its first phase to the terminal state, which
/// is always reached: the demo never loops back.  Whenever the machine has
/// descriptor slots free at the start, the demo provably leaves its traces
/// whatever the kernel answered elsewhere: the demo message sits at the
/// start of the text file, the query went out over the socket, and the
/// image file holds the filled display pattern.
pub fn run_script(m: &mut Machine) -> (p: Phase)
    requires
        old(m)@.wf(),
    ensures
        final(m)@.wf(),
        p is Halt,
        old(m)@.descs.len() < MAX_DESCS ==> exists|fi: int|
            holds_demo_message(final(m)@, fi),
        old(m)@.descs.len() + 1 < MAX_DESCS ==> final(m)@.socket_out == old(m)@.socket_out
            + socket_message_bytes(),
        old(m)@.descs.len() + 3 < MAX_DESCS ==> exists|fi: int|
            holds_screen_image(final(m)@, fi),
{
    print(m, "Running syscalls.\n".as_bytes(), SCRATCH_ADDR);
    let mut p = Phase::WriteFile;
    p = script_step(m, p);
    let ghost m1 = m@;
    p = script_step(m, p);
    p = script_step(m, p);
    let ghost m3 = m@;
    p = script_step(m, p);
    let ghost m4 = m@;
    p = script_step(m, p);
    proof {
        if old(m)@.descs.len() < MAX_DESCS {
            let fi = choose|fi: int| holds_demo_message(m1, fi);
            assert(holds_demo_message(m3, fi));
            assert(file_path_bytes()[2] != image_path_bytes()[2]);
            assert(holds_demo_message(m@, fi));
        }
        if old(m)@.descs.len() + 3 < MAX_DESCS {
            let display = m4.mem.subrange(START_ADDR as int, START_ADDR + SIZE);
            let fj = choose|fj: int| holds_image_of(m@, fj, display);
            assert forall|j: int|
                0 <= j < SIZE implies #[trigger] m@.files[fj].data[j] == Color::of_index(
                (j % (NUM_COLORS as int)) as u8,
            ).ansi() by {
                assert(m@.files[fj].data.subrange(0, SIZE as int)[j] == display[j]);
                assert(display[j] == m4.mem[START_ADDR + j]);
            }
            assert(holds_screen_image(m@, fj));
        }
    }
    p
}

} // verus!
