use rs_demo::gateway::{syscall0, syscall1, syscall2, syscall3, syscall4, syscall5, Frame};
use rs_demo::machine::{Desc, Machine, FAILURE, MAX_DESCS, MEM_SIZE, WOULD_BLOCK};
use rs_demo::screen::{
    dump_screen, draw_screen, set_cell, set_cell_by_index, Color, HEIGHT, NUM_COLORS, SIZE,
    START_ADDR, WIDTH,
};
use rs_demo::script::{run_script, script_step, Phase, BUF_ADDR, BUF_LEN, SCRATCH_ADDR};
use rs_demo::syscall::Syscall;
use rs_demo::system::{close, open, print, read, seek, socket, write_ptr, write_u8_slice};

/// The contents of the file at `path`, if the machine holds one.
fn file_contents(m: &Machine, path: &[u8]) -> Option<Vec<u8>> {
    for f in m.files.iter() {
        if f.path == path {
            return Some(f.data.clone());
        }
    }
    None
}

#[test]
fn syscall_codes_match_the_kernel_abi() {
    assert_eq!(Syscall::Print.to_isize(), 1);
    assert_eq!(Syscall::Draw.to_isize(), 2);
    assert_eq!(Syscall::Reset.to_isize(), 0);
    assert_eq!(Syscall::Open.to_isize(), 10);
    assert_eq!(Syscall::Close.to_isize(), 11);
    assert_eq!(Syscall::Seek.to_isize(), 12);
    assert_eq!(Syscall::Read.to_isize(), 13);
    assert_eq!(Syscall::Write.to_isize(), 14);
    assert_eq!(Syscall::Socket.to_isize(), 15);
}

#[test]
fn color_mapping_is_total_and_deterministic() {
    let table: [u8; 9] = [0, 30, 31, 32, 33, 34, 35, 36, 37];
    for i in 0..9u8 {
        assert_eq!(Color::from_index(i).to_ansi(), table[i as usize]);
        // Deterministic: a second lookup yields the same code.
        assert_eq!(Color::from_index(i).to_ansi(), Color::from_index(i).to_ansi());
    }
    for i in [9u8, 10, 42, 255] {
        assert_eq!(Color::from_index(i).to_ansi(), 0);
    }
    assert_eq!(NUM_COLORS, 9);
}

#[test]
fn file_round_trip_through_reopen() {
    let mut m = Machine::new();
    let fd = open(&mut m, b"./file.txt", 0, 0);
    assert_eq!(fd, 0);
    let n = write_u8_slice(&mut m, fd, b"ClickHouse!", 0x40);
    assert_eq!(n, 11);
    assert_eq!(close(&mut m, fd), 0);

    let fd2 = open(&mut m, b"./file.txt", 0, 0);
    assert!(fd2 >= 0);
    assert_ne!(fd2, fd, "descriptor slots are never reused");
    let n = read(&mut m, fd2, BUF_ADDR, BUF_LEN);
    assert_eq!(n, 11);
    assert_eq!(m.fetch_bytes(BUF_ADDR, 11), b"ClickHouse!".to_vec());
    assert_eq!(close(&mut m, fd2), 0);
    assert_eq!(file_contents(&m, b"./file.txt"), Some(b"ClickHouse!".to_vec()));
}

#[test]
fn read_from_fresh_empty_file_returns_zero() {
    let mut m = Machine::new();
    let fd = open(&mut m, b"./empty", 0, 0);
    assert_eq!(read(&mut m, fd, BUF_ADDR, BUF_LEN), 0);
}

#[test]
fn socket_read_without_data_returns_the_sentinel() {
    let mut m = Machine::new();
    let sfd = socket(&mut m, b"localhost:9008", 0x80);
    assert_eq!(sfd, 0);
    let r = read(&mut m, sfd, BUF_ADDR, BUF_LEN);
    assert_eq!(r, WOULD_BLOCK);
    assert_eq!(r, -64);
    assert!(r < 0, "distinguishable from success");
    assert_ne!(r, FAILURE, "distinguishable from generic failure");
}

#[test]
fn socket_round_trip_with_delivered_data() {
    let mut m = Machine::new();
    m.feed_socket(b"pong");
    let sfd = socket(&mut m, b"localhost:9008", 0x80);
    let n = write_u8_slice(&mut m, sfd, b"128\t[]", 0xC0);
    assert_eq!(n, 6);
    assert_eq!(m.socket_out, b"128\t[]".to_vec());
    let n = read(&mut m, sfd, BUF_ADDR, BUF_LEN);
    assert_eq!(n, 4);
    assert_eq!(m.fetch_bytes(BUF_ADDR, 4), b"pong".to_vec());
    // The queue was drained: the next read would block again.
    assert_eq!(read(&mut m, sfd, BUF_ADDR, BUF_LEN), WOULD_BLOCK);
    assert_eq!(close(&mut m, sfd), 0);
}

#[test]
fn filling_every_cell_and_dumping_yields_the_code_bytes() {
    let mut m = Machine::new();
    for i in 0..SIZE {
        set_cell_by_index(&mut m, i, Color::from_index((i % NUM_COLORS as u32) as u8));
    }
    let dump = dump_screen(&m);
    assert_eq!(dump.len(), SIZE as usize);
    let table: [u8; 9] = [0, 30, 31, 32, 33, 34, 35, 36, 37];
    for i in 0..SIZE as usize {
        assert_eq!(dump[i], table[i % 9]);
    }
}

#[test]
fn set_cell_addresses_row_major() {
    let mut m = Machine::new();
    set_cell(&mut m, 3, 2, Color::Red);
    assert_eq!(m.mem[START_ADDR + (2 * WIDTH + 3) as usize], 31);
    set_cell(&mut m, WIDTH - 1, HEIGHT - 1, Color::White);
    assert_eq!(m.mem[START_ADDR + (SIZE - 1) as usize], 37);
}

#[test]
fn draw_screen_touches_no_memory() {
    let mut m = Machine::new();
    set_cell_by_index(&mut m, 0, Color::Blue);
    let before = m.mem.clone();
    draw_screen(&mut m);
    assert_eq!(m.mem, before);
    assert_eq!(m.draws, 1);
    draw_screen(&mut m);
    assert_eq!(m.draws, 2);
}

#[test]
fn print_appends_to_the_console() {
    let mut m = Machine::new();
    print(&mut m, b"Running syscalls.\n", SCRATCH_ADDR);
    print(&mut m, b"again", SCRATCH_ADDR);
    assert_eq!(m.console, b"Running syscalls.\nagain".to_vec());
}

#[test]
fn close_is_final_and_bad_handles_fail() {
    let mut m = Machine::new();
    assert_eq!(close(&mut m, 0), FAILURE);
    assert_eq!(close(&mut m, -3), FAILURE);
    let fd = open(&mut m, b"./file.txt", 0, 0);
    assert_eq!(close(&mut m, fd), 0);
    assert_eq!(close(&mut m, fd), FAILURE, "a closed handle is invalid");
    assert_eq!(read(&mut m, fd, BUF_ADDR, BUF_LEN), FAILURE);
    assert_eq!(write_u8_slice(&mut m, fd, b"x", 0x40), FAILURE);
}

#[test]
fn out_of_bounds_regions_fail() {
    let mut m = Machine::new();
    let fd = open(&mut m, b"./file.txt", 0, 0);
    assert_eq!(read(&mut m, fd, MEM_SIZE, 1), FAILURE);
    assert_eq!(read(&mut m, fd, MEM_SIZE - 1, 2), FAILURE);
    assert_eq!(write_ptr(&mut m, fd, MEM_SIZE - 1, 2), FAILURE);
}

#[test]
fn descriptor_table_has_a_bound() {
    let mut m = Machine::new();
    for i in 0..MAX_DESCS {
        assert_eq!(socket(&mut m, b"localhost:9008", 0x80), i as isize);
    }
    assert_eq!(socket(&mut m, b"localhost:9008", 0x80), FAILURE);
    assert_eq!(open(&mut m, b"./file.txt", 0, 0), FAILURE);
}

#[test]
fn seek_moves_the_position() {
    let mut m = Machine::new();
    let fd = open(&mut m, b"./file.txt", 0, 0);
    assert_eq!(write_u8_slice(&mut m, fd, b"ClickHouse!", 0x40), 11);
    // Back to the start, then read everything again.
    assert_eq!(seek(&mut m, fd, 0, 0), 0);
    assert_eq!(read(&mut m, fd, BUF_ADDR, BUF_LEN), 11);
    // Relative to the current position (the end by now).
    assert_eq!(seek(&mut m, fd, -1, 1), 10);
    // Relative to the end.
    assert_eq!(seek(&mut m, fd, 0, 2), 11);
    assert_eq!(seek(&mut m, fd, -11, 2), 0);
    // Outside the file, or a whence the kernel does not know: failure.
    assert_eq!(seek(&mut m, fd, 12, 0), FAILURE);
    assert_eq!(seek(&mut m, fd, -1, 0), FAILURE);
    assert_eq!(seek(&mut m, fd, 0, 3), FAILURE);
    // Seek on a socket fails.
    let sfd = socket(&mut m, b"localhost:9008", 0x80);
    assert_eq!(seek(&mut m, sfd, 0, 0), FAILURE);
}

#[test]
fn overwrite_keeps_the_longer_tail() {
    let mut m = Machine::new();
    let fd = open(&mut m, b"./f", 0, 0);
    assert_eq!(write_u8_slice(&mut m, fd, b"abcdef", 0x40), 6);
    assert_eq!(close(&mut m, fd), 0);
    let fd = open(&mut m, b"./f", 0, 0);
    assert_eq!(write_u8_slice(&mut m, fd, b"XY", 0x40), 2);
    assert_eq!(file_contents(&m, b"./f"), Some(b"XYcdef".to_vec()));
}

#[test]
fn write_ptr_persists_a_memory_region() {
    let mut m = Machine::new();
    m.store_bytes(0x200, b"raw bytes");
    let fd = open(&mut m, b"./image.bin", 0, 0);
    assert_eq!(write_ptr(&mut m, fd, 0x200, 9), 9);
    assert_eq!(close(&mut m, fd), 0);
    assert_eq!(file_contents(&m, b"./image.bin"), Some(b"raw bytes".to_vec()));
}

#[test]
fn unknown_opcodes_fail_and_results_pass_through_unmodified() {
    let mut m = Machine::new();
    let f = Frame { a7: 99, a0: 0, a1: 0, a2: 0, a3: 0, a4: 0 };
    assert_eq!(m.handle(&f), FAILURE);
    // The gateway hands the kernel's word back as is: the first open's
    // descriptor is exactly the kernel's counter value.
    let open_frame = Frame { a7: 10, a0: 0, a1: 0, a2: 0, a3: 0, a4: 0 };
    assert_eq!(m.handle(&open_frame), 0);
    let reset_frame = Frame { a7: 0, a0: 0, a1: 0, a2: 0, a3: 0, a4: 0 };
    assert_eq!(m.handle(&reset_frame), 0);
}

#[test]
fn script_steps_through_its_phases_in_order() {
    let mut m = Machine::new();
    let mut p = Phase::WriteFile;
    let expected = [
        Phase::SocketRoundTrip,
        Phase::ReadFile,
        Phase::FillScreen,
        Phase::DumpScreen,
        Phase::Halt,
        Phase::Halt,
    ];
    for q in expected {
        p = script_step(&mut m, p);
        assert_eq!(p, q);
    }
}

#[test]
fn the_whole_demo_reaches_the_terminal_state() {
    let mut m = Machine::new();
    m.feed_socket(b"Ok.\n");
    let p = run_script(&mut m);
    assert_eq!(p, Phase::Halt);

    // The text file holds the demo message.
    assert_eq!(file_contents(&m, b"./file.txt"), Some(b"ClickHouse!".to_vec()));

    // The screen image holds one code byte per cell, in index order.
    let image = file_contents(&m, b"./image.bin").expect("screen image file");
    assert_eq!(image.len(), SIZE as usize);
    let table: [u8; 9] = [0, 30, 31, 32, 33, 34, 35, 36, 37];
    for i in 0..SIZE as usize {
        assert_eq!(image[i], table[i % 9]);
    }

    // The socket saw the query, and its answer reached the console.
    assert_eq!(m.socket_out, b"128\t[]".to_vec());
    let console = String::from_utf8(m.console.clone()).expect("console is text");
    assert!(console.starts_with("Running syscalls.\n"));
    assert!(console.contains("read from socket:\nOk.\n"));
    assert!(console.contains("read from file:\nClickHouse!"));
    assert!(console.contains("Updated pixels.\n"));
    assert!(!console.contains("failed"));

    // Every descriptor the demo opened was closed again.
    for d in m.descs.iter() {
        assert!(matches!(d, Desc::Closed));
    }
    // The demo drew the screen once per cell.
    assert_eq!(m.draws, SIZE as u64);
}

#[test]
fn gateway_arities_place_arguments_positionally() {
    let mut m = Machine::new();
    // Zero arguments: the redraw trap.
    assert_eq!(syscall0(&mut m, Syscall::Draw), 0);
    assert_eq!(m.draws, 1);
    // Three arguments: open a path staged in guest memory.
    m.store_bytes(0, b"./file.txt");
    let fd = syscall3(&mut m, Syscall::Open, 0, 10, 0);
    assert_eq!(fd, 0);
    m.store_bytes(0x40, b"ClickHouse!");
    // Five arguments: the kernel reads the three registers the write
    // opcode decodes and ignores the rest, so the result is the count.
    assert_eq!(syscall5(&mut m, Syscall::Write, fd, 0x40, 11, 7, 9), 11);
    // Four arguments, likewise for seek (descriptor, offset, whence).
    assert_eq!(syscall4(&mut m, Syscall::Seek, fd, 0, 0, 9), 0);
    // Two arguments: print a region of guest memory to the console.
    assert_eq!(syscall2(&mut m, Syscall::Print, 0x40, 11), 11);
    assert_eq!(m.console, b"ClickHouse!".to_vec());
    // One argument: close the descriptor.
    assert_eq!(syscall1(&mut m, Syscall::Close, fd), 0);
    // An argument in the wrong positional register must not work: the
    // descriptor belongs in the first register, not the second.
    assert_eq!(syscall2(&mut m, Syscall::Close, 99, fd), FAILURE);
}

#[test]
fn script_reports_failures_but_still_halts_when_out_of_descriptors() {
    let mut m = Machine::new();
    for _ in 0..MAX_DESCS {
        assert!(socket(&mut m, b"localhost:9008", 0x80) >= 0);
    }
    let p = run_script(&mut m);
    assert_eq!(p, Phase::Halt);
    let console = String::from_utf8(m.console.clone()).expect("console is text");
    assert!(console.contains("open write file failed\n"));
    assert!(console.contains("failed to bind socket\n"));
    assert!(console.contains("open write image file failed\n"));
    // The screen fill needs no descriptor, so it still happened.
    let dump = dump_screen(&m);
    assert_eq!(dump[1], 30);
    // But nothing reached the file system or the wire.
    assert!(m.files.is_empty());
    assert!(m.socket_out.is_empty());
}
