use rustation::cpu::Cpu;
use rustation::debugger::gdb::{
    empty_reply, error_reply, handle_packet, memory_plan, memory_reply, read_memory,
    read_registers, register_reply, acknowledgement, resume, status_reply, Access, SessionEnded,
};
use rustation::debugger::hex::{ascii_hex, parse_addr_len, parse_hex, to_hex_digit};
use rustation::debugger::packet::{next_packet, PacketFramer, PacketResult};
use rustation::debugger::reply::Reply;
use rustation::debugger::Debugger;

/// CPU whose bus returns the low bits of the address
struct StubCpu {
    regs: [u32; 32],
    pc: u32,
    loads: Vec<(u8, u32)>,
}

impl StubCpu {
    fn new() -> StubCpu {
        StubCpu { regs: [0; 32], pc: 0, loads: Vec::new() }
    }
}

impl Cpu for StubCpu {
    fn regs(&self) -> &[u32; 32] {
        &self.regs
    }
    fn sr(&self) -> u32 {
        0
    }
    fn lo(&self) -> u32 {
        0
    }
    fn hi(&self) -> u32 {
        0
    }
    fn bad(&self) -> u32 {
        0
    }
    fn cause(&self) -> u32 {
        0
    }
    fn pc(&self) -> u32 {
        self.pc
    }
    fn load8(&mut self, addr: u32) -> u8 {
        self.loads.push((8, addr));
        (addr & 0xff) as u8
    }
    fn load16(&mut self, addr: u32) -> u16 {
        self.loads.push((16, addr));
        (addr & 0xffff) as u16
    }
    fn load32(&mut self, addr: u32) -> u32 {
        self.loads.push((32, addr));
        addr
    }
    fn force_pc(&mut self, pc: u32) {
        self.pc = pc;
    }
}

/// Debugger that counts the requests to resume
struct CountingDebugger {
    resumed: u32,
}

impl Debugger for CountingDebugger {
    fn trigger_break(&mut self) {}
    fn pc_change<C: Cpu>(&mut self, _cpu: &mut C) {}
    fn memory_read<C: Cpu>(&mut self, _cpu: &mut C, _addr: u32) {}
    fn memory_write<C: Cpu>(&mut self, _cpu: &mut C, _addr: u32) {}
    fn resume(&mut self) {
        self.resumed += 1;
    }
}

/// `$body#cs` with the checksum in lowercase hexadecimal
fn framed(body: &str) -> Vec<u8> {
    let sum = body.bytes().fold(0u8, |a, b| a.wrapping_add(b));
    format!("${}#{:02x}", body, sum).into_bytes()
}

#[test]
fn memory_read_aligned_word() {
    let mut cpu = StubCpu::new();
    assert_eq!(read_memory(&mut cpu, b"10,4"), framed("10000000"));
    assert_eq!(cpu.loads, vec![(32, 0x10)]);
}

#[test]
fn memory_read_odd_address_reads_bytes_to_the_boundary() {
    let mut cpu = StubCpu::new();
    // Three bytes up to the word boundary, then the one byte left of
    // the four requested
    assert_eq!(read_memory(&mut cpu, b"11,4"), framed("11121314"));
    assert_eq!(cpu.loads, vec![(8, 0x11), (8, 0x12), (8, 0x13), (8, 0x14)]);
}

#[test]
fn memory_read_even_address_single_byte() {
    let mut cpu = StubCpu::new();
    assert_eq!(read_memory(&mut cpu, b"12,1"), framed("12"));
    assert_eq!(cpu.loads, vec![(8, 0x12)]);
}

#[test]
fn memory_read_even_address_halfword_then_byte() {
    let mut cpu = StubCpu::new();
    assert_eq!(read_memory(&mut cpu, b"12,3"), framed("120014"));
    assert_eq!(cpu.loads, vec![(16, 0x12), (8, 0x14)]);
}

#[test]
fn memory_read_zero_length_is_an_error() {
    let mut cpu = StubCpu::new();
    assert_eq!(read_memory(&mut cpu, b"10,0"), framed("E00"));
    assert!(cpu.loads.is_empty());
}

#[test]
fn memory_read_malformed_is_an_error() {
    let mut cpu = StubCpu::new();
    assert_eq!(read_memory(&mut cpu, b"10"), framed("E00"));
    assert_eq!(read_memory(&mut cpu, b",4"), framed("E00"));
    assert_eq!(read_memory(&mut cpu, b"10,"), framed("E00"));
    assert_eq!(read_memory(&mut cpu, b"1g,4"), framed("E00"));
    assert!(cpu.loads.is_empty());
}

#[test]
fn memory_read_words_and_tail() {
    let mut cpu = StubCpu::new();
    // Two words, then a halfword
    assert_eq!(read_memory(&mut cpu, b"100,a"), framed("00010000040100000801"));
    assert_eq!(cpu.loads, vec![(32, 0x100), (32, 0x104), (16, 0x108)]);
}

#[test]
fn memory_plan_shapes_the_request() {
    assert_eq!(
        memory_plan(0x13, 9),
        vec![Access::Byte(0x13), Access::Word(0x14), Access::Word(0x18)]
    );
    assert_eq!(
        memory_plan(0x21, 2),
        vec![Access::Byte(0x21), Access::Byte(0x22)]
    );
    assert_eq!(
        memory_plan(0x20, 7),
        vec![Access::Word(0x20), Access::Byte(0x24), Access::Byte(0x25), Access::Byte(0x26)]
    );
    assert_eq!(memory_plan(0x20, 0), vec![]);
}

#[test]
fn memory_reply_encodes_little_endian() {
    let loads = [(Access::Word(0), 0x12345678u32), (Access::Half(4), 0xabcd), (Access::Byte(6), 0x5)];
    assert_eq!(memory_reply(&loads), framed("78563412cdab05"));
}

#[test]
fn register_reply_with_zero_registers() {
    let cpu = StubCpu::new();
    let reply = read_registers(&cpu);
    let body = &reply[1..reply.len() - 3];
    assert_eq!(body.len(), 584);
    assert!(body[..304].iter().all(|&b| b == b'0'));
    assert!(body[304..].iter().all(|&b| b == b'x'));
    assert_eq!(reply, register_reply(&[0u32; 38]));
}

#[test]
fn register_reply_order_and_endianness() {
    let mut regs = [0u32; 38];
    regs[0] = 0x01020304;
    regs[37] = 0xbfc00000;
    let reply = register_reply(&regs);
    assert_eq!(&reply[1..9], b"04030201");
    assert_eq!(&reply[1 + 37 * 8..1 + 38 * 8], b"0000c0bf");
}

#[test]
fn read_registers_takes_pc_last() {
    let mut cpu = StubCpu::new();
    cpu.regs[31] = 0x80010000;
    cpu.pc = 0x80020000;
    let reply = read_registers(&cpu);
    assert_eq!(&reply[1 + 31 * 8..1 + 32 * 8], b"00000180");
    assert_eq!(&reply[1 + 37 * 8..1 + 38 * 8], b"00000280");
}

#[test]
fn fixed_replies() {
    assert_eq!(status_reply(), b"$S00#b3".to_vec());
    assert_eq!(error_reply(), b"$E00#a5".to_vec());
    assert_eq!(empty_reply(), b"$#00".to_vec());
}

#[test]
fn reply_builder() {
    let mut reply = Reply::new();
    reply.push(b"OK");
    reply.push_u8(0xa5);
    reply.push_u16(0x1234);
    reply.push_u32(0xdeadbeef);
    assert_eq!(reply.into_packet(), framed("OKa53412efbeadde"));
}

#[test]
fn framer_reads_valid_packet() {
    let input = framed("m10,4");
    let (r, n) = next_packet(&input);
    assert!(matches!(r, PacketResult::Valid(ref p) if p == b"m10,4"));
    assert_eq!(n, input.len());
}

#[test]
fn framer_reads_packets_with_any_printable_payload() {
    for body in ["", "g", "?", "c", "qSupported:multiprocess+", "m80010000,100", "$ok"] {
        let (r, _) = next_packet(&framed(body));
        assert!(matches!(r, PacketResult::Valid(ref p) if p == body.as_bytes()), "{}", body);
    }
}

#[test]
fn framer_reports_wrong_checksum_digit() {
    // 'g' is 0x67
    for bad in [&b"$g#68"[..], b"$g#57", b"$g#60", b"$g#07"] {
        let (r, n) = next_packet(bad);
        assert!(matches!(r, PacketResult::BadChecksum(ref p) if p == b"g"));
        assert_eq!(n, 5);
    }
}

#[test]
fn framer_rejects_uppercase_and_invalid_checksum_chars() {
    let (r, n) = next_packet(b"$m#6D");
    assert!(matches!(r, PacketResult::BadChecksum(ref p) if p == b"m"));
    assert_eq!(n, 5);
    let (r, n) = next_packet(b"$m#z0");
    assert!(matches!(r, PacketResult::BadChecksum(ref p) if p == b"m"));
    assert_eq!(n, 4);
}

#[test]
fn framer_skips_junk_before_start() {
    let mut input = b"+-junk#00".to_vec();
    input.extend(framed("g"));
    let (r, n) = next_packet(&input);
    assert!(matches!(r, PacketResult::Valid(ref p) if p == b"g"));
    assert_eq!(n, input.len());
}

#[test]
fn framer_end_of_stream_mid_packet() {
    for input in [&b""[..], b"junk", b"$", b"$g", b"$g#", b"$g#6"] {
        let (r, n) = next_packet(input);
        assert!(matches!(r, PacketResult::EndOfStream));
        assert_eq!(n, input.len());
    }
}

#[test]
fn framer_byte_by_byte() {
    let mut framer = PacketFramer::new();
    let input = framed("?");
    for &b in &input[..input.len() - 1] {
        assert!(framer.feed(b).is_none());
    }
    let r = framer.feed(input[input.len() - 1]);
    assert!(matches!(r, Some(PacketResult::Valid(ref p)) if p == b"?"));
    // The framer is ready for the next packet
    let mut second = None;
    for &b in framed("g").iter() {
        second = framer.feed(b);
    }
    assert!(matches!(second, Some(PacketResult::Valid(ref p)) if p == b"g"));
}

#[test]
fn ascii_hex_digits() {
    assert_eq!(ascii_hex(b'0'), Some(0));
    assert_eq!(ascii_hex(b'9'), Some(9));
    assert_eq!(ascii_hex(b'a'), Some(10));
    assert_eq!(ascii_hex(b'f'), Some(15));
    assert_eq!(ascii_hex(b'A'), None);
    assert_eq!(ascii_hex(b'g'), None);
    assert_eq!(ascii_hex(b'/'), None);
    assert_eq!(ascii_hex(b':'), None);
    for n in 0..16u8 {
        assert_eq!(ascii_hex(to_hex_digit(n)), Some(n));
    }
}

#[test]
fn parse_hex_round_trip() {
    for n in [0u32, 1, 0xf, 0x10, 0xabc, 0x8001_0000, 0xdead_beef, u32::MAX] {
        assert_eq!(parse_hex(format!("{:x}", n).as_bytes()), Ok(n));
    }
    let mut n: u32 = 1;
    for _ in 0..2000 {
        n = n.wrapping_mul(2_654_435_761).wrapping_add(12345);
        assert_eq!(parse_hex(format!("{:x}", n).as_bytes()), Ok(n));
    }
}

#[test]
fn parse_hex_edge_cases() {
    assert_eq!(parse_hex(b""), Ok(0));
    assert_eq!(parse_hex(b"00000010"), Ok(0x10));
    // Only the low 32 bits of a longer numeral are kept
    assert_eq!(parse_hex(b"123456789"), Ok(0x23456789));
}

#[test]
fn parse_hex_rejects_non_digits() {
    for bad in [&b"g"[..], b"12x4", b"0x10", b"ABC", b" 1", b"1,2", b"-1"] {
        assert_eq!(parse_hex(bad), Err(()));
    }
}

#[test]
fn parse_addr_len_accepts_both_fields() {
    assert_eq!(parse_addr_len(b"80010000,4"), Ok((0x80010000, 4)));
    assert_eq!(parse_addr_len(b"0,ffffffff"), Ok((0, 0xffffffff)));
}

#[test]
fn parse_addr_len_rejects_bad_formats() {
    assert_eq!(parse_addr_len(b""), Err(()));
    assert_eq!(parse_addr_len(b"10"), Err(()));
    assert_eq!(parse_addr_len(b",4"), Err(()));
    assert_eq!(parse_addr_len(b"10,"), Err(()));
    assert_eq!(parse_addr_len(b","), Err(()));
    assert_eq!(parse_addr_len(b"10,4,"), Err(()));
    assert_eq!(parse_addr_len(b"1x,4"), Err(()));
}

#[test]
fn handle_packet_dispatch() {
    let mut dbg = CountingDebugger { resumed: 0 };
    let mut cpu = StubCpu::new();
    assert_eq!(handle_packet(&mut dbg, &mut cpu, b"?"), Some(framed("S00")));
    assert_eq!(handle_packet(&mut dbg, &mut cpu, b"m12,1"), Some(framed("12")));
    assert_eq!(handle_packet(&mut dbg, &mut cpu, b"qSupported"), Some(framed("")));
    assert_eq!(handle_packet(&mut dbg, &mut cpu, b""), Some(framed("")));
    assert_eq!(handle_packet(&mut dbg, &mut cpu, b"g").map(|r| r.len()), Some(584 + 4));
    assert_eq!(dbg.resumed, 0);
}

#[test]
fn resume_with_and_without_address() {
    let mut dbg = CountingDebugger { resumed: 0 };
    let mut cpu = StubCpu::new();
    assert_eq!(resume(&mut dbg, &mut cpu, b""), None);
    assert_eq!(dbg.resumed, 1);
    assert_eq!(cpu.pc, 0);
    assert_eq!(handle_packet(&mut dbg, &mut cpu, b"cbfc00000"), None);
    assert_eq!(dbg.resumed, 2);
    assert_eq!(cpu.pc, 0xbfc00000);
    // A malformed address is an error and does not resume
    assert_eq!(handle_packet(&mut dbg, &mut cpu, b"cxyz"), Some(framed("E00")));
    assert_eq!(dbg.resumed, 2);
    assert_eq!(cpu.pc, 0xbfc00000);
}

#[test]
fn acknowledgement_of_each_outcome() {
    assert_eq!(acknowledgement(&PacketResult::Valid(b"?".to_vec())), Ok(b'+'));
    assert_eq!(acknowledgement(&PacketResult::BadChecksum(b"?".to_vec())), Ok(b'-'));
    assert_eq!(acknowledgement(&PacketResult::EndOfStream), Err(SessionEnded));
}

#[test]
fn commands_without_side_effects_leave_the_cpu_alone() {
    let mut dbg = CountingDebugger { resumed: 0 };
    let mut cpu = StubCpu::new();
    for packet in [&b"?"[..], b"g", b"qSupported", b"", b"m10,0", b"m1x,4", b"czz"] {
        handle_packet(&mut dbg, &mut cpu, packet);
    }
    assert!(cpu.loads.is_empty());
    assert_eq!(cpu.pc, 0);
    assert_eq!(dbg.resumed, 0);
}

#[test]
fn inert_debugger_accepts_every_call() {
    let mut dbg = ();
    let mut cpu = StubCpu::new();
    dbg.trigger_break();
    dbg.pc_change(&mut cpu);
    dbg.memory_read(&mut cpu, 0);
    dbg.memory_write(&mut cpu, 0);
    assert_eq!(resume(&mut dbg, &mut cpu, b"10"), None);
    assert_eq!(cpu.pc, 0x10);
}
