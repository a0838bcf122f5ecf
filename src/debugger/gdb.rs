//! Commands of the GDB remote stub: what to answer to each request.
use vstd::prelude::*;

use super::hex::{hex_byte, parse_addr_len, parse_addr_len_spec, parse_hex, parse_hex_spec};
use super::packet::{PacketOutcome, PacketResult};
use super::reply::{hex_le16, hex_le32, packet_of, Reply};
use super::Debugger;
pub use crate::cpu::Access;
use crate::cpu::Cpu;

verus! {

/// The debugger closed the connection, or the stream failed
#[derive(Clone, Copy, Debug, PartialEq, Eq)]
pub struct SessionEnded;

/// An address computed modulo 2^32
pub open spec fn wrap32(a: int) -> u32 {
    (a % 0x1_0000_0000) as u32
}

/// `count` byte loads from `addr` upward
pub open spec fn byte_run(addr: u32, count: nat) -> Seq<Access> {
    Seq::new(count, |i: int| Access::Byte(wrap32(addr + i)))
}

/// `count` word loads from `addr` upward
pub open spec fn word_run(addr: u32, count: nat) -> Seq<Access> {
    Seq::new(count, |i: int| Access::Word(wrap32(addr + 4 * i)))
}

/// Number of bytes read before the first aligned word
pub open spec fn head_len(addr: u32, len: u32) -> nat {
    let align = (addr % 4) as int;
    if align == 1 || align == 3 {
        if len < 4 - align {
            len as nat
        } else {
            (4 - align) as nat
        }
    } else if align == 2 {
        if len < 2 {
            len as nat
        } else {
            2
        }
    } else {
        0
    }
}

/// Loads before the first aligned word: bytes up to the word boundary
/// on an odd address, a halfword (or a single byte) on an even one
pub open spec fn head_plan(addr: u32, len: u32) -> Seq<Access> {
    let align = (addr % 4) as int;
    if align == 1 || align == 3 {
        byte_run(addr, head_len(addr, len))
    } else if align == 2 {
        if len == 0 {
            Seq::empty()
        } else if len == 1 {
            seq![Access::Byte(addr)]
        } else {
            seq![Access::Half(addr)]
        }
    } else {
        Seq::empty()
    }
}

/// Loads after the last whole word: a halfword for two bytes, bytes
/// otherwise
pub open spec fn tail_plan(addr: u32, rem: nat) -> Seq<Access> {
    if rem == 1 || rem == 3 {
        byte_run(addr, rem)
    } else if rem == 2 {
        seq![Access::Half(addr)]
    } else {
        Seq::empty()
    }
}

/// The loads that read `len` bytes from `addr`: a prefix up to a word
/// boundary, whole words, then the remaining bytes
pub open spec fn read_plan(addr: u32, len: u32) -> Seq<Access> {
    let sent = head_len(addr, len);
    let addr2 = wrap32(addr + sent);
    let len2 = (len - sent) as nat;
    let nwords = len2 / 4;
    head_plan(addr, len) + word_run(addr2, nwords) + tail_plan(
        wrap32(addr2 + 4 * nwords),
        len2 % 4,
    )
}

/// A loaded value as hexadecimal bytes in memory order
pub open spec fn load_hex(a: Access, v: u32) -> Seq<u8> {
    match a {
        Access::Byte(_) => hex_byte(v as u8),
        Access::Half(_) => hex_le16(v as u16),
        Access::Word(_) => hex_le32(v),
    }
}

/// The loaded values one after the other
pub open spec fn loads_hex(loads: Seq<(Access, u32)>) -> Seq<u8>
    decreases loads.len(),
{
    if loads.len() == 0 {
        Seq::empty()
    } else {
        loads_hex(loads.drop_last()) + load_hex(loads.last().0, loads.last().1)
    }
}

/// `loads` performs the accesses of `plan`, in that order
pub open spec fn loads_follow(loads: Seq<(Access, u32)>, plan: Seq<Access>) -> bool {
    &&& loads.len() == plan.len()
    &&& forall|i: int| 0 <= i < plan.len() ==> #[trigger] loads[i].0 == plan[i]
}

/// Body of the error reply: `E00`
pub open spec fn error_body() -> Seq<u8> {
    seq![0x45u8, 0x30, 0x30]
}

/// Body of the halt reason reply: `S00`
pub open spec fn status_body() -> Seq<u8> {
    seq![0x53u8, 0x30, 0x30]
}

/// The 35 registers that this target lacks, as `x` digits
pub open spec fn unavailable_regs() -> Seq<u8> {
    Seq::new(280, |i: int| 0x78u8)
}

/// 32-bit values one after the other
pub open spec fn hex_words(ws: Seq<u32>) -> Seq<u8>
    decreases ws.len(),
{
    if ws.len() == 0 {
        Seq::empty()
    } else {
        hex_words(ws.drop_last()) + hex_le32(ws.last())
    }
}

/// Body of the register reply
pub open spec fn register_payload(regs: Seq<u32>) -> Seq<u8> {
    hex_words(regs) + unavailable_regs()
}

/// `reply` answers the memory read request `args`, and the bus log
/// went from `before` to `after`: nothing loaded on an error, else the
/// loads of the plan, whose values the reply encodes
pub open spec fn is_memory_read(
    args: Seq<u8>,
    reply: Seq<u8>,
    before: Seq<(Access, u32)>,
    after: Seq<(Access, u32)>,
) -> bool {
    match parse_addr_len_spec(args) {
        Err(()) => reply == packet_of(error_body()) && after == before,
        Ok((addr, len)) => if len == 0 {
            reply == packet_of(error_body()) && after == before
        } else {
            exists|loads: Seq<(Access, u32)>|
                #![trigger loads_hex(loads)]
                loads_follow(loads, read_plan(addr, len)) && after == before + loads && reply
                    == packet_of(loads_hex(loads))
        },
    }
}

/// The 38 registers of a `g` reply: the general purpose registers,
/// then SR, LO, HI, BadVAddr, Cause and PC
pub open spec fn registers_of<C: Cpu>(cpu: &C) -> Seq<u32> {
    cpu.regs_spec() + seq![
        cpu.sr_spec(),
        cpu.lo_spec(),
        cpu.hi_spec(),
        cpu.bad_spec(),
        cpu.cause_spec(),
        cpu.pc_spec(),
    ]
}

/// A memory read request that gets `E00` without touching the bus
pub open spec fn is_bad_memory_request(args: Seq<u8>) -> bool {
    match parse_addr_len_spec(args) {
        Err(()) => true,
        Ok((_, len)) => len == 0,
    }
}

/// Bytes of an optional reply
pub open spec fn opt_bytes(out: Option<Vec<u8>>) -> Option<Seq<u8>> {
    match out {
        Some(v) => Some(v@),
        None => None,
    }
}

fn bus_add(a: u32, b: u32) -> (r: u32)
    ensures
        r == wrap32(a + b),
{
    a.wrapping_add(b)
}

/// Append `count` byte loads from `addr` upward
fn push_byte_run(plan: &mut Vec<Access>, addr: u32, count: u32)
    ensures
        final(plan)@ == old(plan)@ + byte_run(addr, count as nat),
{
    let mut i: u32 = 0;
    while i < count
        invariant
            0 <= i <= count,
            plan@ == old(plan)@ + byte_run(addr, i as nat),
        decreases count - i,
    {
        plan.push(Access::Byte(bus_add(addr, i)));
        assert(byte_run(addr, (i + 1) as nat) =~= byte_run(addr, i as nat).push(
            Access::Byte(wrap32(addr + i)),
        ));
        i = i + 1;
    }
}

/// The loads that read `len` bytes from `addr`. The bus prefers
/// aligned word accesses, so unaligned ends are read by bytes and
/// halfwords.
pub fn memory_plan(addr: u32, len: u32) -> (r: Vec<Access>)
    ensures
        r@ == read_plan(addr, len),
{
    let mut plan: Vec<Access> = Vec::new();
    let align = addr % 4;
    let sent: u32 = if align == 1 || align == 3 {
        // If we fall on the first or third byte of a word we use byte
        // accesses until we reach the next word or the end of the
        // requested length
        let count = if len < 4 - align {
            len
        } else {
            4 - align
        };
        push_byte_run(&mut plan, addr, count);
        count
    } else if align == 2 {
        if len == 0 {
            0
        } else if len == 1 {
            // Only one byte to read
            plan.push(Access::Byte(addr));
            1
        } else {
            plan.push(Access::Half(addr));
            2
        }
    } else {
        0
    };
    assert(plan@ =~= head_plan(addr, len));
    assert(sent == head_len(addr, len));
    // Skip the bytes read so far: what is left starts on a word
    // boundary, unless a single byte was all there was to read
    let addr2 = bus_add(addr, sent);
    let len2 = len - sent;
    let nwords = len2 / 4;
    let ghost head = plan@;
    let mut i: u32 = 0;
    while i < nwords
        invariant
            0 <= i <= nwords,
            nwords == len2 / 4,
            plan@ == head + word_run(addr2, i as nat),
        decreases nwords - i,
    {
        plan.push(Access::Word(bus_add(addr2, i * 4)));
        assert(word_run(addr2, (i + 1) as nat) =~= word_run(addr2, i as nat).push(
            Access::Word(wrap32(addr2 + 4 * i)),
        ));
        i = i + 1;
    }
    // See if we have anything remaining
    let addr3 = bus_add(addr2, nwords * 4);
    let rem = len2 - nwords * 4;
    assert(rem == len2 % 4);
    if rem == 1 || rem == 3 {
        push_byte_run(&mut plan, addr3, rem);
    } else if rem == 2 {
        plan.push(Access::Half(addr3));
    }
    assert(plan@ =~= read_plan(addr, len));
    plan
}

/// Encode loaded values, in order, into a reply packet
pub fn memory_reply(loads: &[(Access, u32)]) -> (r: Vec<u8>)
    ensures
        r@ == packet_of(loads_hex(loads@)),
{
    let mut reply = Reply::new();
    let mut i: usize = 0;
    while i < loads.len()
        invariant
            0 <= i <= loads.len(),
            reply@ == loads_hex(loads@.subrange(0, i as int)),
        decreases loads.len() - i,
    {
        let (a, v) = loads[i];
        assert(loads@.subrange(0, i + 1).drop_last() == loads@.subrange(0, i as int));
        match a {
            Access::Byte(_) => reply.push_u8(v as u8),
            Access::Half(_) => reply.push_u16(v as u16),
            Access::Word(_) => reply.push_u32(v),
        }
        i = i + 1;
    }
    assert(loads@.subrange(0, loads.len() as int) == loads@);
    reply.into_packet()
}

/// The error reply, `E00`
pub fn error_reply() -> (r: Vec<u8>)
    ensures
        r@ == packet_of(error_body()),
{
    let mut reply = Reply::new();
    // GDB remote doesn't specify what the error codes should be.
    reply.push(&[0x45u8, 0x30, 0x30]);
    reply.into_packet()
}

/// The halt reason reply, `S00`
pub fn status_reply() -> (r: Vec<u8>)
    ensures
        r@ == packet_of(status_body()),
{
    let mut reply = Reply::new();
    reply.push(&[0x53u8, 0x30, 0x30]);
    reply.into_packet()
}

/// The empty reply, for unsupported requests
pub fn empty_reply() -> (r: Vec<u8>)
    ensures
        r@ == packet_of(Seq::empty()),
{
    Reply::new().into_packet()
}

/// Read a region of memory. `args` should be `ADDR,LEN`, both in
/// hexadecimal; a malformed request or a zero length gets `E00`.
pub fn read_memory<C: Cpu>(cpu: &mut C, args: &[u8]) -> (r: Vec<u8>)
    ensures
        is_memory_read(args@, r@, old(cpu).bus_log(), final(cpu).bus_log()),
        is_bad_memory_request(args@) ==> *final(cpu) == *old(cpu),
{
    let (addr, len) = match parse_addr_len(args) {
        Ok(v) => v,
        Err(()) => return error_reply(),
    };
    if len == 0 {
        return error_reply();
    }
    let plan = memory_plan(addr, len);
    let ghost before = cpu.bus_log();
    let mut loads: Vec<(Access, u32)> = Vec::new();
    let mut i: usize = 0;
    while i < plan.len()
        invariant
            0 <= i <= plan.len(),
            loads.len() == i,
            forall|j: int| 0 <= j < i ==> #[trigger] loads@[j].0 == plan@[j],
            cpu.bus_log() == before + loads@,
        decreases plan.len() - i,
    {
        let a = plan[i];
        let v: u32 = match a {
            Access::Byte(x) => cpu.load8(x) as u32,
            Access::Half(x) => cpu.load16(x) as u32,
            Access::Word(x) => cpu.load32(x),
        };
        loads.push((a, v));
        assert(cpu.bus_log() =~= before + loads@);
        i = i + 1;
    }
    let r = memory_reply(loads.as_slice());
    assert(loads_follow(loads@, read_plan(addr, len)));
    assert(loads_follow(loads@, read_plan(addr, len)) && cpu.bus_log() == before + loads@ && r@
        == packet_of(loads_hex(loads@)));
    r
}

/// Encode the 38 registers (general purpose, then SR, LO, HI, BadVAddr,
/// Cause and PC) followed by the floating point registers, which this
/// target lacks and reports as unavailable
pub fn register_reply(regs: &[u32]) -> (r: Vec<u8>)
    requires
        regs@.len() == 38,
    ensures
        r@ == packet_of(register_payload(regs@)),
{
    let mut reply = Reply::new();
    let mut i: usize = 0;
    while i < regs.len()
        invariant
            0 <= i <= regs.len(),
            reply@ == hex_words(regs@.subrange(0, i as int)),
        decreases regs.len() - i,
    {
        assert(regs@.subrange(0, i + 1).drop_last() == regs@.subrange(0, i as int));
        reply.push_u32(regs[i]);
        i = i + 1;
    }
    assert(regs@.subrange(0, regs.len() as int) == regs@);
    // GDB expects 73 registers for the MIPS architecture: the 38 above
    // plus the floating point registers, which are reported as
    // unavailable.
    let mut k: usize = 0;
    while k < 35
        invariant
            0 <= k <= 35,
            reply@ == hex_words(regs@) + Seq::new((8 * k) as nat, |i: int| 0x78u8),
        decreases 35 - k,
    {
        reply.push(&[0x78u8, 0x78, 0x78, 0x78, 0x78, 0x78, 0x78, 0x78]);
        assert(Seq::new((8 * k) as nat, |i: int| 0x78u8) + seq![
            0x78u8,
            0x78,
            0x78,
            0x78,
            0x78,
            0x78,
            0x78,
            0x78,
        ] =~= Seq::new((8 * (k + 1)) as nat, |i: int| 0x78u8));
        k = k + 1;
    }
    assert(Seq::new((8 * 35) as nat, |i: int| 0x78u8) =~= unavailable_regs());
    reply.into_packet()
}

/// Read the registers of `cpu` into a reply
pub fn read_registers<C: Cpu>(cpu: &C) -> (r: Vec<u8>)
    ensures
        r@ == packet_of(register_payload(registers_of(cpu))),
{
    let mut regs: Vec<u32> = Vec::new();
    let gpr = cpu.regs();
    let mut i: usize = 0;
    while i < 32
        invariant
            0 <= i <= 32,
            regs.len() == i,
            gpr@ == cpu.regs_spec(),
            regs@ == cpu.regs_spec().subrange(0, i as int),
        decreases 32 - i,
    {
        regs.push(gpr[i]);
        i = i + 1;
        assert(regs@ =~= cpu.regs_spec().subrange(0, i as int));
    }
    assert(cpu.regs_spec().subrange(0, 32) =~= cpu.regs_spec());
    // Control registers
    regs.push(cpu.sr());
    regs.push(cpu.lo());
    regs.push(cpu.hi());
    regs.push(cpu.bad());
    regs.push(cpu.cause());
    regs.push(cpu.pc());
    assert(regs@ =~= registers_of(cpu));
    register_reply(regs.as_slice())
}

/// Continue execution, from the address in `args` if there is one.
/// A malformed address gets `E00` and execution does not resume.
pub fn resume<D: Debugger, C: Cpu>(debugger: &mut D, cpu: &mut C, args: &[u8]) -> (r: Option<
    Vec<u8>,
>)
    ensures
        opt_bytes(r) == (if args@.len() > 0 && parse_hex_spec(args@) is Err {
            Some(packet_of(error_body()))
        } else {
            None
        }),
        args@.len() == 0 ==> *final(cpu) == *old(cpu),
        args@.len() > 0 && parse_hex_spec(args@) is Err ==> *final(cpu) == *old(cpu)
            && *final(debugger) == *old(debugger),
        args@.len() > 0 && parse_hex_spec(args@) is Ok ==> final(cpu).pc_spec() == parse_hex_spec(
            args@,
        )->Ok_0 && final(cpu).bus_log() == old(cpu).bus_log(),
{
    if args.len() > 0 {
        // If an address is provided we restart from there
        match parse_hex(args) {
            Ok(addr) => cpu.force_pc(addr),
            Err(()) => return Some(error_reply()),
        }
    }
    // Tell the debugger we want to resume execution.
    debugger.resume();
    None
}

/// Answer one request: the reply to send, if any
pub fn handle_packet<D: Debugger, C: Cpu>(debugger: &mut D, cpu: &mut C, packet: &[u8]) -> (r:
    Option<Vec<u8>>)
    ensures
        ({
            let args = packet@.subrange(1, packet@.len() as int);
            if packet@.len() > 0 && packet@[0] == 0x6d {
                // Read memory
                r is Some && is_memory_read(
                    args,
                    r->0@,
                    old(cpu).bus_log(),
                    final(cpu).bus_log(),
                ) && (is_bad_memory_request(args) ==> *final(cpu) == *old(cpu))
                    && *final(debugger) == *old(debugger)
            } else if packet@.len() > 0 && packet@[0] == 0x63 {
                // Continue
                opt_bytes(r) == (if args.len() > 0 && parse_hex_spec(args) is Err {
                    Some(packet_of(error_body()))
                } else {
                    None
                }) && (args.len() == 0 ==> *final(cpu) == *old(cpu)) && (args.len() > 0
                    && parse_hex_spec(args) is Err ==> *final(cpu) == *old(cpu)
                    && *final(debugger) == *old(debugger)) && (args.len() > 0 && parse_hex_spec(
                    args,
                ) is Ok ==> final(cpu).pc_spec() == parse_hex_spec(args)->Ok_0
                    && final(cpu).bus_log() == old(cpu).bus_log())
            } else {
                // Everything else leaves the CPU and the debugger alone
                &&& *final(cpu) == *old(cpu)
                &&& *final(debugger) == *old(debugger)
                &&& opt_bytes(r) == Some(
                    if packet@.len() > 0 && packet@[0] == 0x3f {
                        packet_of(status_body())
                    } else if packet@.len() > 0 && packet@[0] == 0x67 {
                        packet_of(register_payload(registers_of(old(cpu))))
                    } else {
                        packet_of(Seq::empty())
                    },
                )
            }
        }),
{
    if packet.len() == 0 {
        return Some(empty_reply());
    }
    let command = packet[0];
    let args = &packet[1..packet.len()];
    assert(args@ == packet@.subrange(1, packet@.len() as int));
    if command == 0x3f {
        Some(status_reply())
    } else if command == 0x6d {
        Some(read_memory(cpu, args))
    } else if command == 0x67 {
        Some(read_registers(cpu))
    } else if command == 0x63 {
        resume(debugger, cpu, args)
    } else {
        // Send empty response for unsupported packets
        Some(empty_reply())
    }
}

/// The first answer to the outcome of reading one packet: `+` for a
/// good packet, to be sent before the packet is handled, `-` to ask
/// for it again, or the end of the session
pub fn acknowledgement(outcome: &PacketResult) -> (r: Result<u8, SessionEnded>)
    ensures
        match outcome@ {
            PacketOutcome::Valid(_) => r is Ok && r->Ok_0 == 0x2b,
            PacketOutcome::BadChecksum(_) => r is Ok && r->Ok_0 == 0x2d,
            PacketOutcome::EndOfStream => r is Err,
        },
{
    match outcome {
        // Acknowledge packet reception
        PacketResult::Valid(_) => Ok(0x2b),
        // Request retransmission
        PacketResult::BadChecksum(_) => Ok(0x2d),
        // Session over
        PacketResult::EndOfStream => Err(SessionEnded),
    }
}

} // verus!
