//! Framing of the requests that the remote debugger sends:
//! `$` payload `#` and two hexadecimal checksum digits.
use vstd::prelude::*;

use super::hex::{
    ascii_hex, hex_byte, hex_digit_value, is_hex_digit, lemma_hex_digit_round_trip,
};

verus! {

/// Sum of the bytes of `s`
pub open spec fn byte_sum(s: Seq<u8>) -> nat
    decreases s.len(),
{
    if s.len() == 0 {
        0
    } else {
        byte_sum(s.drop_last()) + s.last() as nat
    }
}

/// Checksum of a payload: the sum of its bytes modulo 256
pub open spec fn checksum(s: Seq<u8>) -> u8 {
    (byte_sum(s) % 256) as u8
}

/// Outcome of reading one packet, on payloads as sequences
pub enum PacketOutcome {
    Valid(Seq<u8>),
    BadChecksum(Seq<u8>),
    EndOfStream,
}

/// Outcome of reading one packet
#[derive(Debug)]
pub enum PacketResult {
    /// A packet whose checksum matches its payload
    Valid(Vec<u8>),
    /// A packet with an invalid or mismatching checksum
    BadChecksum(Vec<u8>),
    /// The stream ended before a packet was complete
    EndOfStream,
}

impl View for PacketResult {
    type V = PacketOutcome;

    open spec fn view(&self) -> PacketOutcome {
        match self {
            PacketResult::Valid(p) => PacketOutcome::Valid(p@),
            PacketResult::BadChecksum(p) => PacketOutcome::BadChecksum(p@),
            PacketResult::EndOfStream => PacketOutcome::EndOfStream,
        }
    }
}

/// Where the framer stands in the packet
#[derive(Clone, Copy, Debug, PartialEq, Eq, Structural)]
pub enum FramerState {
    WaitForStart,
    InPacket,
    WaitForCheckSum,
    /// The first checksum digit has been read, with this value
    WaitForCheckSum2(u8),
}

/// One byte of the framer state machine: the next state, the payload
/// read so far, and the outcome once the packet is over. A finished
/// packet leaves the framer waiting for the next one.
pub open spec fn framer_step(st: FramerState, pkt: Seq<u8>, b: u8) -> (
    FramerState,
    Seq<u8>,
    Option<PacketOutcome>,
) {
    match st {
        FramerState::WaitForStart => {
            if b == 0x24 {
                (FramerState::InPacket, Seq::empty(), None)
            } else {
                (FramerState::WaitForStart, pkt, None)
            }
        },
        FramerState::InPacket => {
            if b == 0x23 {
                (FramerState::WaitForCheckSum, pkt, None)
            } else {
                (FramerState::InPacket, pkt.push(b), None)
            }
        },
        FramerState::WaitForCheckSum => {
            if is_hex_digit(b) {
                (FramerState::WaitForCheckSum2(hex_digit_value(b) as u8), pkt, None)
            } else {
                (FramerState::WaitForStart, Seq::empty(), Some(PacketOutcome::BadChecksum(pkt)))
            }
        },
        FramerState::WaitForCheckSum2(c1) => {
            if is_hex_digit(b) && c1 * 16 + hex_digit_value(b) == checksum(pkt) {
                (FramerState::WaitForStart, Seq::empty(), Some(PacketOutcome::Valid(pkt)))
            } else {
                (FramerState::WaitForStart, Seq::empty(), Some(PacketOutcome::BadChecksum(pkt)))
            }
        },
    }
}

/// Run the framer over `input` from state `st` with payload `pkt`:
/// the outcome and the number of bytes consumed
pub open spec fn framer_run(st: FramerState, pkt: Seq<u8>, input: Seq<u8>) -> (PacketOutcome, nat)
    decreases input.len(),
{
    if input.len() == 0 {
        (PacketOutcome::EndOfStream, 0)
    } else {
        let (st2, pkt2, out) = framer_step(st, pkt, input[0]);
        match out {
            Some(o) => (o, 1),
            None => {
                let (o, n) = framer_run(st2, pkt2, input.drop_first());
                (o, n + 1)
            },
        }
    }
}

/// What `next_packet` returns on `input`
pub open spec fn next_packet_spec(input: Seq<u8>) -> (PacketOutcome, nat) {
    framer_run(FramerState::WaitForStart, Seq::empty(), input)
}

/// Byte-at-a-time packet framer
pub struct PacketFramer {
    state: FramerState,
    packet: Vec<u8>,
    csum: u8,
}

impl PacketFramer {
    pub closed spec fn state_spec(&self) -> FramerState {
        self.state
    }

    /// Payload read so far
    pub closed spec fn payload(&self) -> Seq<u8> {
        self.packet@
    }

    pub closed spec fn wf(&self) -> bool {
        self.csum == checksum(self.packet@)
    }

    pub fn new() -> (r: PacketFramer)
        ensures
            r.wf(),
            r.state_spec() == FramerState::WaitForStart,
            r.payload() == Seq::<u8>::empty(),
    {
        PacketFramer { state: FramerState::WaitForStart, packet: Vec::new(), csum: 0 }
    }

    /// Take one byte of the stream; return the outcome if it ends a
    /// packet
    pub fn feed(&mut self, byte: u8) -> (r: Option<PacketResult>)
        requires
            old(self).wf(),
        ensures
            final(self).wf(),
            final(self).state_spec() == framer_step(old(self).state_spec(), old(self).payload(), byte).0,
            final(self).payload() == framer_step(old(self).state_spec(), old(self).payload(), byte).1,
            match r {
                Some(p) => framer_step(old(self).state_spec(), old(self).payload(), byte).2 == Some(
                    p@,
                ),
                None => framer_step(old(self).state_spec(), old(self).payload(), byte).2 is None,
            },
    {
        match self.state {
            FramerState::WaitForStart => {
                if byte == 0x24 {
                    // Start of packet
                    self.state = FramerState::InPacket;
                    self.packet = Vec::new();
                    self.csum = 0;
                }
                None
            },
            FramerState::InPacket => {
                if byte == 0x23 {
                    // End of packet
                    self.state = FramerState::WaitForCheckSum;
                } else {
                    let ghost before = self.packet@;
                    // Append byte to the packet
                    self.packet.push(byte);
                    assert(self.packet@.drop_last() == before);
                    // Update checksum
                    self.csum = self.csum.wrapping_add(byte);
                    assert(self.csum == checksum(self.packet@)) by {
                        assert(byte_sum(self.packet@) == byte_sum(before) + byte);
                    }
                }
                None
            },
            FramerState::WaitForCheckSum => {
                match ascii_hex(byte) {
                    Some(b) => {
                        self.state = FramerState::WaitForCheckSum2(b);
                        None
                    },
                    None => Some(PacketResult::BadChecksum(self.take_packet())),
                }
            },
            FramerState::WaitForCheckSum2(c1) => {
                match ascii_hex(byte) {
                    Some(c2) => {
                        let expected = (c1 as u32) * 16 + (c2 as u32);
                        let good = expected == self.csum as u32;
                        let packet = self.take_packet();
                        if good {
                            // Checksum is good, we're done!
                            Some(PacketResult::Valid(packet))
                        } else {
                            Some(PacketResult::BadChecksum(packet))
                        }
                    },
                    None => Some(PacketResult::BadChecksum(self.take_packet())),
                }
            },
        }
    }

    /// Hand out the payload and wait for the next packet
    fn take_packet(&mut self) -> (r: Vec<u8>)
        ensures
            r@ == old(self).payload(),
            final(self).wf(),
            final(self).state_spec() == FramerState::WaitForStart,
            final(self).payload() == Seq::<u8>::empty(),
    {
        let mut packet = Vec::new();
        std::mem::swap(&mut packet, &mut self.packet);
        self.state = FramerState::WaitForStart;
        self.csum = 0;
        packet
    }
}

/// Read one packet from the start of `input`. Bytes before the first
/// `$` are skipped; the end of `input` before a complete packet gives
/// `EndOfStream`. Also returns how many bytes were consumed.
pub fn next_packet(input: &[u8]) -> (r: (PacketResult, usize))
    ensures
        (r.0@, r.1 as nat) == next_packet_spec(input@),
{
    let mut framer = PacketFramer::new();
    let mut i: usize = 0;
    assert(input@.subrange(0, input.len() as int) == input@);
    while i < input.len()
        invariant
            0 <= i <= input.len(),
            framer.wf(),
            next_packet_spec(input@) == ({
                let (o, n) = framer_run(
                    framer.state_spec(),
                    framer.payload(),
                    input@.subrange(i as int, input.len() as int),
                );
                (o, n + i as nat)
            }),
        decreases input.len() - i,
    {
        let ghost rest = input@.subrange(i as int, input.len() as int);
        assert(rest[0] == input@[i as int]);
        assert(rest.drop_first() == input@.subrange(i + 1, input.len() as int));
        let out = framer.feed(input[i]);
        i = i + 1;
        match out {
            Some(p) => {
                return (p, i);
            },
            None => {},
        }
    }
    assert(input@.subrange(i as int, input.len() as int).len() == 0);
    (PacketResult::EndOfStream, i)
}

/// `s` holds no `#`
pub open spec fn no_hash(s: Seq<u8>) -> bool {
    forall|i: int| 0 <= i < s.len() ==> s[i] != 0x23
}

/// `s` holds no `$`
pub open spec fn no_dollar(s: Seq<u8>) -> bool {
    forall|i: int| 0 <= i < s.len() ==> s[i] != 0x24
}

/// A payload without `#` is read whole, whatever follows it
proof fn lemma_run_payload(pkt: Seq<u8>, body: Seq<u8>, rest: Seq<u8>)
    requires
        no_hash(body),
    ensures
        framer_run(FramerState::InPacket, pkt, body + rest).0 == framer_run(
            FramerState::InPacket,
            pkt + body,
            rest,
        ).0,
    decreases body.len(),
{
    if body.len() == 0 {
        assert(body + rest == rest);
        assert(pkt + body == pkt);
    } else {
        let input = body + rest;
        assert(input[0] == body[0]);
        assert(input.drop_first() == body.drop_first() + rest);
        assert(no_hash(body.drop_first())) by {
            assert forall|i: int| 0 <= i < body.drop_first().len() implies body.drop_first()[i]
                != 0x23 by {
                assert(body.drop_first()[i] == body[i + 1]);
            }
        }
        lemma_run_payload(pkt.push(body[0]), body.drop_first(), rest);
        assert(pkt.push(body[0]) + body.drop_first() == pkt + body);
    }
}

/// The outcome of a packet `$` body `#` c1 c2
proof fn lemma_run_packet(body: Seq<u8>, c1: u8, c2: u8)
    requires
        no_hash(body),
    ensures
        framer_run(
            FramerState::WaitForStart,
            Seq::empty(),
            seq![0x24u8] + body + seq![0x23u8, c1, c2],
        ).0 == (if is_hex_digit(c1) && is_hex_digit(c2) && hex_digit_value(c1) * 16
            + hex_digit_value(c2) == checksum(body) {
            PacketOutcome::Valid(body)
        } else {
            PacketOutcome::BadChecksum(body)
        }),
{
    let tail = seq![0x23u8, c1, c2];
    let s = seq![0x24u8] + body + tail;
    let e = Seq::<u8>::empty();
    assert(s[0] == 0x24);
    assert(s.drop_first() == body + tail);
    assert(framer_run(FramerState::WaitForStart, e, s).0 == framer_run(
        FramerState::InPacket,
        e,
        body + tail,
    ).0);
    lemma_run_payload(e, body, tail);
    assert(e + body == body);
    assert(tail[0] == 0x23);
    assert(tail.drop_first() == seq![c1, c2]);
    assert(framer_run(FramerState::InPacket, body, tail).0 == framer_run(
        FramerState::WaitForCheckSum,
        body,
        seq![c1, c2],
    ).0);
    assert(seq![c1, c2][0] == c1);
    assert(seq![c1, c2].drop_first() == seq![c2]);
    assert(seq![c2][0] == c2);
    if is_hex_digit(c1) {
        let st = FramerState::WaitForCheckSum2(hex_digit_value(c1) as u8);
        assert(hex_digit_value(c1) < 16);
        assert(framer_run(FramerState::WaitForCheckSum, body, seq![c1, c2]).0 == framer_run(
            st,
            body,
            seq![c2],
        ).0);
    }
}

/// A well-formed packet whose payload holds no `#` is read back with
/// its payload.
pub proof fn lemma_frame_valid_packet(body: Seq<u8>)
    requires
        no_hash(body),
    ensures
        next_packet_spec(seq![0x24u8] + body + seq![0x23u8] + hex_byte(checksum(body))).0
            == PacketOutcome::Valid(body),
{
    let c = checksum(body);
    lemma_hex_digit_round_trip((c / 16) as nat);
    lemma_hex_digit_round_trip((c % 16) as nat);
    let h = hex_byte(c);
    assert(seq![0x24u8] + body + seq![0x23u8] + h == seq![0x24u8] + body + seq![0x23u8, h[0], h[1]]);
    lemma_run_packet(body, h[0], h[1]);
}

/// A packet whose two checksum bytes are not the checksum of its
/// payload in lowercase hexadecimal is reported as a bad checksum.
pub proof fn lemma_frame_bad_checksum(body: Seq<u8>, c1: u8, c2: u8)
    requires
        no_hash(body),
        !(is_hex_digit(c1) && is_hex_digit(c2) && hex_digit_value(c1) * 16 + hex_digit_value(c2)
            == checksum(body)),
    ensures
        next_packet_spec(seq![0x24u8] + body + seq![0x23u8, c1, c2]).0
            == PacketOutcome::BadChecksum(body),
{
    lemma_run_packet(body, c1, c2);
}

/// Bytes before the first `$` are skipped: they change nothing but
/// the count of bytes consumed.
pub proof fn lemma_frame_skips_junk(junk: Seq<u8>, s: Seq<u8>)
    requires
        no_dollar(junk),
    ensures
        next_packet_spec(junk + s) == (next_packet_spec(s).0, next_packet_spec(s).1 + junk.len()),
    decreases junk.len(),
{
    if junk.len() == 0 {
        assert(junk + s == s);
    } else {
        let input = junk + s;
        assert(input[0] == junk[0]);
        assert(input.drop_first() == junk.drop_first() + s);
        assert(no_dollar(junk.drop_first())) by {
            assert forall|i: int| 0 <= i < junk.drop_first().len() implies junk.drop_first()[i]
                != 0x24 by {
                assert(junk.drop_first()[i] == junk[i + 1]);
            }
        }
        lemma_frame_skips_junk(junk.drop_first(), s);
    }
}

/// A stream that ends inside a packet, before its second checksum
/// digit, gives `EndOfStream`.
pub proof fn lemma_frame_truncated(body: Seq<u8>, tail: Seq<u8>)
    requires
        no_hash(body),
        tail.len() == 0 || tail == seq![0x23u8] || (tail.len() == 2 && tail[0] == 0x23
            && is_hex_digit(tail[1])),
    ensures
        next_packet_spec(seq![0x24u8] + body + tail).0 == PacketOutcome::EndOfStream,
{
    let s = seq![0x24u8] + body + tail;
    let e = Seq::<u8>::empty();
    assert(s[0] == 0x24);
    assert(s.drop_first() == body + tail);
    assert(framer_run(FramerState::WaitForStart, e, s).0 == framer_run(
        FramerState::InPacket,
        e,
        body + tail,
    ).0);
    lemma_run_payload(e, body, tail);
    assert(e + body == body);
    if tail.len() > 0 {
        assert(tail[0] == 0x23);
        let t1 = tail.drop_first();
        assert(framer_run(FramerState::InPacket, body, tail).0 == framer_run(
            FramerState::WaitForCheckSum,
            body,
            t1,
        ).0);
        if tail.len() == 2 {
            assert(t1[0] == tail[1]);
            assert(hex_digit_value(tail[1]) < 16);
            let st = FramerState::WaitForCheckSum2(hex_digit_value(tail[1]) as u8);
            assert(t1.drop_first().len() == 0);
            assert(framer_run(FramerState::WaitForCheckSum, body, t1).0 == framer_run(
                st,
                body,
                t1.drop_first(),
            ).0);
        } else {
            assert(t1.len() == 0);
        }
    }
}

} // verus!
