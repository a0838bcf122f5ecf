//! Builder of the replies sent to the remote debugger.
use vstd::prelude::*;

use super::hex::{hex_byte, to_hex_digit};
use super::packet::{byte_sum, checksum};

verus! {

/// A 16-bit value as hexadecimal, least significant byte first
pub open spec fn hex_le16(h: u16) -> Seq<u8> {
    hex_byte((h % 256) as u8) + hex_byte((h / 256) as u8)
}

/// A 32-bit value as hexadecimal, least significant byte first
pub open spec fn hex_le32(w: u32) -> Seq<u8> {
    hex_le16((w % 0x1_0000) as u16) + hex_le16((w / 0x1_0000) as u16)
}

/// A framed packet: `$` body `#` and the checksum of the body in
/// hexadecimal
pub open spec fn packet_of(body: Seq<u8>) -> Seq<u8> {
    seq![0x24u8] + body + seq![0x23u8] + hex_byte(checksum(body))
}

/// Body of a reply under construction
pub struct Reply {
    body: Vec<u8>,
}

impl View for Reply {
    type V = Seq<u8>;

    closed spec fn view(&self) -> Seq<u8> {
        self.body@
    }
}

impl Reply {
    pub fn new() -> (r: Reply)
        ensures
            r@ == Seq::<u8>::empty(),
    {
        Reply { body: Vec::new() }
    }

    /// Append raw bytes
    pub fn push(&mut self, data: &[u8])
        ensures
            final(self)@ == old(self)@ + data@,
    {
        let mut i: usize = 0;
        while i < data.len()
            invariant
                0 <= i <= data.len(),
                self@ == old(self)@ + data@.subrange(0, i as int),
            decreases data.len() - i,
        {
            self.body.push(data[i]);
            assert(data@.subrange(0, i + 1) == data@.subrange(0, i as int).push(data@[i as int]));
            i = i + 1;
        }
        assert(data@.subrange(0, data.len() as int) == data@);
    }

    /// Append a byte as two hexadecimal digits
    pub fn push_u8(&mut self, b: u8)
        ensures
            final(self)@ == old(self)@ + hex_byte(b),
    {
        assert(b >> 4u8 == b / 16 && b & 0xfu8 == b % 16) by (bit_vector);
        self.body.push(to_hex_digit(b >> 4u8));
        self.body.push(to_hex_digit(b & 0xfu8));
        assert(self@ == old(self)@ + hex_byte(b));
    }

    /// Append a 16-bit value, least significant byte first
    pub fn push_u16(&mut self, h: u16)
        ensures
            final(self)@ == old(self)@ + hex_le16(h),
    {
        assert((h & 0xff) as u8 == (h % 256) as u8 && (h >> 8u16) as u8 == (h / 256) as u8)
            by (bit_vector);
        self.push_u8((h & 0xff) as u8);
        self.push_u8((h >> 8u16) as u8);
        assert(self@ == old(self)@ + hex_le16(h));
    }

    /// Append a 32-bit value, least significant byte first
    pub fn push_u32(&mut self, w: u32)
        ensures
            final(self)@ == old(self)@ + hex_le32(w),
    {
        assert((w & 0xffff) as u16 == (w % 0x1_0000) as u16 && (w >> 16u32) as u16 == (w
            / 0x1_0000) as u16) by (bit_vector);
        self.push_u16((w & 0xffff) as u16);
        self.push_u16((w >> 16u32) as u16);
        assert(self@ == old(self)@ + hex_le32(w));
    }

    /// Frame the body into a packet ready to be sent
    pub fn into_packet(self) -> (r: Vec<u8>)
        ensures
            r@ == packet_of(self@),
    {
        let body = self.body;
        let mut packet: Vec<u8> = Vec::new();
        packet.push(0x24);
        let mut csum: u8 = 0;
        let mut i: usize = 0;
        while i < body.len()
            invariant
                0 <= i <= body.len(),
                packet@ == seq![0x24u8] + body@.subrange(0, i as int),
                csum == checksum(body@.subrange(0, i as int)),
            decreases body.len() - i,
        {
            let ghost prefix = body@.subrange(0, i as int);
            let ghost next = body@.subrange(0, i + 1);
            assert(next.drop_last() == prefix);
            assert(byte_sum(next) == byte_sum(prefix) + body@[i as int]);
            packet.push(body[i]);
            csum = csum.wrapping_add(body[i]);
            i = i + 1;
        }
        assert(body@.subrange(0, body.len() as int) == body@);
        packet.push(0x23);
        assert(csum >> 4u8 == csum / 16 && csum & 0xfu8 == csum % 16) by (bit_vector);
        packet.push(to_hex_digit(csum >> 4u8));
        packet.push(to_hex_digit(csum & 0xfu8));
        assert(packet@ == packet_of(body@));
        packet
    }
}

} // verus!
