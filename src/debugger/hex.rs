//! Hexadecimal fields of the remote serial protocol.
use vstd::prelude::*;

verus! {

/// `b` is a lowercase ASCII hexadecimal digit
pub open spec fn is_hex_digit(b: u8) -> bool {
    (0x30 <= b && b <= 0x39) || (0x61 <= b && b <= 0x66)
}

/// Value of the hexadecimal digit `b`
pub open spec fn hex_digit_value(b: u8) -> nat {
    if b <= 0x39 {
        (b - 0x30) as nat
    } else {
        (b - 0x61 + 10) as nat
    }
}

/// Every byte of `s` is a lowercase hexadecimal digit
pub open spec fn is_hex(s: Seq<u8>) -> bool {
    forall|i: int| 0 <= i < s.len() ==> #[trigger] is_hex_digit(s[i])
}

/// Value of the hexadecimal numeral `s`, most significant digit first
pub open spec fn hex_value(s: Seq<u8>) -> nat
    decreases s.len(),
{
    if s.len() == 0 {
        0
    } else {
        hex_value(s.drop_last()) * 16 + hex_digit_value(s.last())
    }
}

/// The numeral `s` read into a 32-bit register: its value modulo 2^32
pub open spec fn hex_u32(s: Seq<u8>) -> u32 {
    (hex_value(s) % 0x1_0000_0000) as u32
}

/// What `parse_hex` returns on `s`
pub open spec fn parse_hex_spec(s: Seq<u8>) -> Result<u32, ()> {
    if is_hex(s) {
        Ok(hex_u32(s))
    } else {
        Err(())
    }
}

/// Lowercase hexadecimal digit of `n < 16`
pub open spec fn hex_digit(n: nat) -> u8
    recommends
        n < 16,
{
    if n < 10 {
        (0x30 + n) as u8
    } else {
        (0x61 + n - 10) as u8
    }
}

/// The byte `b` as two lowercase hexadecimal digits, high digit first
pub open spec fn hex_byte(b: u8) -> Seq<u8> {
    seq![hex_digit((b / 16) as nat), hex_digit((b % 16) as nat)]
}

/// `n` written in lowercase hexadecimal without leading zeros
pub open spec fn hex_lower(n: nat) -> Seq<u8>
    decreases n,
{
    if n < 16 {
        seq![hex_digit(n)]
    } else {
        hex_lower(n / 16).push(hex_digit(n % 16))
    }
}

/// `p` is the position of the first comma of `s`
pub open spec fn is_first_comma(s: Seq<u8>, p: int) -> bool {
    &&& 0 <= p < s.len()
    &&& s[p] == 0x2c
    &&& forall|j: int| 0 <= j < p ==> s[j] != 0x2c
}

/// What `parse_addr_len` returns on `s`: two numerals on both sides of
/// the first comma, neither of them empty
pub open spec fn parse_addr_len_spec(s: Seq<u8>) -> Result<(u32, u32), ()> {
    if exists|p: int| is_first_comma(s, p) {
        let p = choose|p: int| is_first_comma(s, p);
        let addr = s.subrange(0, p);
        let len = s.subrange(p + 1, s.len() as int);
        if p == 0 || p == s.len() - 1 || !is_hex(addr) || !is_hex(len) {
            Err(())
        } else {
            Ok((hex_u32(addr), hex_u32(len)))
        }
    } else {
        Err(())
    }
}

/// Get the value of an integer encoded in single lowercase
/// hexadecimal ASCII digit. Return None if the character is not valid
/// hexadecimal
pub fn ascii_hex(b: u8) -> (r: Option<u8>)
    ensures
        r == (if is_hex_digit(b) {
            Some(hex_digit_value(b) as u8)
        } else {
            None
        }),
{
    if b >= 0x30 && b <= 0x39 {
        Some(b - 0x30)
    } else if b >= 0x61 && b <= 0x66 {
        Some(10 + (b - 0x61))
    } else {
        // Invalid
        None
    }
}

/// The lowercase hexadecimal digit of `n`
pub fn to_hex_digit(n: u8) -> (r: u8)
    requires
        n < 16,
    ensures
        r == hex_digit(n as nat),
        is_hex_digit(r),
{
    if n < 10 {
        0x30 + n
    } else {
        0x61 + (n - 10)
    }
}

proof fn lemma_shift_in_digit(v: u32, d: u32)
    requires
        d < 16,
    ensures
        ((v << 4u32) | d) as nat == (v as nat * 16 + d as nat) % 0x1_0000_0000,
{
    assert(((v << 4u32) | d) == ((v * 16 + d) % 0x1_0000_0000) as u32) by (bit_vector)
        requires
            d < 16,
    ;
}

proof fn lemma_mod_shift_in(h: nat, d: nat)
    ensures
        ((h % 0x1_0000_0000) * 16 + d) % 0x1_0000_0000 == (h * 16 + d) % 0x1_0000_0000,
{
    assert(((h % 0x1_0000_0000) * 16 + d) % 0x1_0000_0000 == (h * 16 + d) % 0x1_0000_0000)
        by (nonlinear_arith);
}

/// Parse a hexadecimal string and return its value modulo 2^32, or
/// an error if a byte is not a lowercase hexadecimal digit. The empty
/// string reads as 0.
pub fn parse_hex(hex: &[u8]) -> (r: Result<u32, ()>)
    ensures
        r == parse_hex_spec(hex@),
{
    let mut v: u32 = 0;
    let mut i: usize = 0;
    while i < hex.len()
        invariant
            0 <= i <= hex.len(),
            is_hex(hex@.subrange(0, i as int)),
            v == hex_u32(hex@.subrange(0, i as int)),
        decreases hex.len() - i,
    {
        let b = hex[i];
        let h = match ascii_hex(b) {
            Some(h) => h,
            None => {
                // Bad hex
                assert(!is_hex_digit(hex@[i as int]));
                return Err(());
            },
        };
        let ghost prefix = hex@.subrange(0, i as int);
        let ghost next = hex@.subrange(0, i + 1);
        assert(next.drop_last() == prefix);
        proof {
            lemma_shift_in_digit(v, h as u32);
            lemma_mod_shift_in(hex_value(prefix), h as nat);
        }
        v = (v << 4u32) | (h as u32);
        i = i + 1;
        assert(is_hex(next)) by {
            assert forall|j: int| 0 <= j < next.len() implies #[trigger] is_hex_digit(next[j]) by {
                if j < i - 1 {
                    assert(next[j] == prefix[j]);
                }
            }
        }
    }
    assert(hex@.subrange(0, hex.len() as int) == hex@);
    Ok(v)
}

/// Parse a string in the format `addr,len` (both as hexadecimal
/// strings) and return the values as a tuple. Fails if there is no
/// comma, if either side of the first comma is empty, or if either
/// side holds a byte that is not a hexadecimal digit.
pub fn parse_addr_len(string: &[u8]) -> (r: Result<(u32, u32), ()>)
    ensures
        r == parse_addr_len_spec(string@),
{
    let s = Ghost(string@);
    // Look for the comma separator
    let mut addr_end: usize = 0;
    while addr_end < string.len() && string[addr_end] != 0x2c
        invariant
            0 <= addr_end <= string.len(),
            forall|j: int| 0 <= j < addr_end ==> string@[j] != 0x2c,
        decreases string.len() - addr_end,
    {
        addr_end = addr_end + 1;
    }
    if addr_end == string.len() {
        // Bad format
        assert(!exists|p: int| is_first_comma(s@, p));
        return Err(());
    }
    assert(is_first_comma(s@, addr_end as int));
    proof {
        let p = choose|p: int| is_first_comma(s@, p);
        assert(p == addr_end) by {
            if p < addr_end {
                assert(string@[p] != 0x2c);
            } else if p > addr_end {
                assert(s@[addr_end as int] != 0x2c);
            }
        }
    }
    if addr_end == 0 || addr_end == string.len() - 1 {
        // No address or length
        return Err(());
    }
    // Parse address
    let addr = match parse_hex(&string[0..addr_end]) {
        Ok(a) => a,
        Err(()) => return Err(()),
    };
    let len = match parse_hex(&string[addr_end + 1..string.len()]) {
        Ok(l) => l,
        Err(()) => return Err(()),
    };
    Ok((addr, len))
}

pub(crate) proof fn lemma_hex_digit_round_trip(n: nat)
    requires
        n < 16,
    ensures
        is_hex_digit(hex_digit(n)),
        hex_digit_value(hex_digit(n)) == n,
{
}

proof fn lemma_hex_lower_value(n: nat)
    ensures
        is_hex(hex_lower(n)),
        hex_value(hex_lower(n)) == n,
    decreases n,
{
    if n < 16 {
        lemma_hex_digit_round_trip(n);
        assert(hex_lower(n).drop_last() == Seq::<u8>::empty());
        assert(hex_value(Seq::<u8>::empty()) == 0);
        assert(hex_lower(n).last() == hex_digit(n));
    } else {
        lemma_hex_lower_value(n / 16);
        lemma_hex_digit_round_trip(n % 16);
        let s = hex_lower(n);
        assert(s.drop_last() == hex_lower(n / 16));
        assert(s.last() == hex_digit(n % 16));
        assert((n / 16) * 16 + n % 16 == n) by (nonlinear_arith);
        assert forall|i: int| 0 <= i < s.len() implies #[trigger] is_hex_digit(s[i]) by {
            if i < s.len() - 1 {
                assert(s[i] == hex_lower(n / 16)[i]);
            }
        }
    }
}

/// Parsing the lowercase hexadecimal form of any 32-bit value gives
/// that value back.
pub proof fn lemma_parse_hex_round_trip(n: u32)
    ensures
        parse_hex_spec(hex_lower(n as nat)) == Ok::<u32, ()>(n),
{
    lemma_hex_lower_value(n as nat);
}

/// Parsing fails on any input that holds a byte which is not a
/// lowercase hexadecimal digit.
pub proof fn lemma_parse_hex_rejects_non_digit(s: Seq<u8>, i: int)
    requires
        0 <= i < s.len(),
        !is_hex_digit(s[i]),
    ensures
        parse_hex_spec(s) == Err::<u32, ()>(()),
{
}

/// An `addr,len` field fails to parse when it is empty, has no comma,
/// or starts or ends with a comma.
pub proof fn lemma_parse_addr_len_rejects(s: Seq<u8>)
    requires
        s.len() == 0 || (forall|j: int| 0 <= j < s.len() ==> s[j] != 0x2c) || s[0] == 0x2c || s.last()
            == 0x2c,
    ensures
        parse_addr_len_spec(s) == Err::<(u32, u32), ()>(()),
{
    if exists|p: int| is_first_comma(s, p) {
        let p = choose|p: int| is_first_comma(s, p);
        if s[0] == 0x2c {
            assert(p == 0) by {
                if p > 0 {
                    assert(s[0] != 0x2c);
                }
            }
        } else if s.last() == 0x2c {
            if p != s.len() - 1 {
                assert(s.subrange(p + 1, s.len() as int).last() == 0x2c);
                assert(!is_hex_digit(s.subrange(p + 1, s.len() as int).last()));
            }
        }
    }
}

} // verus!
