use vstd::prelude::*;

verus! {

/// Size in bytes of every protocol message, request and reply alike.
pub const PACKET_SIZE: usize = 48;

/// The first byte of a client request: leap indicator 0, version 3, mode 3.
pub const CLIENT_FLAGS: u8 = 0x1B;

/// Byte offset of the transmit timestamp's seconds field.
pub const TX_SECONDS_OFFSET: usize = 40;

/// The four big-endian bytes of a 32-bit word.
pub open spec fn be32(x: u32) -> Seq<u8> {
    seq![
        (x / 0x1000000) as u8,
        ((x / 0x10000) % 0x100) as u8,
        ((x / 0x100) % 0x100) as u8,
        (x % 0x100) as u8,
    ]
}

/// The 32-bit word whose big-endian bytes start at `off` in `s`.
pub open spec fn read_be32(s: Seq<u8>, off: int) -> u32 {
    (s[off] as int * 0x1000000 + s[off + 1] as int * 0x10000 + s[off + 2] as int * 0x100
        + s[off + 3] as int) as u32
}

/// The fixed-layout protocol message. Every multi-byte field is big-endian on the wire.
#[derive(Clone, Copy, Debug, PartialEq, Eq, Structural)]
pub struct NtpPacket {
    pub li_vn_mode: u8,
    pub stratum: u8,
    pub poll: u8,
    pub precision: u8,
    pub root_delay: u32,
    pub root_dispersion: u32,
    pub ref_id: u32,
    pub ref_tm_s: u32,
    pub ref_tm_f: u32,
    pub orig_tm_s: u32,
    pub orig_tm_f: u32,
    pub rx_tm_s: u32,
    pub rx_tm_f: u32,
    pub tx_tm_s: u32,
    pub tx_tm_f: u32,
}

impl NtpPacket {
    /// The wire form of a message: its fields, contiguous and in declared order.
    pub open spec fn encoding(self) -> Seq<u8> {
        seq![self.li_vn_mode, self.stratum, self.poll, self.precision] + be32(self.root_delay)
            + be32(self.root_dispersion) + be32(self.ref_id) + be32(self.ref_tm_s) + be32(
            self.ref_tm_f,
        ) + be32(self.orig_tm_s) + be32(self.orig_tm_f) + be32(self.rx_tm_s) + be32(self.rx_tm_f)
            + be32(self.tx_tm_s) + be32(self.tx_tm_f)
    }

    /// The message whose wire form is the first 48 bytes of `s`.
    pub open spec fn decoding(s: Seq<u8>) -> NtpPacket {
        NtpPacket {
            li_vn_mode: s[0],
            stratum: s[1],
            poll: s[2],
            precision: s[3],
            root_delay: read_be32(s, 4),
            root_dispersion: read_be32(s, 8),
            ref_id: read_be32(s, 12),
            ref_tm_s: read_be32(s, 16),
            ref_tm_f: read_be32(s, 20),
            orig_tm_s: read_be32(s, 24),
            orig_tm_f: read_be32(s, 28),
            rx_tm_s: read_be32(s, 32),
            rx_tm_f: read_be32(s, 36),
            tx_tm_s: read_be32(s, 40),
            tx_tm_f: read_be32(s, 44),
        }
    }

    /// A client request: the flags byte set, every other field zero.
    pub open spec fn spec_request() -> NtpPacket {
        NtpPacket {
            li_vn_mode: CLIENT_FLAGS,
            stratum: 0,
            poll: 0,
            precision: 0,
            root_delay: 0,
            root_dispersion: 0,
            ref_id: 0,
            ref_tm_s: 0,
            ref_tm_f: 0,
            orig_tm_s: 0,
            orig_tm_f: 0,
            rx_tm_s: 0,
            rx_tm_f: 0,
            tx_tm_s: 0,
            tx_tm_f: 0,
        }
    }

    /// A fresh client request; its own transmit timestamp is left zero.
    pub fn new() -> (r: NtpPacket)
        ensures
            r == NtpPacket::spec_request(),
    {
        NtpPacket {
            li_vn_mode: CLIENT_FLAGS,
            stratum: 0,
            poll: 0,
            precision: 0,
            root_delay: 0,
            root_dispersion: 0,
            ref_id: 0,
            ref_tm_s: 0,
            ref_tm_f: 0,
            orig_tm_s: 0,
            orig_tm_f: 0,
            rx_tm_s: 0,
            rx_tm_f: 0,
            tx_tm_s: 0,
            tx_tm_f: 0,
        }
    }
}

impl NtpPacket {
    /// Serializes the message field by field, big-endian, with no padding.
    pub fn to_bytes(&self) -> (r: Vec<u8>)
        ensures
            r@ == self.encoding(),
            r@.len() == PACKET_SIZE,
    {
        let mut out: Vec<u8> = Vec::new();
        out.push(self.li_vn_mode);
        out.push(self.stratum);
        out.push(self.poll);
        out.push(self.precision);
        push_be32(&mut out, self.root_delay);
        push_be32(&mut out, self.root_dispersion);
        push_be32(&mut out, self.ref_id);
        push_be32(&mut out, self.ref_tm_s);
        push_be32(&mut out, self.ref_tm_f);
        push_be32(&mut out, self.orig_tm_s);
        push_be32(&mut out, self.orig_tm_f);
        push_be32(&mut out, self.rx_tm_s);
        push_be32(&mut out, self.rx_tm_f);
        push_be32(&mut out, self.tx_tm_s);
        push_be32(&mut out, self.tx_tm_f);
        assert(out@ =~= self.encoding());
        out
    }

    /// Reads a message from the first 48 bytes of `buf`; bytes past them are ignored.
    /// Returns `None` when `buf` is shorter than a message.
    pub fn from_bytes(buf: &[u8]) -> (r: Option<NtpPacket>)
        ensures
            buf@.len() < PACKET_SIZE ==> r is None,
            buf@.len() >= PACKET_SIZE ==> r == Some(NtpPacket::decoding(buf@)),
    {
        if buf.len() < PACKET_SIZE {
            return None;
        }
        Some(
            NtpPacket {
                li_vn_mode: buf[0],
                stratum: buf[1],
                poll: buf[2],
                precision: buf[3],
                root_delay: read_be32_at(buf, 4),
                root_dispersion: read_be32_at(buf, 8),
                ref_id: read_be32_at(buf, 12),
                ref_tm_s: read_be32_at(buf, 16),
                ref_tm_f: read_be32_at(buf, 20),
                orig_tm_s: read_be32_at(buf, 24),
                orig_tm_f: read_be32_at(buf, 28),
                rx_tm_s: read_be32_at(buf, 32),
                rx_tm_f: read_be32_at(buf, 36),
                tx_tm_s: read_be32_at(buf, 40),
                tx_tm_f: read_be32_at(buf, 44),
            },
        )
    }
}

/// The wire form of a client request.
pub fn build_request() -> (r: Vec<u8>)
    ensures
        r@ == NtpPacket::spec_request().encoding(),
        r@.len() == PACKET_SIZE,
        r@[0] == CLIENT_FLAGS,
        forall|i: int| 1 <= i < PACKET_SIZE ==> r@[i] == 0,
{
    let r = NtpPacket::new().to_bytes();
    assert(be32(0) =~= seq![0u8, 0u8, 0u8, 0u8]);
    r
}

/// Reads the big-endian 32-bit word that starts at `off`.
pub fn read_be32_at(buf: &[u8], off: usize) -> (r: u32)
    requires
        off + 4 <= buf@.len(),
    ensures
        r == read_be32(buf@, off as int),
{
    let w = (buf[off] as u32) * 0x1000000 + (buf[off + 1] as u32) * 0x10000 + (buf[off + 2] as u32)
        * 0x100 + (buf[off + 3] as u32);
    w
}

/// Appends the big-endian bytes of `x` to `out`.
fn push_be32(out: &mut Vec<u8>, x: u32)
    ensures
        final(out)@ == old(out)@ + be32(x),
{
    out.push((x / 0x1000000) as u8);
    out.push(((x / 0x10000) % 0x100) as u8);
    out.push(((x / 0x100) % 0x100) as u8);
    out.push((x % 0x100) as u8);
    assert(out@ =~= old(out)@ + be32(x));
}


pub(crate) proof fn lemma_be32_parts(x: u32)
    ensures
        (x / 0x1000000) as int * 0x1000000 + ((x / 0x10000) % 0x100) as int * 0x10000
            + ((x / 0x100) % 0x100) as int * 0x100 + (x % 0x100) as int == x as int,
{
    assert((x / 0x1000000) * 0x1000000 + ((x / 0x10000) % 0x100) * 0x10000 + ((x / 0x100)
        % 0x100) * 0x100 + (x % 0x100) == x) by (bit_vector);
}

proof fn lemma_bytes_parts(b0: u8, b1: u8, b2: u8, b3: u8)
    ensures
        ({
            let x = (b0 as int * 0x1000000 + b1 as int * 0x10000 + b2 as int * 0x100
                + b3 as int) as u32;
            &&& (x / 0x1000000) as u8 == b0
            &&& ((x / 0x10000) % 0x100) as u8 == b1
            &&& ((x / 0x100) % 0x100) as u8 == b2
            &&& (x % 0x100) as u8 == b3
        }),
{
    let x: u32 = ((b0 as u32) << 24u32) | ((b1 as u32) << 16u32) | ((b2 as u32) << 8u32) | (b3 as u32);
    assert(x == (b0 as u32) * 0x1000000 + (b1 as u32) * 0x10000 + (b2 as u32) * 0x100 + (b3 as u32)) by (bit_vector)
        requires x == ((b0 as u32) << 24u32) | ((b1 as u32) << 16u32) | ((b2 as u32) << 8u32) | (b3 as u32);
    assert((x / 0x1000000) as u8 == b0 && ((x / 0x10000) % 0x100) as u8 == b1
        && ((x / 0x100) % 0x100) as u8 == b2 && (x % 0x100) as u8 == b3) by (bit_vector)
        requires x == ((b0 as u32) << 24u32) | ((b1 as u32) << 16u32) | ((b2 as u32) << 8u32) | (b3 as u32);
}

/// Decoding the wire form of a message gives back that message.
pub proof fn lemma_decode_encode(p: NtpPacket)
    ensures
        NtpPacket::decoding(p.encoding()) == p,
{
    let e = p.encoding();
    assert forall|x: u32, off: int|
        0 <= off && off + 4 <= e.len() && e.subrange(off, off + 4) == be32(x) implies read_be32(
        e,
        off,
    ) == x by {
        assert(e[off] == be32(x)[0] && e[off + 1] == be32(x)[1] && e[off + 2] == be32(x)[2]
            && e[off + 3] == be32(x)[3]);
        lemma_be32_parts(x);
    }
    assert(e.subrange(4, 8) =~= be32(p.root_delay));
    assert(e.subrange(8, 12) =~= be32(p.root_dispersion));
    assert(e.subrange(12, 16) =~= be32(p.ref_id));
    assert(e.subrange(16, 20) =~= be32(p.ref_tm_s));
    assert(e.subrange(20, 24) =~= be32(p.ref_tm_f));
    assert(e.subrange(24, 28) =~= be32(p.orig_tm_s));
    assert(e.subrange(28, 32) =~= be32(p.orig_tm_f));
    assert(e.subrange(32, 36) =~= be32(p.rx_tm_s));
    assert(e.subrange(36, 40) =~= be32(p.rx_tm_f));
    assert(e.subrange(40, 44) =~= be32(p.tx_tm_s));
    assert(e.subrange(44, 48) =~= be32(p.tx_tm_f));
}

/// Encoding the message read from a buffer reproduces the buffer's first 48 bytes.
proof fn lemma_word_bytes(s: Seq<u8>, off: int)
    requires
        0 <= off,
        off + 4 <= s.len(),
    ensures
        be32(read_be32(s, off)) == s.subrange(off, off + 4),
{
    lemma_bytes_parts(s[off], s[off + 1], s[off + 2], s[off + 3]);
    assert(be32(read_be32(s, off)) =~= s.subrange(off, off + 4));
}

proof fn lemma_subrange_join(s: Seq<u8>, a: int, b: int)
    requires
        0 <= a <= b <= s.len(),
    ensures
        s.subrange(0, a) + s.subrange(a, b) == s.subrange(0, b),
{
    assert(s.subrange(0, a) + s.subrange(a, b) =~= s.subrange(0, b));
}

/// Encoding the message read from a buffer reproduces the buffer's first 48 bytes.
pub proof fn lemma_encode_decode(s: Seq<u8>)
    requires
        s.len() >= PACKET_SIZE,
    ensures
        NtpPacket::decoding(s).encoding() == s.subrange(0, PACKET_SIZE as int),
{
    let p = NtpPacket::decoding(s);
    assert(seq![p.li_vn_mode, p.stratum, p.poll, p.precision] =~= s.subrange(0, 4));
    lemma_word_bytes(s, 4);
    lemma_word_bytes(s, 8);
    lemma_word_bytes(s, 12);
    lemma_word_bytes(s, 16);
    lemma_word_bytes(s, 20);
    lemma_word_bytes(s, 24);
    lemma_word_bytes(s, 28);
    lemma_word_bytes(s, 32);
    lemma_word_bytes(s, 36);
    lemma_word_bytes(s, 40);
    lemma_word_bytes(s, 44);
    lemma_subrange_join(s, 4, 8);
    lemma_subrange_join(s, 8, 12);
    lemma_subrange_join(s, 12, 16);
    lemma_subrange_join(s, 16, 20);
    lemma_subrange_join(s, 20, 24);
    lemma_subrange_join(s, 24, 28);
    lemma_subrange_join(s, 28, 32);
    lemma_subrange_join(s, 32, 36);
    lemma_subrange_join(s, 36, 40);
    lemma_subrange_join(s, 40, 44);
    lemma_subrange_join(s, 44, 48);
}

} // verus!
