//! Bit-granular reading and writing over byte buffers.
//!
//! A buffer is seen as a stream of bits: bit `8 * j + k` is bit `k` of byte
//! `j`, counted from the least significant bit. Beyond the end of the buffer
//! every bit reads as zero. Multi-bit values are little-endian: the first bit
//! on the stream is the least significant bit of the value.

use vstd::prelude::*;
use vstd::arithmetic::power2::{pow2, lemma2_to64, lemma_pow2_unfold, lemma_pow2_pos};

verus! {

/// Byte `j` of the buffer, zero beyond its end.
pub open spec fn byte_at(data: Seq<u8>, j: int) -> u8 {
    if 0 <= j < data.len() {
        data[j]
    } else {
        0
    }
}

/// Bit `i` of the stream (0 or 1).
pub open spec fn stream_bit(data: Seq<u8>, i: int) -> nat {
    (byte_at(data, i / 8) as nat / pow2((i % 8) as nat)) % 2
}

/// The unsigned value of the `n` bits that start at bit `at`.
pub open spec fn bits_value(data: Seq<u8>, at: int, n: nat) -> nat
    decreases n,
{
    if n == 0 {
        0
    } else {
        bits_value(data, at, (n - 1) as nat) + stream_bit(data, at + n - 1) * pow2((n - 1) as nat)
    }
}

/// An `n`-bit pattern read as a two's complement number.
pub open spec fn signed_value(v: nat, n: nat) -> int {
    if n > 0 && v >= pow2((n - 1) as nat) {
        v - pow2(n)
    } else {
        v as int
    }
}

/// The little-endian 16-bit number at byte `j`.
pub open spec fn le16_at(data: Seq<u8>, j: int) -> nat {
    byte_at(data, j) as nat + 256 * (byte_at(data, j + 1) as nat)
}

/// The little-endian 32-bit number at byte `j`.
pub open spec fn le32_at(data: Seq<u8>, j: int) -> nat {
    byte_at(data, j) as nat + 256 * (byte_at(data, j + 1) as nat) + 65536 * (byte_at(
        data,
        j + 2,
    ) as nat) + 16777216 * (byte_at(data, j + 3) as nat)
}

/// The first byte boundary at or after bit `c`.
pub open spec fn align_up(c: int) -> int {
    ((c + 7) / 8) * 8
}

/// The `n` bytes that start at byte `j`.
pub open spec fn bytes_at(data: Seq<u8>, j: int, n: nat) -> Seq<u8> {
    Seq::new(n, |i: int| byte_at(data, j + i))
}

/// An `n`-bit value is below `2^n`.
pub proof fn lemma_bits_value_bound(data: Seq<u8>, at: int, n: nat)
    ensures
        bits_value(data, at, n) < pow2(n),
    decreases n,
{
    if n == 0 {
        lemma2_to64();
    } else {
        let m = (n - 1) as nat;
        lemma_bits_value_bound(data, at, m);
        lemma_pow2_unfold(n);
        let b = stream_bit(data, at + n - 1);
        if b == 0 {
            assert(b * pow2(m) == 0);
        } else {
            assert(b == 1);
            assert(b * pow2(m) == pow2(m));
        }
    }
}

/// `2^n` as a machine number.
pub fn pow2_u64(n: u8) -> (r: u64)
    requires
        n <= 63,
    ensures
        r == pow2(n as nat),
{
    let mut r: u64 = 1;
    let mut k: u8 = 0;
    proof {
        lemma2_to64();
    }
    while k < n
        invariant
            k <= n <= 63,
            r == pow2(k as nat),
        decreases n - k,
    {
        proof {
            lemma_pow2_unfold((k + 1) as nat);
            vstd::arithmetic::power2::lemma_pow2_strictly_increases((k + 1) as nat, 64);
            lemma2_to64();
        }
        r = r * 2;
        k = k + 1;
    }
    r
}

/// A cursor over a received datagram.
///
/// The reader never fails: past the end of the buffer it yields zero bits
/// and keeps counting its position.
pub struct HQMMessageReader<'a> {
    buf: &'a [u8],
    pos: usize,
    bit_pos: u8,
    weight: u8,
    cursor: Ghost<int>,
}

impl<'a> HQMMessageReader<'a> {
    /// The bytes being read.
    pub closed spec fn data(&self) -> Seq<u8> {
        self.buf@
    }

    /// The position of the next bit, counted from the start of the buffer.
    pub closed spec fn cursor(&self) -> int {
        self.cursor@
    }

    /// The reader's internal bookkeeping agrees with its position.
    pub closed spec fn wf(&self) -> bool {
        &&& self.pos <= self.buf@.len()
        &&& self.bit_pos < 8
        &&& self.weight as nat == pow2(self.bit_pos as nat)
        &&& (self.pos == self.buf@.len() ==> self.bit_pos == 0)
        &&& self.cursor@ >= 0
        &&& (self.pos < self.buf@.len() ==> self.cursor@ == 8 * self.pos + self.bit_pos)
        &&& (self.pos == self.buf@.len() ==> self.cursor@ >= 8 * self.pos)
    }

    /// A reader at the first bit of `buf`.
    pub fn new(buf: &'a [u8]) -> (r: Self)
        ensures
            r.wf(),
            r.data() == buf@,
            r.cursor() == 0,
    {
        proof {
            lemma2_to64();
        }
        HQMMessageReader { buf, pos: 0, bit_pos: 0, weight: 1, cursor: Ghost(0) }
    }

    /// Reads one bit.
    pub fn read_bit(&mut self) -> (b: u8)
        requires
            old(self).wf(),
        ensures
            final(self).wf(),
            final(self).data() == old(self).data(),
            final(self).cursor() == old(self).cursor() + 1,
            b as nat == stream_bit(old(self).data(), old(self).cursor()),
            b <= 1,
    {
        proof {
            lemma2_to64();
        }
        let mut b: u8 = 0;
        if self.pos < self.buf.len() {
            let byte: u8 = self.buf[self.pos];
            b = (byte / self.weight) % 2;
            assert(self.cursor@ / 8 == self.pos as int);
            assert(self.cursor@ % 8 == self.bit_pos as int);
            if self.bit_pos == 7 {
                self.pos = self.pos + 1;
                self.bit_pos = 0;
                self.weight = 1;
            } else {
                proof {
                    lemma_pow2_unfold((self.bit_pos + 1) as nat);
                }
                self.bit_pos = self.bit_pos + 1;
                self.weight = self.weight * 2;
            }
        } else {
            assert(self.cursor@ / 8 >= self.buf@.len());
            assert(byte_at(self.buf@, self.cursor@ / 8) == 0);
            proof {
                lemma_pow2_pos((self.cursor@ % 8) as nat);
            }
        }
        self.cursor = Ghost(self.cursor@ + 1);
        b
    }

    /// Reads `n` bits as an unsigned number, least significant bit first.
    pub fn read_bits(&mut self, n: u8) -> (r: u32)
        requires
            old(self).wf(),
            n <= 32,
        ensures
            final(self).wf(),
            final(self).data() == old(self).data(),
            final(self).cursor() == old(self).cursor() + n,
            r as nat == bits_value(old(self).data(), old(self).cursor(), n as nat),
    {
        let mut acc: u64 = 0;
        let mut w: u64 = 1;
        let mut k: u8 = 0;
        proof {
            lemma2_to64();
        }
        while k < n
            invariant
                k <= n <= 32,
                self.wf(),
                self.data() == old(self).data(),
                self.cursor() == old(self).cursor() + k,
                w as nat == pow2(k as nat),
                w <= 0x1_0000_0000,
                acc as nat == bits_value(old(self).data(), old(self).cursor(), k as nat),
                acc < w,
            decreases n - k,
        {
            let b: u8 = self.read_bit();
            proof {
                lemma_pow2_unfold((k + 1) as nat);
                lemma2_to64();
                vstd::arithmetic::power2::lemma_pow2_strictly_increases((k + 1) as nat, 33);
                vstd::arithmetic::power2::lemma_pow2_unfold(33);
                if b == 0 {
                    assert((b as nat) * pow2(k as nat) == 0) by (nonlinear_arith)
                        requires
                            b == 0,
                    ;
                } else {
                    assert((b as nat) * pow2(k as nat) == pow2(k as nat)) by (nonlinear_arith)
                        requires
                            b == 1,
                    ;
                }
            }
            if b == 1 {
                acc = acc + w;
            }
            w = w * 2;
            k = k + 1;
        }
        acc as u32
    }

    /// Reads `n` bits as a two's complement number.
    pub fn read_bits_signed(&mut self, n: u8) -> (r: i32)
        requires
            old(self).wf(),
            1 <= n <= 31,
        ensures
            final(self).wf(),
            final(self).data() == old(self).data(),
            final(self).cursor() == old(self).cursor() + n,
            r as int == signed_value(
                bits_value(old(self).data(), old(self).cursor(), n as nat),
                n as nat,
            ),
    {
        let v: u32 = self.read_bits(n);
        let half: u64 = pow2_u64(n - 1);
        proof {
            lemma_pow2_unfold(n as nat);
            lemma_bits_value_bound(old(self).data(), old(self).cursor(), n as nat);
            vstd::arithmetic::power2::lemma_pow2_strictly_increases(n as nat, 32);
            lemma2_to64();
        }
        if v as u64 >= half {
            (v as i64 - 2 * (half as i64)) as i32
        } else {
            v as i32
        }
    }

    /// Skips to the next byte boundary, if not already on one.
    pub fn align(&mut self)
        requires
            old(self).wf(),
        ensures
            final(self).wf(),
            final(self).data() == old(self).data(),
            final(self).cursor() == align_up(old(self).cursor()),
    {
        let len: usize = self.buf.len();
        if self.bit_pos > 0 && self.pos < len {
            self.pos = self.pos + 1;
            self.bit_pos = 0;
            self.weight = 1;
        }
        proof {
            lemma2_to64();
        }
        self.cursor = Ghost(align_up(self.cursor@));
    }

    /// Skips to the next byte boundary and reads one byte.
    pub fn read_byte_aligned(&mut self) -> (r: u8)
        requires
            old(self).wf(),
        ensures
            final(self).wf(),
            final(self).data() == old(self).data(),
            final(self).cursor() == align_up(old(self).cursor()) + 8,
            r == byte_at(old(self).data(), align_up(old(self).cursor()) / 8),
    {
        self.align();
        let mut r: u8 = 0;
        if self.pos < self.buf.len() {
            r = self.buf[self.pos];
            self.pos = self.pos + 1;
        }
        self.cursor = Ghost(self.cursor@ + 8);
        r
    }

    /// Skips to the next byte boundary and reads `n` bytes.
    pub fn read_bytes_aligned(&mut self, n: usize) -> (r: Vec<u8>)
        requires
            old(self).wf(),
        ensures
            final(self).wf(),
            final(self).data() == old(self).data(),
            final(self).cursor() == align_up(old(self).cursor()) + 8 * n,
            r@ == bytes_at(old(self).data(), align_up(old(self).cursor()) / 8, n as nat),
    {
        self.align();
        let ghost start: int = self.cursor@ / 8;
        let mut r: Vec<u8> = Vec::new();
        let mut i: usize = 0;
        while i < n
            invariant
                i <= n,
                self.wf(),
                self.data() == old(self).data(),
                self.cursor() == 8 * start + 8 * i,
                r@ == bytes_at(self.data(), start, i as nat),
            decreases n - i,
        {
            let b: u8 = self.read_byte_aligned();
            r.push(b);
            i = i + 1;
            assert(r@ =~= bytes_at(self.data(), start, i as nat));
        }
        r
    }

    /// Skips to the next byte boundary and reads a little-endian 16-bit number.
    pub fn read_u16_aligned(&mut self) -> (r: u16)
        requires
            old(self).wf(),
        ensures
            final(self).wf(),
            final(self).data() == old(self).data(),
            final(self).cursor() == align_up(old(self).cursor()) + 16,
            r as nat == le16_at(old(self).data(), align_up(old(self).cursor()) / 8),
    {
        let b0: u8 = self.read_byte_aligned();
        let b1: u8 = self.read_byte_aligned();
        b0 as u16 + 256 * (b1 as u16)
    }

    /// Skips to the next byte boundary and reads a little-endian 32-bit number.
    pub fn read_u32_aligned(&mut self) -> (r: u32)
        requires
            old(self).wf(),
        ensures
            final(self).wf(),
            final(self).data() == old(self).data(),
            final(self).cursor() == align_up(old(self).cursor()) + 32,
            r as nat == le32_at(old(self).data(), align_up(old(self).cursor()) / 8),
    {
        let b0: u8 = self.read_byte_aligned();
        let b1: u8 = self.read_byte_aligned();
        let b2: u8 = self.read_byte_aligned();
        let b3: u8 = self.read_byte_aligned();
        b0 as u32 + 256 * (b1 as u32) + 65536 * (b2 as u32) + 16777216 * (b3 as u32)
    }

    /// Reads one quantized field of the given full width: a 2-bit tag, then
    /// either a short difference to `previous` or the full value.
    pub fn read_pos(&mut self, width: u8, previous: Option<u32>) -> (r: u32)
        requires
            old(self).wf(),
            1 <= width <= 32,
        ensures
            final(self).wf(),
            final(self).data() == old(self).data(),
            final(self).cursor() == pos_end(old(self).data(), old(self).cursor(), width as nat),
            r == pos_value(old(self).data(), old(self).cursor(), width as nat, previous),
    {
        let tag: u32 = self.read_bits(2);
        let bits: u8 = if tag == 0 {
            3
        } else if tag == 1 {
            6
        } else if tag == 2 {
            12
        } else {
            width
        };
        proof {
            lemma_bits_value_bound(old(self).data(), old(self).cursor() + 2, bits as nat);
            vstd::arithmetic::power2::lemma_pow2_strictly_increases(bits as nat, 33);
            vstd::arithmetic::power2::lemma_pow2_unfold(33);
            lemma2_to64();
        }
        if tag < 3 {
            match previous {
                Some(base) => {
                    let diff: i32 = self.read_bits_signed(bits);
                    let sum: i64 = base as i64 + diff as i64;
                    if sum < 0 {
                        0
                    } else if sum > 0xffff_ffff {
                        0xffff_ffff
                    } else {
                        sum as u32
                    }
                },
                None => self.read_bits(bits),
            }
        } else {
            self.read_bits(bits)
        }
    }
}

/// How many payload bits follow the 2-bit tag of a quantized field: tags 0,
/// 1 and 2 announce a short payload, tag 3 the field's full width.
pub open spec fn pos_payload_bits(tag: nat, width: nat) -> nat {
    if tag == 0 {
        3
    } else if tag == 1 {
        6
    } else if tag == 2 {
        12
    } else {
        width
    }
}

/// The tag of the quantized field at bit `at`.
pub open spec fn pos_tag(data: Seq<u8>, at: int) -> nat {
    bits_value(data, at, 2)
}

/// The payload of the quantized field at bit `at`, as an unsigned number.
pub open spec fn pos_payload(data: Seq<u8>, at: int, width: nat) -> nat {
    bits_value(data, at + 2, pos_payload_bits(pos_tag(data, at), width))
}

/// The first bit after the quantized field at bit `at`.
pub open spec fn pos_end(data: Seq<u8>, at: int, width: nat) -> int {
    at + 2 + pos_payload_bits(pos_tag(data, at), width)
}

/// `v` limited to the range of a `u32`.
pub open spec fn clamp_u32(v: int) -> u32 {
    if v < 0 {
        0
    } else if v > u32::MAX {
        u32::MAX
    } else {
        v as u32
    }
}

/// The value of the quantized field at bit `at`.
///
/// With tag 3, or without a previous value, the payload is the value.
/// Otherwise the payload is a signed difference to the previous value, and
/// the sum is kept within the range of a `u32`.
pub open spec fn pos_value(data: Seq<u8>, at: int, width: nat, previous: Option<u32>) -> u32 {
    let tag = pos_tag(data, at);
    let payload = pos_payload(data, at, width);
    if tag < 3 && previous is Some {
        clamp_u32(previous->0 + signed_value(payload, pos_payload_bits(tag, width)))
    } else {
        payload as u32
    }
}

/// Without a previous value a quantized field is its payload, whatever its
/// tag.
pub proof fn lemma_field_without_previous(data: Seq<u8>, at: int, width: nat)
    ensures
        pos_value(data, at, width, None) == pos_payload(data, at, width) as u32,
{
}

/// What a bit writer has produced: the completed bytes, and the bits of the
/// byte under construction (`used` of them, with value `acc`).
pub struct BitSink {
    pub bytes: Seq<u8>,
    pub acc: nat,
    pub used: nat,
}

/// Nothing written yet.
pub open spec fn sink_empty() -> BitSink {
    BitSink { bytes: Seq::empty(), acc: 0, used: 0 }
}

/// Appends one bit (`b` is 0 or 1).
pub open spec fn put_bit(s: BitSink, b: nat) -> BitSink {
    let acc = s.acc + b * pow2(s.used);
    if s.used >= 7 {
        BitSink { bytes: s.bytes.push(acc as u8), acc: 0, used: 0 }
    } else {
        BitSink { bytes: s.bytes, acc, used: s.used + 1 }
    }
}

/// Appends the low `n` bits of `v`, least significant bit first.
pub open spec fn put_bits(s: BitSink, n: nat, v: nat) -> BitSink
    decreases n,
{
    if n == 0 {
        s
    } else {
        put_bits(put_bit(s, v % 2), (n - 1) as nat, v / 2)
    }
}

/// The bytes produced so far; a byte under construction counts, its unused
/// high bits zero.
pub open spec fn sink_output(s: BitSink) -> Seq<u8> {
    if s.used == 0 {
        s.bytes
    } else {
        s.bytes.push(s.acc as u8)
    }
}

/// Closes the byte under construction, if any, and appends whole bytes.
pub open spec fn put_aligned(s: BitSink, bytes: Seq<u8>) -> BitSink {
    BitSink { bytes: sink_output(s) + bytes, acc: 0, used: 0 }
}

/// The two bytes of a little-endian 16-bit number.
pub open spec fn le16_bytes(v: nat) -> Seq<u8> {
    seq![(v % 256) as u8, ((v / 256) % 256) as u8]
}

/// The four bytes of a little-endian 32-bit number.
pub open spec fn le32_bytes(v: nat) -> Seq<u8> {
    seq![
        (v % 256) as u8,
        ((v / 256) % 256) as u8,
        ((v / 65536) % 256) as u8,
        ((v / 16777216) % 256) as u8,
    ]
}

/// A growing datagram that accepts single bits as well as whole bytes.
pub struct HQMMessageWriter {
    buf: Vec<u8>,
    acc: u8,
    bit_pos: u8,
    weight: u8,
}

impl View for HQMMessageWriter {
    type V = BitSink;

    closed spec fn view(&self) -> BitSink {
        BitSink { bytes: self.buf@, acc: self.acc as nat, used: self.bit_pos as nat }
    }
}

impl HQMMessageWriter {
    /// The writer's internal bookkeeping is consistent.
    pub closed spec fn wf(&self) -> bool {
        &&& self.bit_pos < 8
        &&& self.weight as nat == pow2(self.bit_pos as nat)
        &&& self.acc < self.weight
    }

    /// An empty writer.
    pub fn new() -> (w: Self)
        ensures
            w.wf(),
            w@ == sink_empty(),
    {
        proof {
            lemma2_to64();
        }
        HQMMessageWriter { buf: Vec::new(), acc: 0, bit_pos: 0, weight: 1 }
    }

    /// Appends one bit.
    pub fn write_bit(&mut self, b: u8)
        requires
            old(self).wf(),
            b <= 1,
        ensures
            final(self).wf(),
            final(self)@ == put_bit(old(self)@, b as nat),
    {
        proof {
            lemma2_to64();
            if b == 0 {
                assert((b as nat) * pow2(self.bit_pos as nat) == 0) by (nonlinear_arith)
                    requires
                        b == 0,
                ;
            } else {
                assert((b as nat) * pow2(self.bit_pos as nat) == pow2(self.bit_pos as nat))
                    by (nonlinear_arith)
                    requires
                        b == 1,
                ;
            }
        }
        let mut acc: u8 = self.acc;
        if b == 1 {
            acc = acc + self.weight;
        }
        if self.bit_pos == 7 {
            self.buf.push(acc);
            self.acc = 0;
            self.bit_pos = 0;
            self.weight = 1;
        } else {
            proof {
                lemma_pow2_unfold((self.bit_pos + 1) as nat);
            }
            self.acc = acc;
            self.bit_pos = self.bit_pos + 1;
            self.weight = self.weight * 2;
        }
    }

    /// Appends the low `n` bits of `v`, least significant bit first.
    pub fn write_bits(&mut self, n: u8, v: u32)
        requires
            old(self).wf(),
            n <= 32,
        ensures
            final(self).wf(),
            final(self)@ == put_bits(old(self)@, n as nat, v as nat),
    {
        let mut rest: u32 = v;
        let mut k: u8 = 0;
        while k < n
            invariant
                k <= n,
                self.wf(),
                put_bits(self@, (n - k) as nat, rest as nat) == put_bits(
                    old(self)@,
                    n as nat,
                    v as nat,
                ),
            decreases n - k,
        {
            let b: u8 = (rest % 2) as u8;
            self.write_bit(b);
            rest = rest / 2;
            k = k + 1;
        }
    }

    /// Pads with zero bits up to the next byte boundary.
    pub fn align(&mut self)
        requires
            old(self).wf(),
        ensures
            final(self).wf(),
            final(self)@ == put_aligned(old(self)@, Seq::empty()),
    {
        proof {
            lemma2_to64();
        }
        if self.bit_pos > 0 {
            self.buf.push(self.acc);
            self.acc = 0;
            self.bit_pos = 0;
            self.weight = 1;
        }
        assert(self@.bytes =~= sink_output(old(self)@) + Seq::<u8>::empty());
    }

    /// Pads to a byte boundary and appends one byte.
    pub fn write_byte_aligned(&mut self, v: u8)
        requires
            old(self).wf(),
        ensures
            final(self).wf(),
            final(self)@ == put_aligned(old(self)@, seq![v]),
    {
        self.align();
        self.buf.push(v);
        assert(self@.bytes =~= sink_output(old(self)@) + seq![v]);
    }

    /// Pads to a byte boundary and appends the bytes of `v`.
    pub fn write_bytes_aligned(&mut self, v: &[u8])
        requires
            old(self).wf(),
        ensures
            final(self).wf(),
            final(self)@ == put_aligned(old(self)@, v@),
    {
        self.align();
        let mut i: usize = 0;
        while i < v.len()
            invariant
                i <= v@.len(),
                self.wf(),
                self@ == put_aligned(old(self)@, v@.take(i as int)),
            decreases v@.len() - i,
        {
            self.write_byte_aligned(v[i]);
            i = i + 1;
            assert(self@.bytes =~= sink_output(old(self)@) + v@.take(i as int));
        }
        assert(v@.take(i as int) =~= v@);
    }

    /// Pads to a byte boundary and appends a little-endian 16-bit number.
    pub fn write_u16_aligned(&mut self, v: u16)
        requires
            old(self).wf(),
        ensures
            final(self).wf(),
            final(self)@ == put_aligned(old(self)@, le16_bytes(v as nat)),
    {
        self.write_byte_aligned((v % 256) as u8);
        self.write_byte_aligned(((v / 256) % 256) as u8);
        assert(self@.bytes =~= sink_output(old(self)@) + le16_bytes(v as nat));
    }

    /// Pads to a byte boundary and appends a little-endian 32-bit number.
    pub fn write_u32_aligned(&mut self, v: u32)
        requires
            old(self).wf(),
        ensures
            final(self).wf(),
            final(self)@ == put_aligned(old(self)@, le32_bytes(v as nat)),
    {
        self.write_byte_aligned((v % 256) as u8);
        self.write_byte_aligned(((v / 256) % 256) as u8);
        self.write_byte_aligned(((v / 65536) % 256) as u8);
        self.write_byte_aligned(((v / 16777216) % 256) as u8);
        assert(self@.bytes =~= sink_output(old(self)@) + le32_bytes(v as nat));
    }

    /// The datagram written so far; a byte under construction is included.
    pub fn into_bytes(self) -> (r: Vec<u8>)
        requires
            self.wf(),
        ensures
            r@ == sink_output(self@),
    {
        let mut buf: Vec<u8> = self.buf;
        if self.bit_pos > 0 {
            buf.push(self.acc);
        }
        buf
    }
}

} // verus!
