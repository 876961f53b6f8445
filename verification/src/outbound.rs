//! The two datagrams a client sends: the join request and the per-tick
//! update.

use vstd::prelude::*;
use vstd::arithmetic::power2::{lemma2_to64, pow2};
use vstd::utf8::encode_utf8;
use crate::codec::{
    BitSink, HQMMessageWriter, le16_bytes, le32_bytes, put_aligned, put_bit, put_bits, sink_empty,
    sink_output,
};
use crate::game::HQMPlayerInput;

verus! {

/// The length of the name field of a join request.
pub const NAME_FIELD: usize = 32;

/// The longest chat text, in bytes, that an update carries.
pub const CHAT_LIMIT: usize = 255;

/// The four bytes that open every datagram: the letters `Hock`.
pub open spec fn magic() -> Seq<u8> {
    seq![0x48u8, 0x6fu8, 0x63u8, 0x6bu8]
}

/// A name cut to `NAME_FIELD` bytes and filled up with NUL bytes.
pub open spec fn padded_name(name: Seq<u8>) -> Seq<u8> {
    Seq::new(
        NAME_FIELD as nat,
        |i: int|
            if i < name.len() {
                name[i]
            } else {
                0u8
            },
    )
}

/// The join request: magic, command 2, protocol version 55, the name field.
pub open spec fn join_datagram(name: Seq<char>) -> Seq<u8> {
    magic() + seq![2u8, 55u8] + padded_name(encode_utf8(name))
}

/// The flags of an input as one number: jump 1, crouch 2, join red 4, join
/// blue 8, shift-rotate 16, spectate 32.
pub open spec fn flag_mask(input: HQMPlayerInput) -> nat {
    (if input.jump { 1nat } else { 0 })
    + (if input.crouch { 2nat } else { 0 })
    + (if input.join_red { 4nat } else { 0 })
    + (if input.join_blue { 8nat } else { 0 })
    + (if input.shift_rotate { 16nat } else { 0 })
    + (if input.spectate { 32nat } else { 0 })
}

/// The chat text as sent: at most `CHAT_LIMIT` bytes of it.
pub open spec fn chat_payload(text: Seq<u8>) -> Seq<u8> {
    if text.len() > CHAT_LIMIT {
        text.take(CHAT_LIMIT as int)
    } else {
        text
    }
}

/// The end of an update. Without chat, a single zero bit, which fills a byte
/// by itself. With chat: a one bit, the 3-bit sequence number, the 8-bit
/// length, zero bits up to the byte boundary, and the text.
pub open spec fn chat_section(rep: nat, chat: Option<Seq<u8>>) -> Seq<u8> {
    match chat {
        None => seq![0u8],
        Some(text) => {
            let n = chat_payload(text).len();
            seq![(1 + 2 * (rep % 8) + 16 * (n % 16)) as u8, (n / 16) as u8] + chat_payload(text)
        },
    }
}

/// Everything of an update before its chat section: magic, command 4, the
/// game id, the eight analogue channels, the flags, and the two
/// acknowledgements.
pub open spec fn update_head(
    game: u32,
    input: HQMPlayerInput,
    known_packet: u32,
    known_msgpos: u16,
) -> Seq<u8> {
    magic() + seq![4u8] + le32_bytes(game as nat) + le32_bytes(input.stick_angle as nat)
        + le32_bytes(input.turn as nat) + le32_bytes(input.unknown as nat) + le32_bytes(
        input.fwbw as nat,
    ) + le32_bytes(input.stick.0 as nat) + le32_bytes(input.stick.1 as nat) + le32_bytes(
        input.head_rot as nat,
    ) + le32_bytes(input.body_rot as nat) + le32_bytes(flag_mask(input)) + le32_bytes(
        known_packet as nat,
    ) + le16_bytes(known_msgpos as nat)
}

/// The per-tick update datagram.
pub open spec fn update_datagram(
    game: u32,
    input: HQMPlayerInput,
    known_packet: u32,
    known_msgpos: u16,
    rep: nat,
    chat: Option<Seq<u8>>,
) -> Seq<u8> {
    update_head(game, input, known_packet, known_msgpos) + chat_section(rep, chat)
}

/// A chat text as the bytes of its UTF-8 encoding.
pub open spec fn chat_bytes(chat: Option<String>) -> Option<Seq<u8>> {
    match chat {
        Some(text) => Some(encode_utf8(text@)),
        None => None,
    }
}

/// One bit appended, with the weight of its place written out.
proof fn lemma_put_bit(s: BitSink, b: nat, w: nat)
    requires
        s.used < 8,
        w == pow2(s.used),
        b <= 1,
    ensures
        s.used == 7 ==> put_bit(s, b) == (BitSink {
            bytes: s.bytes.push((s.acc + (if b == 1 { w } else { 0 })) as u8),
            acc: 0,
            used: 0,
        }),
        s.used < 7 ==> put_bit(s, b) == (BitSink {
            bytes: s.bytes,
            acc: s.acc + (if b == 1 { w } else { 0 }),
            used: s.used + 1,
        }),
{
    if b == 1 {
        assert(b * pow2(s.used) == w) by (nonlinear_arith)
            requires
                b == 1,
                w == pow2(s.used),
        ;
    } else {
        assert(b * pow2(s.used) == 0) by (nonlinear_arith)
            requires
                b == 0,
        ;
    }
}

/// Writing a one bit, three bits of `rep` and eight bits of `n` from a byte
/// boundary completes one byte and leaves the high four bits of `n` pending.
pub proof fn lemma_chat_header(s: BitSink, rep: nat, n: nat)
    requires
        s.used == 0,
        s.acc == 0,
        n < 256,
    ensures
        put_bits(put_bits(put_bits(s, 1, 1), 3, rep), 8, n) == (BitSink {
            bytes: s.bytes.push((1 + 2 * (rep % 8) + 16 * (n % 16)) as u8),
            acc: n / 16,
            used: 4,
        }),
{
    lemma2_to64();
    reveal_with_fuel(put_bits, 9);
    let t1 = put_bit(s, 1);
    lemma_put_bit(s, 1, 1);
    assert(put_bits(s, 1, 1) == t1);
    let r1 = rep / 2;
    let r2 = r1 / 2;
    let t2 = put_bit(t1, rep % 2);
    lemma_put_bit(t1, rep % 2, 2);
    assert(t2.used == 2 && t2.bytes == s.bytes && t2.acc == 1 + 2 * (rep % 2));
    let t3 = put_bit(t2, r1 % 2);
    lemma_put_bit(t2, r1 % 2, 4);
    assert(t3.used == 3 && t3.bytes == s.bytes && t3.acc == 1 + 2 * (rep % 2) + 4 * (r1 % 2));
    let t4 = put_bit(t3, r2 % 2);
    lemma_put_bit(t3, r2 % 2, 8);
    assert(put_bits(t1, 3, rep) == t4);
    assert(t4.used == 4 && t4.bytes == s.bytes && t4.acc == 1 + 2 * (rep % 8));
    let n1 = n / 2;
    let n2 = n1 / 2;
    let n3 = n2 / 2;
    let n4 = n3 / 2;
    let n5 = n4 / 2;
    let n6 = n5 / 2;
    let n7 = n6 / 2;
    let low = n % 2 + 2 * (n1 % 2) + 4 * (n2 % 2) + 8 * (n3 % 2);
    let high = n4 % 2 + 2 * (n5 % 2) + 4 * (n6 % 2) + 8 * (n7 % 2);
    assert(low == n % 16);
    assert(n4 == n / 16);
    assert(high == n / 16);
    let t5 = put_bit(t4, n % 2);
    lemma_put_bit(t4, n % 2, 16);
    assert(t5.used == 5 && t5.bytes == s.bytes && t5.acc == t4.acc + 16 * (n % 2));
    let t6 = put_bit(t5, n1 % 2);
    lemma_put_bit(t5, n1 % 2, 32);
    assert(t6.used == 6 && t6.bytes == s.bytes && t6.acc == t5.acc + 32 * (n1 % 2));
    let t7 = put_bit(t6, n2 % 2);
    lemma_put_bit(t6, n2 % 2, 64);
    assert(t7.used == 7 && t7.bytes == s.bytes && t7.acc == t6.acc + 64 * (n2 % 2));
    let t8 = put_bit(t7, n3 % 2);
    lemma_put_bit(t7, n3 % 2, 128);
    assert(t7.acc + 128 * (n3 % 2) == 1 + 2 * (rep % 8) + 16 * low);
    assert(t8.used == 0 && t8.acc == 0 && t8.bytes == s.bytes.push(
        (1 + 2 * (rep % 8) + 16 * (n % 16)) as u8,
    ));
    let t9 = put_bit(t8, n4 % 2);
    lemma_put_bit(t8, n4 % 2, 1);
    assert(t9.used == 1 && t9.bytes == t8.bytes && t9.acc == n4 % 2);
    let t10 = put_bit(t9, n5 % 2);
    lemma_put_bit(t9, n5 % 2, 2);
    assert(t10.used == 2 && t10.bytes == t8.bytes && t10.acc == t9.acc + 2 * (n5 % 2));
    let t11 = put_bit(t10, n6 % 2);
    lemma_put_bit(t10, n6 % 2, 4);
    assert(t11.used == 3 && t11.bytes == t8.bytes && t11.acc == t10.acc + 4 * (n6 % 2));
    let t12 = put_bit(t11, n7 % 2);
    lemma_put_bit(t11, n7 % 2, 8);
    assert(t12.used == 4 && t12.bytes == t8.bytes && t12.acc == high);
    assert(put_bits(t4, 8, n) == t12);
}

/// Writes the magic bytes.
fn write_magic(writer: &mut HQMMessageWriter)
    requires
        old(writer).wf(),
    ensures
        final(writer).wf(),
        final(writer)@ == put_aligned(old(writer)@, magic()),
{
    writer.write_byte_aligned(0x48);
    writer.write_byte_aligned(0x6f);
    writer.write_byte_aligned(0x63);
    writer.write_byte_aligned(0x6b);
    assert(writer@.bytes =~= sink_output(old(writer)@) + magic());
}

/// Builds the join request for a player name.
pub fn encode_join(name: &str) -> (r: Vec<u8>)
    ensures
        r@ == join_datagram(name@),
{
    let bytes: &[u8] = name.as_bytes();
    let mut field: Vec<u8> = Vec::new();
    let mut i: usize = 0;
    while i < NAME_FIELD
        invariant
            i <= NAME_FIELD,
            bytes@ == encode_utf8(name@),
            field@.len() == i,
            forall|j: int| 0 <= j < i ==> field@[j] == padded_name(bytes@)[j],
        decreases NAME_FIELD - i,
    {
        if i < bytes.len() {
            field.push(bytes[i]);
        } else {
            field.push(0);
        }
        i = i + 1;
    }
    assert(field@ =~= padded_name(bytes@));
    let mut writer: HQMMessageWriter = HQMMessageWriter::new();
    write_magic(&mut writer);
    writer.write_byte_aligned(2);
    writer.write_byte_aligned(55);
    writer.write_bytes_aligned(field.as_slice());
    let out: Vec<u8> = writer.into_bytes();
    assert(out@ =~= join_datagram(name@));
    out
}

/// The flags of an input as one number.
pub fn input_flags(input: &HQMPlayerInput) -> (r: u32)
    ensures
        r == flag_mask(*input),
{
    let mut x: u32 = 0;
    if input.jump {
        x = x + 1;
    }
    if input.crouch {
        x = x + 2;
    }
    if input.join_red {
        x = x + 4;
    }
    if input.join_blue {
        x = x + 8;
    }
    if input.shift_rotate {
        x = x + 16;
    }
    if input.spectate {
        x = x + 32;
    }
    x
}

/// Writes everything of an update before its chat section.
fn write_update_head(
    writer: &mut HQMMessageWriter,
    game: u32,
    input: &HQMPlayerInput,
    known_packet: u32,
    known_msgpos: u16,
)
    requires
        old(writer).wf(),
        old(writer)@ == sink_empty(),
    ensures
        final(writer).wf(),
        final(writer)@ == (BitSink {
            bytes: update_head(game, *input, known_packet, known_msgpos),
            acc: 0,
            used: 0,
        }),
{
    write_magic(writer);
    writer.write_byte_aligned(4);
    writer.write_u32_aligned(game);
    writer.write_u32_aligned(input.stick_angle);
    writer.write_u32_aligned(input.turn);
    writer.write_u32_aligned(input.unknown);
    writer.write_u32_aligned(input.fwbw);
    writer.write_u32_aligned(input.stick.0);
    writer.write_u32_aligned(input.stick.1);
    writer.write_u32_aligned(input.head_rot);
    writer.write_u32_aligned(input.body_rot);
    writer.write_u32_aligned(input_flags(input));
    writer.write_u32_aligned(known_packet);
    writer.write_u16_aligned(known_msgpos);
    assert(writer@.bytes =~= update_head(game, *input, known_packet, known_msgpos));
}

/// Builds the per-tick update: the game id, the input, the two
/// acknowledgements and, where there is one, a chat line with its
/// sequence number (of which the low three bits travel).
pub fn encode_update(
    game: u32,
    input: &HQMPlayerInput,
    known_packet: u32,
    known_msgpos: u16,
    chat_rep: u32,
    chat: &Option<String>,
) -> (r: Vec<u8>)
    ensures
        r@ == update_datagram(
            game,
            *input,
            known_packet,
            known_msgpos,
            chat_rep as nat,
            chat_bytes(*chat),
        ),
{
    let mut writer: HQMMessageWriter = HQMMessageWriter::new();
    write_update_head(&mut writer, game, input, known_packet, known_msgpos);
    let ghost head = update_head(game, *input, known_packet, known_msgpos);
    match chat {
        Some(text) => {
            let bytes: &[u8] = text.as_str().as_bytes();
            let size: usize = if bytes.len() > CHAT_LIMIT {
                CHAT_LIMIT
            } else {
                bytes.len()
            };
            proof {
                lemma_chat_header(writer@, chat_rep as nat, size as nat);
            }
            writer.write_bits(1, 1);
            writer.write_bits(3, chat_rep);
            writer.write_bits(8, size as u32);
            let payload: &[u8] = vstd::slice::slice_subrange(bytes, 0, size);
            assert(payload@ =~= chat_payload(bytes@));
            writer.write_bytes_aligned(payload);
            let out: Vec<u8> = writer.into_bytes();
            assert(out@ =~= head + chat_section(chat_rep as nat, Some(bytes@)));
            out
        },
        None => {
            proof {
                lemma2_to64();
                reveal_with_fuel(put_bits, 2);
            }
            writer.write_bits(1, 0);
            let out: Vec<u8> = writer.into_bytes();
            assert(out@ =~= head + chat_section(chat_rep as nat, None));
            out
        },
    }
}

} // verus!
