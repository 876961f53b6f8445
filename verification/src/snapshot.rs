//! The 32-slot object table of a tick: its delta-compressed wire form and
//! its reconstruction into game coordinates.

use vstd::prelude::*;
use crate::codec::{HQMMessageReader, bits_value, pos_end, pos_payload, pos_value};
use crate::game::{HQMGameStateObject, HQMGameStatePuck, HQMGameStateSkater};

verus! {

/// The number of object slots in a tick.
pub const SLOT_COUNT: usize = 32;

/// A skater as received: twelve quantized fields.
#[derive(Debug, Copy, Clone, PartialEq, Eq)]
pub struct HQMSkaterPacket {
    pub pos: (u32, u32, u32),
    pub rot: (u32, u32),
    pub stick_pos: (u32, u32, u32),
    pub stick_rot: (u32, u32),
    pub head_rot: u32,
    pub body_rot: u32,
}

/// A puck as received: five quantized fields.
#[derive(Debug, Copy, Clone, PartialEq, Eq)]
pub struct HQMPuckPacket {
    pub pos: (u32, u32, u32),
    pub rot: (u32, u32),
}

/// One object slot as received.
#[derive(Debug, Copy, Clone, PartialEq, Eq)]
pub enum HQMObjectPacket {
    Empty,
    Skater(HQMSkaterPacket),
    Puck(HQMPuckPacket),
}

/// Why an update datagram could not be decoded.
#[derive(Debug, Copy, Clone, PartialEq, Eq)]
pub enum HQMDecodeError {
    /// A present slot carries a type tag that is neither skater nor puck.
    UnknownSlotType { slot: usize, tag: u32 },
}

/// One field of an optional previous value.
pub open spec fn project<T>(previous: Option<T>, field: spec_fn(T) -> u32) -> Option<u32> {
    match previous {
        Some(p) => Some(field(p)),
        None => None,
    }
}

/// The skater in `slot` of the previous table, if the table is known and
/// holds a skater there.
pub open spec fn previous_skater(previous: Option<Seq<HQMObjectPacket>>, slot: int) -> Option<
    HQMSkaterPacket,
> {
    match previous {
        Some(t) => if 0 <= slot < t.len() {
            match t[slot] {
                HQMObjectPacket::Skater(s) => Some(s),
                _ => None,
            }
        } else {
            None
        },
        None => None,
    }
}

/// The puck in `slot` of the previous table, if the table is known and holds
/// a puck there.
pub open spec fn previous_puck(previous: Option<Seq<HQMObjectPacket>>, slot: int) -> Option<
    HQMPuckPacket,
> {
    match previous {
        Some(t) => if 0 <= slot < t.len() {
            match t[slot] {
                HQMObjectPacket::Puck(p) => Some(p),
                _ => None,
            }
        } else {
            None
        },
        None => None,
    }
}

/// The skater whose fields start at bit `at`, and the first bit after it.
pub open spec fn skater_at(data: Seq<u8>, at: int, previous: Option<HQMSkaterPacket>) -> (
    HQMSkaterPacket,
    int,
) {
    let e1 = pos_end(data, at, 17);
    let e2 = pos_end(data, e1, 17);
    let e3 = pos_end(data, e2, 17);
    let e4 = pos_end(data, e3, 31);
    let e5 = pos_end(data, e4, 31);
    let e6 = pos_end(data, e5, 13);
    let e7 = pos_end(data, e6, 13);
    let e8 = pos_end(data, e7, 13);
    let e9 = pos_end(data, e8, 25);
    let e10 = pos_end(data, e9, 25);
    let e11 = pos_end(data, e10, 16);
    let e12 = pos_end(data, e11, 16);
    (
        HQMSkaterPacket {
            pos: (
                pos_value(data, at, 17, project(previous, |s: HQMSkaterPacket| s.pos.0)),
                pos_value(data, e1, 17, project(previous, |s: HQMSkaterPacket| s.pos.1)),
                pos_value(data, e2, 17, project(previous, |s: HQMSkaterPacket| s.pos.2)),
            ),
            rot: (
                pos_value(data, e3, 31, project(previous, |s: HQMSkaterPacket| s.rot.0)),
                pos_value(data, e4, 31, project(previous, |s: HQMSkaterPacket| s.rot.1)),
            ),
            stick_pos: (
                pos_value(data, e5, 13, project(previous, |s: HQMSkaterPacket| s.stick_pos.0)),
                pos_value(data, e6, 13, project(previous, |s: HQMSkaterPacket| s.stick_pos.1)),
                pos_value(data, e7, 13, project(previous, |s: HQMSkaterPacket| s.stick_pos.2)),
            ),
            stick_rot: (
                pos_value(data, e8, 25, project(previous, |s: HQMSkaterPacket| s.stick_rot.0)),
                pos_value(data, e9, 25, project(previous, |s: HQMSkaterPacket| s.stick_rot.1)),
            ),
            head_rot: pos_value(data, e10, 16, project(previous, |s: HQMSkaterPacket| s.head_rot)),
            body_rot: pos_value(data, e11, 16, project(previous, |s: HQMSkaterPacket| s.body_rot)),
        },
        e12,
    )
}

/// The puck whose fields start at bit `at`, and the first bit after it.
pub open spec fn puck_at(data: Seq<u8>, at: int, previous: Option<HQMPuckPacket>) -> (
    HQMPuckPacket,
    int,
) {
    let e1 = pos_end(data, at, 17);
    let e2 = pos_end(data, e1, 17);
    let e3 = pos_end(data, e2, 17);
    let e4 = pos_end(data, e3, 31);
    let e5 = pos_end(data, e4, 31);
    (
        HQMPuckPacket {
            pos: (
                pos_value(data, at, 17, project(previous, |p: HQMPuckPacket| p.pos.0)),
                pos_value(data, e1, 17, project(previous, |p: HQMPuckPacket| p.pos.1)),
                pos_value(data, e2, 17, project(previous, |p: HQMPuckPacket| p.pos.2)),
            ),
            rot: (
                pos_value(data, e3, 31, project(previous, |p: HQMPuckPacket| p.rot.0)),
                pos_value(data, e4, 31, project(previous, |p: HQMPuckPacket| p.rot.1)),
            ),
        },
        e5,
    )
}

/// The object in `slot`, whose presence flag is bit `at`, and the first bit
/// after it; or the offending tag, where a present slot is neither skater
/// (tag 0) nor puck (tag 1).
pub open spec fn object_at(
    data: Seq<u8>,
    at: int,
    previous: Option<Seq<HQMObjectPacket>>,
    slot: int,
) -> Result<(HQMObjectPacket, int), HQMDecodeError> {
    if bits_value(data, at, 1) != 1 {
        Ok((HQMObjectPacket::Empty, at + 1))
    } else {
        let tag = bits_value(data, at + 1, 2);
        if tag == 0 {
            let (s, end) = skater_at(data, at + 3, previous_skater(previous, slot));
            Ok((HQMObjectPacket::Skater(s), end))
        } else if tag == 1 {
            let (p, end) = puck_at(data, at + 3, previous_puck(previous, slot));
            Ok((HQMObjectPacket::Puck(p), end))
        } else {
            Err(HQMDecodeError::UnknownSlotType { slot: slot as usize, tag: tag as u32 })
        }
    }
}

/// The first `k` slots of the table that starts at bit `at`, and the first
/// bit after them; or the error of the first slot that cannot be decoded.
pub open spec fn table_prefix(
    data: Seq<u8>,
    at: int,
    previous: Option<Seq<HQMObjectPacket>>,
    k: nat,
) -> Result<(Seq<HQMObjectPacket>, int), HQMDecodeError>
    decreases k,
{
    if k == 0 {
        Ok((Seq::empty(), at))
    } else {
        match table_prefix(data, at, previous, (k - 1) as nat) {
            Ok((slots, end)) => match object_at(data, end, previous, k - 1) {
                Ok((object, next)) => Ok((slots.push(object), next)),
                Err(e) => Err(e),
            },
            Err(e) => Err(e),
        }
    }
}

/// The whole table that starts at bit `at`.
pub open spec fn table_at(data: Seq<u8>, at: int, previous: Option<Seq<HQMObjectPacket>>) -> Result<
    (Seq<HQMObjectPacket>, int),
    HQMDecodeError,
> {
    table_prefix(data, at, previous, SLOT_COUNT as nat)
}

/// Once a slot has failed, the error is the result for every longer prefix.
pub proof fn lemma_table_error_persists(
    data: Seq<u8>,
    at: int,
    previous: Option<Seq<HQMObjectPacket>>,
    j: nat,
    k: nat,
)
    requires
        j <= k,
        table_prefix(data, at, previous, j) is Err,
    ensures
        table_prefix(data, at, previous, k) == table_prefix(data, at, previous, j),
    decreases k,
{
    if j < k {
        lemma_table_error_persists(data, at, previous, j, (k - 1) as nat);
    }
}

/// A decoded prefix of `k` slots has `k` slots.
pub proof fn lemma_table_len(
    data: Seq<u8>,
    at: int,
    previous: Option<Seq<HQMObjectPacket>>,
    k: nat,
)
    ensures
        table_prefix(data, at, previous, k) is Ok ==> table_prefix(
            data,
            at,
            previous,
            k,
        )->Ok_0.0.len() == k,
    decreases k,
{
    if k > 0 {
        lemma_table_len(data, at, previous, (k - 1) as nat);
    }
}

/// A previous table, where there is one, as a sequence.
pub open spec fn table_view(previous: Option<&Vec<HQMObjectPacket>>) -> Option<Seq<HQMObjectPacket>> {
    match previous {
        Some(t) => Some(t@),
        None => None,
    }
}

/// A received skater in game coordinates. The stick's position travels
/// relative to the skater, shifted by four game units per axis; the angles
/// travel shifted by two units.
pub open spec fn skater_state(s: HQMSkaterPacket) -> HQMGameStateSkater {
    HQMGameStateSkater {
        pos: (s.pos.0 as i64, s.pos.1 as i64, s.pos.2 as i64),
        rot: s.rot,
        stick_pos: (
            (s.stick_pos.0 + s.pos.0 - 4 * 1024) as i64,
            (s.stick_pos.1 + s.pos.1 - 4 * 1024) as i64,
            (s.stick_pos.2 + s.pos.2 - 4 * 1024) as i64,
        ),
        stick_rot: s.stick_rot,
        head_rot: (s.head_rot + 2 * 8192) as i64,
        body_rot: (s.body_rot + 2 * 8192) as i64,
    }
}

/// A received puck in game coordinates.
pub open spec fn puck_state(p: HQMPuckPacket) -> HQMGameStatePuck {
    HQMGameStatePuck { pos: (p.pos.0 as i64, p.pos.1 as i64, p.pos.2 as i64), rot: p.rot }
}

/// A received slot in game coordinates.
pub open spec fn object_state(o: HQMObjectPacket) -> HQMGameStateObject {
    match o {
        HQMObjectPacket::Empty => HQMGameStateObject::Empty,
        HQMObjectPacket::Skater(s) => HQMGameStateObject::Skater(skater_state(s)),
        HQMObjectPacket::Puck(p) => HQMGameStateObject::Puck(puck_state(p)),
    }
}

/// A received table in game coordinates, slot by slot.
pub open spec fn table_state(table: Seq<HQMObjectPacket>) -> Seq<HQMGameStateObject> {
    table.map_values(|o: HQMObjectPacket| object_state(o))
}

/// Without a previous table no slot has a previous value, and a skater
/// decodes field by field to the payloads on the wire: a position to its
/// payload in fixed-point steps, the stick's position to its payload plus
/// the skater's position less four game units, an angle to its payload plus
/// two units.
pub proof fn lemma_absolute_skater(data: Seq<u8>, at: int, slot: int)
    ensures
        previous_skater(None, slot) is None,
        ({
            let s = skater_at(data, at, None).0;
            let g = skater_state(s);
            let e1 = pos_end(data, at, 17);
            let e2 = pos_end(data, e1, 17);
            let e3 = pos_end(data, e2, 17);
            let e4 = pos_end(data, e3, 31);
            let e5 = pos_end(data, e4, 31);
            let e6 = pos_end(data, e5, 13);
            let e7 = pos_end(data, e6, 13);
            let e8 = pos_end(data, e7, 13);
            let e9 = pos_end(data, e8, 25);
            let e10 = pos_end(data, e9, 25);
            let e11 = pos_end(data, e10, 16);
            &&& g.pos.0 == pos_payload(data, at, 17) as u32
            &&& g.pos.1 == pos_payload(data, e1, 17) as u32
            &&& g.pos.2 == pos_payload(data, e2, 17) as u32
            &&& g.rot.0 == pos_payload(data, e3, 31) as u32
            &&& g.rot.1 == pos_payload(data, e4, 31) as u32
            &&& g.stick_pos.0 == (pos_payload(data, e5, 13) as u32) + g.pos.0 - 4 * 1024
            &&& g.stick_pos.1 == (pos_payload(data, e6, 13) as u32) + g.pos.1 - 4 * 1024
            &&& g.stick_pos.2 == (pos_payload(data, e7, 13) as u32) + g.pos.2 - 4 * 1024
            &&& g.stick_rot.0 == pos_payload(data, e8, 25) as u32
            &&& g.stick_rot.1 == pos_payload(data, e9, 25) as u32
            &&& g.head_rot == (pos_payload(data, e10, 16) as u32) + 2 * 8192
            &&& g.body_rot == (pos_payload(data, e11, 16) as u32) + 2 * 8192
        }),
{
}

/// Without a previous table a puck decodes field by field to the payloads
/// on the wire.
pub proof fn lemma_absolute_puck(data: Seq<u8>, at: int, slot: int)
    ensures
        previous_puck(None, slot) is None,
        ({
            let p = puck_at(data, at, None).0;
            let g = puck_state(p);
            let e1 = pos_end(data, at, 17);
            let e2 = pos_end(data, e1, 17);
            let e3 = pos_end(data, e2, 17);
            let e4 = pos_end(data, e3, 31);
            &&& g.pos.0 == pos_payload(data, at, 17) as u32
            &&& g.pos.1 == pos_payload(data, e1, 17) as u32
            &&& g.pos.2 == pos_payload(data, e2, 17) as u32
            &&& g.rot.0 == pos_payload(data, e3, 31) as u32
            &&& g.rot.1 == pos_payload(data, e4, 31) as u32
        }),
{
}

/// Reads the twelve fields of a skater.
pub fn read_skater(reader: &mut HQMMessageReader, previous: Option<HQMSkaterPacket>) -> (r:
    HQMSkaterPacket)
    requires
        old(reader).wf(),
    ensures
        final(reader).wf(),
        final(reader).data() == old(reader).data(),
        (r, final(reader).cursor()) == skater_at(old(reader).data(), old(reader).cursor(), previous),
{
    let (ox, oy, oz, or1, or2, osx, osy, osz, osr1, osr2, oh, ob) = match previous {
        Some(s) => (
            Some(s.pos.0),
            Some(s.pos.1),
            Some(s.pos.2),
            Some(s.rot.0),
            Some(s.rot.1),
            Some(s.stick_pos.0),
            Some(s.stick_pos.1),
            Some(s.stick_pos.2),
            Some(s.stick_rot.0),
            Some(s.stick_rot.1),
            Some(s.head_rot),
            Some(s.body_rot),
        ),
        None => (None, None, None, None, None, None, None, None, None, None, None, None),
    };
    let x: u32 = reader.read_pos(17, ox);
    let y: u32 = reader.read_pos(17, oy);
    let z: u32 = reader.read_pos(17, oz);
    let r1: u32 = reader.read_pos(31, or1);
    let r2: u32 = reader.read_pos(31, or2);
    let stick_x: u32 = reader.read_pos(13, osx);
    let stick_y: u32 = reader.read_pos(13, osy);
    let stick_z: u32 = reader.read_pos(13, osz);
    let stick_r1: u32 = reader.read_pos(25, osr1);
    let stick_r2: u32 = reader.read_pos(25, osr2);
    let head_rot: u32 = reader.read_pos(16, oh);
    let body_rot: u32 = reader.read_pos(16, ob);
    HQMSkaterPacket {
        pos: (x, y, z),
        rot: (r1, r2),
        stick_pos: (stick_x, stick_y, stick_z),
        stick_rot: (stick_r1, stick_r2),
        head_rot,
        body_rot,
    }
}

/// Reads the five fields of a puck.
pub fn read_puck(reader: &mut HQMMessageReader, previous: Option<HQMPuckPacket>) -> (r:
    HQMPuckPacket)
    requires
        old(reader).wf(),
    ensures
        final(reader).wf(),
        final(reader).data() == old(reader).data(),
        (r, final(reader).cursor()) == puck_at(old(reader).data(), old(reader).cursor(), previous),
{
    let (ox, oy, oz, or1, or2) = match previous {
        Some(p) => (Some(p.pos.0), Some(p.pos.1), Some(p.pos.2), Some(p.rot.0), Some(p.rot.1)),
        None => (None, None, None, None, None),
    };
    let x: u32 = reader.read_pos(17, ox);
    let y: u32 = reader.read_pos(17, oy);
    let z: u32 = reader.read_pos(17, oz);
    let r1: u32 = reader.read_pos(31, or1);
    let r2: u32 = reader.read_pos(31, or2);
    HQMPuckPacket { pos: (x, y, z), rot: (r1, r2) }
}

/// Reads the object table of a tick. `previous` is the table that the sender
/// named as the base of its differences, where it is still known.
///
/// A slot that is present with an unknown type tag ends the decoding with
/// an error that names the slot and the tag.
pub fn read_object_table(
    reader: &mut HQMMessageReader,
    previous: Option<&Vec<HQMObjectPacket>>,
) -> (r: Result<Vec<HQMObjectPacket>, HQMDecodeError>)
    requires
        old(reader).wf(),
    ensures
        final(reader).wf(),
        final(reader).data() == old(reader).data(),
        match table_at(old(reader).data(), old(reader).cursor(), table_view(previous)) {
            Ok((slots, end)) => r is Ok && r->Ok_0@ == slots && final(reader).cursor() == end,
            Err(e) => r == Err::<Vec<HQMObjectPacket>, HQMDecodeError>(e),
        },
        r is Ok ==> r->Ok_0@.len() == SLOT_COUNT,
{
    let mut table: Vec<HQMObjectPacket> = Vec::new();
    let mut i: usize = 0;
    while i < SLOT_COUNT
        invariant
            i <= SLOT_COUNT,
            reader.wf(),
            reader.data() == old(reader).data(),
            table@.len() == i,
            table_prefix(old(reader).data(), old(reader).cursor(), table_view(previous), i as nat)
                == Ok::<(Seq<HQMObjectPacket>, int), HQMDecodeError>((table@, reader.cursor())),
        decreases SLOT_COUNT - i,
    {
        let ghost at = reader.cursor();
        let exists: bool = reader.read_bits(1) == 1;
        let object: HQMObjectPacket = if exists {
            let tag: u32 = reader.read_bits(2);
            if tag == 0 {
                let base: Option<HQMSkaterPacket> = match previous {
                    Some(t) => if i < t.len() {
                        match t[i] {
                            HQMObjectPacket::Skater(s) => Some(s),
                            _ => None,
                        }
                    } else {
                        None
                    },
                    None => None,
                };
                HQMObjectPacket::Skater(read_skater(reader, base))
            } else if tag == 1 {
                let base: Option<HQMPuckPacket> = match previous {
                    Some(t) => if i < t.len() {
                        match t[i] {
                            HQMObjectPacket::Puck(p) => Some(p),
                            _ => None,
                        }
                    } else {
                        None
                    },
                    None => None,
                };
                HQMObjectPacket::Puck(read_puck(reader, base))
            } else {
                proof {
                    lemma_table_error_persists(
                        old(reader).data(),
                        old(reader).cursor(),
                        table_view(previous),
                        (i + 1) as nat,
                        SLOT_COUNT as nat,
                    );
                }
                return Err(HQMDecodeError::UnknownSlotType { slot: i, tag });
            }
        } else {
            HQMObjectPacket::Empty
        };
        assert(object_at(old(reader).data(), at, table_view(previous), i as int) == Ok::<
            (HQMObjectPacket, int),
            HQMDecodeError,
        >((object, reader.cursor())));
        table.push(object);
        i = i + 1;
    }
    Ok(table)
}

/// Converts a received table to game coordinates.
pub fn reconstruct(table: &Vec<HQMObjectPacket>) -> (r: Vec<HQMGameStateObject>)
    ensures
        r@ == table_state(table@),
{
    let mut out: Vec<HQMGameStateObject> = Vec::new();
    let mut i: usize = 0;
    while i < table.len()
        invariant
            i <= table@.len(),
            out@ == table_state(table@.take(i as int)),
        decreases table@.len() - i,
    {
        let object: HQMGameStateObject = match table[i] {
            HQMObjectPacket::Empty => HQMGameStateObject::Empty,
            HQMObjectPacket::Puck(p) => HQMGameStateObject::Puck(
                HQMGameStatePuck {
                    pos: (p.pos.0 as i64, p.pos.1 as i64, p.pos.2 as i64),
                    rot: p.rot,
                },
            ),
            HQMObjectPacket::Skater(s) => HQMGameStateObject::Skater(
                HQMGameStateSkater {
                    pos: (s.pos.0 as i64, s.pos.1 as i64, s.pos.2 as i64),
                    rot: s.rot,
                    stick_pos: (
                        s.stick_pos.0 as i64 + s.pos.0 as i64 - 4 * 1024,
                        s.stick_pos.1 as i64 + s.pos.1 as i64 - 4 * 1024,
                        s.stick_pos.2 as i64 + s.pos.2 as i64 - 4 * 1024,
                    ),
                    stick_rot: s.stick_rot,
                    head_rot: s.head_rot as i64 + 2 * 8192,
                    body_rot: s.body_rot as i64 + 2 * 8192,
                },
            ),
        };
        out.push(object);
        i = i + 1;
        assert(out@ =~= table_state(table@.take(i as int)));
    }
    assert(table@.take(i as int) =~= table@);
    out
}

} // verus!
