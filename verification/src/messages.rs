//! The message log of an update datagram: roster changes, goals and chat
//! lines, each at a sequence position.

use vstd::prelude::*;
use std::collections::HashMap;
use crate::codec::{HQMMessageReader, bits_value, lemma_bits_value_bound};
use crate::game::{
    HQMMessage, HQMMessageView, HQMPlayer, HQMPlayerView, HQMTeam, messages_view, roster_view,
};
use crate::text::{ascii_text, decode_text, seven_bit, trim_trailing_nuls};

verus! {

broadcast use vstd::std_specs::hash::group_hash_axioms;

/// The number of characters in the name field of a roster update.
pub const NAME_CHARS: usize = 31;

/// A 6-bit index field; all ones stands for "nobody".
pub open spec fn index_field(v: nat) -> Option<usize> {
    if v == 63 {
        None
    } else {
        Some(v as usize)
    }
}

/// The team field of a roster update; values other than 0 and 1 stand for
/// "no team".
pub open spec fn roster_team(v: nat) -> Option<HQMTeam> {
    if v == 0 {
        Some(HQMTeam::Red)
    } else if v == 1 {
        Some(HQMTeam::Blue)
    } else {
        None
    }
}

/// The team field of a goal: 0 is red, anything else blue.
pub open spec fn goal_team(v: nat) -> HQMTeam {
    if v == 0 {
        HQMTeam::Red
    } else {
        HQMTeam::Blue
    }
}

/// A player controls an object only with both an object slot and a team.
pub open spec fn assignment(object: Option<usize>, team: Option<HQMTeam>) -> Option<
    (usize, HQMTeam),
> {
    match (object, team) {
        (Some(o), Some(t)) => Some((o, t)),
        _ => None,
    }
}

/// The `n` seven-bit characters that start at bit `at`.
pub open spec fn chars_at(data: Seq<u8>, at: int, n: nat) -> Seq<u8> {
    Seq::new(n, |i: int| bits_value(data, at + 7 * i, 7) as u8)
}

/// The text of `n` characters at bit `at`, without its NUL padding.
pub open spec fn text_at(data: Seq<u8>, at: int, n: nat) -> Seq<char> {
    ascii_text(trim_trailing_nuls(chars_at(data, at, n)))
}

/// The message whose 6-bit type tag is at bit `at`, and the first bit after
/// the message. Type 0 is a roster update, type 1 a goal, type 2 a chat
/// line; any other type carries nothing beyond its tag.
pub open spec fn message_at(data: Seq<u8>, at: int) -> (Option<HQMMessageView>, int) {
    let kind = bits_value(data, at, 6);
    if kind == 0 {
        (
            Some(
                HQMMessageView::PlayerUpdate {
                    player_name: text_at(data, at + 21, NAME_CHARS as nat),
                    object: assignment(
                        index_field(bits_value(data, at + 15, 6)),
                        roster_team(bits_value(data, at + 13, 2)),
                    ),
                    player_index: bits_value(data, at + 6, 6) as usize,
                    in_server: bits_value(data, at + 12, 1) == 1,
                },
            ),
            at + 21 + 7 * NAME_CHARS,
        )
    } else if kind == 1 {
        (
            Some(
                HQMMessageView::Goal {
                    team: goal_team(bits_value(data, at + 6, 2)),
                    goal_player_index: index_field(bits_value(data, at + 8, 6)),
                    assist_player_index: index_field(bits_value(data, at + 14, 6)),
                },
            ),
            at + 20,
        )
    } else if kind == 2 {
        let len = bits_value(data, at + 12, 6);
        (
            Some(
                HQMMessageView::Chat {
                    player_index: index_field(bits_value(data, at + 6, 6)),
                    message: text_at(data, at + 18, len),
                },
            ),
            at + 18 + 7 * len,
        )
    } else {
        (None, at + 6)
    }
}

/// A decoded message with its sequence position.
pub struct LogEntry {
    pub position: nat,
    pub message: HQMMessageView,
}

/// The messages among the first `k` of a batch whose first message is at bit
/// `at` and has sequence position `start`; and the first bit after them.
pub open spec fn log_prefix(data: Seq<u8>, at: int, start: nat, k: nat) -> (Seq<LogEntry>, int)
    decreases k,
{
    if k == 0 {
        (Seq::empty(), at)
    } else {
        let (log, here) = log_prefix(data, at, start, (k - 1) as nat);
        let (message, end) = message_at(data, here);
        match message {
            Some(m) => (log.push(LogEntry { position: (start + k - 1) as nat, message: m }), end),
            None => (log, end),
        }
    }
}

/// The number of messages in the batch that starts at bit `at`.
pub open spec fn batch_count(data: Seq<u8>, at: int) -> nat {
    bits_value(data, at, 4)
}

/// The sequence position of the first message of the batch at bit `at`.
pub open spec fn batch_start(data: Seq<u8>, at: int) -> nat {
    bits_value(data, at + 4, 16)
}

/// The batch at bit `at`: a 4-bit count, a 16-bit starting position, then
/// the messages.
pub open spec fn batch_at(data: Seq<u8>, at: int) -> (Seq<LogEntry>, int) {
    log_prefix(data, at + 20, batch_start(data, at), batch_count(data, at))
}

/// The entries of `log` at or beyond position `known`, in order.
pub open spec fn current_entries(log: Seq<LogEntry>, known: nat) -> Seq<LogEntry>
    decreases log.len(),
{
    if log.len() == 0 {
        Seq::empty()
    } else {
        let before = current_entries(log.drop_last(), known);
        if log.last().position >= known {
            before.push(log.last())
        } else {
            before
        }
    }
}

/// The messages of `log` at or beyond position `known`, in order.
pub open spec fn retained(log: Seq<LogEntry>, known: nat) -> Seq<HQMMessageView> {
    current_entries(log, known).map_values(|e: LogEntry| e.message)
}

/// The roster after one message: a roster update enters or replaces the
/// player when it is online, and removes it otherwise.
pub open spec fn roster_step(roster: Map<usize, HQMPlayerView>, m: HQMMessageView) -> Map<
    usize,
    HQMPlayerView,
> {
    match m {
        HQMMessageView::PlayerUpdate { player_name, object, player_index, in_server } => {
            if in_server {
                roster.insert(
                    player_index,
                    HQMPlayerView { name: player_name, index: player_index, object_index: object },
                )
            } else {
                roster.remove(player_index)
            }
        },
        _ => roster,
    }
}

/// The roster after every message of `log`, in order.
pub open spec fn roster_after(roster: Map<usize, HQMPlayerView>, log: Seq<LogEntry>) -> Map<
    usize,
    HQMPlayerView,
>
    decreases log.len(),
{
    if log.len() == 0 {
        roster
    } else {
        roster_step(roster_after(roster, log.drop_last()), log.last().message)
    }
}

/// Every roster entry sits at its own index, and indices have six bits.
pub open spec fn roster_wf(roster: Map<usize, HQMPlayerView>) -> bool {
    forall|k: usize| #[trigger]
        roster.contains_key(k) ==> k < 64 && roster[k].index == k
}

/// A roster update names a player index of six bits.
pub open spec fn entry_wf(entry: LogEntry) -> bool {
    match entry.message {
        HQMMessageView::PlayerUpdate { player_index, .. } => player_index < 64,
        _ => true,
    }
}

/// Every entry decoded from a batch is well formed.
pub proof fn lemma_log_entries_wf(data: Seq<u8>, at: int, start: nat, k: nat)
    ensures
        forall|i: int|
            0 <= i < log_prefix(data, at, start, k).0.len() ==> entry_wf(
                #[trigger] log_prefix(data, at, start, k).0[i],
            ),
    decreases k,
{
    if k > 0 {
        lemma_log_entries_wf(data, at, start, (k - 1) as nat);
        let here = log_prefix(data, at, start, (k - 1) as nat).1;
        lemma_bits_value_bound(data, here + 6, 6);
        vstd::arithmetic::power2::lemma2_to64();
    }
}

/// The messages of a well-formed log keep a well-formed roster well formed.
pub proof fn lemma_roster_after_wf(roster: Map<usize, HQMPlayerView>, log: Seq<LogEntry>)
    requires
        roster_wf(roster),
        forall|i: int| 0 <= i < log.len() ==> entry_wf(#[trigger] log[i]),
    ensures
        roster_wf(roster_after(roster, log)),
    decreases log.len(),
{
    if log.len() > 0 {
        lemma_roster_after_wf(roster, log.drop_last());
        assert(entry_wf(log[log.len() - 1]));
    }
}

/// The roster updates of a batch keep a well-formed roster well formed.
pub proof fn lemma_batch_keeps_roster_wf(roster: Map<usize, HQMPlayerView>, data: Seq<u8>, at: int)
    requires
        roster_wf(roster),
    ensures
        roster_wf(roster_after(roster, batch_at(data, at).0)),
{
    lemma_log_entries_wf(data, at + 20, batch_start(data, at), batch_count(data, at));
    lemma_roster_after_wf(roster, batch_at(data, at).0);
}

/// Every entry of the first `k` messages of a batch lies at a position of
/// the batch.
pub proof fn lemma_log_positions(data: Seq<u8>, at: int, start: nat, k: nat)
    ensures
        forall|i: int|
            0 <= i < log_prefix(data, at, start, k).0.len() ==> start <= (#[trigger] log_prefix(
                data,
                at,
                start,
                k,
            ).0[i]).position < start + k,
    decreases k,
{
    if k > 0 {
        lemma_log_positions(data, at, start, (k - 1) as nat);
    }
}

/// No entry below the acknowledged position is handed out: what is
/// retained of a log are entries of the log at or beyond `known`.
pub proof fn lemma_retained_are_current(log: Seq<LogEntry>, known: nat)
    ensures
        current_entries(log, known).len() <= log.len(),
        forall|j: int|
            0 <= j < current_entries(log, known).len() ==> {
                &&& (#[trigger] current_entries(log, known)[j]).position >= known
                &&& log.contains(current_entries(log, known)[j])
            },
    decreases log.len(),
{
    if log.len() > 0 {
        let front = log.drop_last();
        lemma_retained_are_current(front, known);
        assert forall|j: int| 0 <= j < current_entries(log, known).len() implies {
            &&& (#[trigger] current_entries(log, known)[j]).position >= known
            &&& log.contains(current_entries(log, known)[j])
        } by {
            if j < current_entries(front, known).len() {
                let e = current_entries(front, known)[j];
                assert(front.contains(e));
                let i = choose|i: int| 0 <= i < front.len() && front[i] == e;
                assert(log[i] == e);
            } else {
                assert(log[log.len() - 1] == log.last());
            }
        }
    }
}

/// An entry below the acknowledged position is not handed out, yet a
/// roster update that it carries is applied.
pub proof fn lemma_stale_entry(
    roster: Map<usize, HQMPlayerView>,
    log: Seq<LogEntry>,
    entry: LogEntry,
    known: nat,
)
    requires
        entry.position < known,
    ensures
        retained(log.push(entry), known) == retained(log, known),
        roster_after(roster, log.push(entry)) == roster_step(
            roster_after(roster, log),
            entry.message,
        ),
{
    assert(log.push(entry).drop_last() =~= log);
}

/// A batch that ends at or before the acknowledged position hands out no
/// message; its roster updates are applied all the same.
pub proof fn lemma_acknowledged_batch_is_silent(data: Seq<u8>, at: int, known: nat)
    requires
        batch_start(data, at) + batch_count(data, at) <= known,
    ensures
        retained(batch_at(data, at).0, known).len() == 0,
{
    let log = batch_at(data, at).0;
    lemma_log_positions(data, at + 20, batch_start(data, at), batch_count(data, at));
    lemma_retained_are_current(log, known);
    if current_entries(log, known).len() > 0 {
        let e = current_entries(log, known)[0];
        assert(log.contains(e));
    }
}

/// A message that may be missing, by its view.
pub open spec fn optional_view(m: Option<HQMMessage>) -> Option<HQMMessageView> {
    match m {
        Some(m) => Some(m@),
        None => None,
    }
}

/// Reads a 6-bit index field.
pub fn read_index(reader: &mut HQMMessageReader) -> (r: Option<usize>)
    requires
        old(reader).wf(),
    ensures
        final(reader).wf(),
        final(reader).data() == old(reader).data(),
        final(reader).cursor() == old(reader).cursor() + 6,
        r == index_field(bits_value(old(reader).data(), old(reader).cursor(), 6)),
{
    let v: u32 = reader.read_bits(6);
    if v == 63 {
        None
    } else {
        Some(v as usize)
    }
}

/// Reads `n` seven-bit characters.
pub fn read_chars(reader: &mut HQMMessageReader, n: usize) -> (r: Vec<u8>)
    requires
        old(reader).wf(),
    ensures
        final(reader).wf(),
        final(reader).data() == old(reader).data(),
        final(reader).cursor() == old(reader).cursor() + 7 * n,
        r@ == chars_at(old(reader).data(), old(reader).cursor(), n as nat),
        seven_bit(r@),
{
    let mut bytes: Vec<u8> = Vec::new();
    let mut i: usize = 0;
    while i < n
        invariant
            i <= n,
            reader.wf(),
            reader.data() == old(reader).data(),
            reader.cursor() == old(reader).cursor() + 7 * i,
            bytes@ == chars_at(old(reader).data(), old(reader).cursor(), i as nat),
            seven_bit(bytes@),
        decreases n - i,
    {
        proof {
            lemma_bits_value_bound(reader.data(), reader.cursor(), 7);
            vstd::arithmetic::power2::lemma2_to64();
        }
        let c: u32 = reader.read_bits(7);
        bytes.push(c as u8);
        i = i + 1;
        assert(bytes@ =~= chars_at(old(reader).data(), old(reader).cursor(), i as nat));
    }
    bytes
}

/// Reads one message of the log. A message of unknown type, or one whose
/// text does not decode, gives `None`.
pub fn read_message(reader: &mut HQMMessageReader) -> (r: Option<HQMMessage>)
    requires
        old(reader).wf(),
    ensures
        final(reader).wf(),
        final(reader).data() == old(reader).data(),
        (optional_view(r), final(reader).cursor()) == message_at(
            old(reader).data(),
            old(reader).cursor(),
        ),
{
    let kind: u32 = reader.read_bits(6);
    if kind == 0 {
        let player_index: usize = reader.read_bits(6) as usize;
        let in_server: bool = reader.read_bits(1) == 1;
        let team_tag: u32 = reader.read_bits(2);
        let team: Option<HQMTeam> = if team_tag == 0 {
            Some(HQMTeam::Red)
        } else if team_tag == 1 {
            Some(HQMTeam::Blue)
        } else {
            None
        };
        let slot: Option<usize> = read_index(reader);
        let object: Option<(usize, HQMTeam)> = match (slot, team) {
            (Some(o), Some(t)) => Some((o, t)),
            _ => None,
        };
        let bytes: Vec<u8> = read_chars(reader, NAME_CHARS);
        match decode_text(bytes) {
            Some(player_name) => Some(
                HQMMessage::PlayerUpdate { player_name, object, player_index, in_server },
            ),
            None => None,
        }
    } else if kind == 1 {
        let team: HQMTeam = if reader.read_bits(2) == 0 {
            HQMTeam::Red
        } else {
            HQMTeam::Blue
        };
        let goal_player_index: Option<usize> = read_index(reader);
        let assist_player_index: Option<usize> = read_index(reader);
        Some(HQMMessage::Goal { team, goal_player_index, assist_player_index })
    } else if kind == 2 {
        let player_index: Option<usize> = read_index(reader);
        let len: usize = reader.read_bits(6) as usize;
        let bytes: Vec<u8> = read_chars(reader, len);
        match decode_text(bytes) {
            Some(message) => Some(HQMMessage::Chat { player_index, message }),
            None => None,
        }
    } else {
        None
    }
}

/// Applies one message to the roster.
pub fn apply_to_roster(players: &mut HashMap<usize, HQMPlayer>, message: &HQMMessage)
    ensures
        roster_view(final(players)@) == roster_step(roster_view(old(players)@), message@),
{
    match message {
        HQMMessage::PlayerUpdate { player_name, object, player_index, in_server } => {
            if *in_server {
                players.insert(
                    *player_index,
                    HQMPlayer {
                        name: player_name.clone(),
                        index: *player_index,
                        object_index: *object,
                    },
                );
            } else {
                players.remove(player_index);
            }
        },
        _ => {},
    }
    assert(roster_view(players@) =~= roster_step(roster_view(old(players)@), message@));
}

/// Reads the message batch of an update datagram.
///
/// Every roster update of the batch is applied to `players`, in order.
/// The result lists the messages at or beyond sequence position
/// `known_msgpos`, in order, and gives the position just after the batch.
pub fn read_message_log(
    reader: &mut HQMMessageReader,
    known_msgpos: u16,
    players: &mut HashMap<usize, HQMPlayer>,
) -> (r: (Vec<HQMMessage>, u32))
    requires
        old(reader).wf(),
    ensures
        final(reader).wf(),
        final(reader).data() == old(reader).data(),
        final(reader).cursor() == batch_at(old(reader).data(), old(reader).cursor()).1,
        messages_view(r.0@) == retained(
            batch_at(old(reader).data(), old(reader).cursor()).0,
            known_msgpos as nat,
        ),
        roster_view(final(players)@) == roster_after(
            roster_view(old(players)@),
            batch_at(old(reader).data(), old(reader).cursor()).0,
        ),
        r.1 == batch_start(old(reader).data(), old(reader).cursor()) + batch_count(
            old(reader).data(),
            old(reader).cursor(),
        ),
{
    proof {
        lemma_bits_value_bound(reader.data(), reader.cursor(), 4);
        lemma_bits_value_bound(reader.data(), reader.cursor() + 4, 16);
        vstd::arithmetic::power2::lemma2_to64();
    }
    let count: u32 = reader.read_bits(4);
    let start: u32 = reader.read_bits(16);
    let ghost first = reader.cursor();
    let ghost roster0 = roster_view(players@);
    let ghost mut log: Seq<LogEntry> = Seq::empty();
    let mut messages: Vec<HQMMessage> = Vec::new();
    let mut k: u32 = 0;
    while k < count
        invariant
            k <= count < 16,
            start < 65536,
            reader.wf(),
            reader.data() == old(reader).data(),
            log_prefix(reader.data(), first, start as nat, k as nat) == (log, reader.cursor()),
            messages_view(messages@) == retained(log, known_msgpos as nat),
            roster_view(players@) == roster_after(roster0, log),
        decreases count - k,
    {
        let position: u32 = start + k;
        match read_message(reader) {
            Some(message) => {
                let ghost entry = LogEntry { position: position as nat, message: message@ };
                proof {
                    assert(log.push(entry).drop_last() =~= log);
                    assert(retained(log.push(entry), known_msgpos as nat) =~= if position
                        >= known_msgpos {
                        retained(log, known_msgpos as nat).push(message@)
                    } else {
                        retained(log, known_msgpos as nat)
                    });
                    log = log.push(entry);
                }
                apply_to_roster(players, &message);
                if position >= known_msgpos as u32 {
                    let ghost before = messages@;
                    messages.push(message);
                    assert(messages_view(messages@) =~= messages_view(before).push(message@));
                }
            },
            None => {},
        }
        k = k + 1;
    }
    (messages, start + count)
}

} // verus!
