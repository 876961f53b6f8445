//! The session with a game server: what has been acknowledged, who is on
//! the roster, which snapshots are remembered, and what every received
//! datagram does to all of that.

use vstd::prelude::*;
use std::collections::HashMap;
use crate::codec::{HQMMessageReader, bits_value, byte_at, le32_at, lemma_bits_value_bound};
use crate::game::{
    HQMGameState, HQMGameStateView, HQMMessage, HQMMessageView, HQMPlayer, HQMPlayerInput,
    HQMPlayerView, idle_input, messages_view, roster_view,
};
use crate::messages::{
    batch_at, batch_count, batch_start, lemma_batch_keeps_roster_wf, read_message_log, retained,
    roster_after, roster_wf,
};
use crate::outbound::{chat_bytes, encode_join, encode_update, join_datagram, update_datagram};
use crate::snapshot::{
    HQMDecodeError, HQMObjectPacket, SLOT_COUNT, read_object_table, reconstruct, table_at,
    table_state,
};

verus! {

/// The game id of a session that has not been told of any game yet.
pub const NO_GAME: u32 = 0xffff_ffff;

/// The acknowledged packet id of a session that has not seen any update yet.
pub const NO_PACKET: u32 = 0xffff_ffff;

/// The number of snapshots a session remembers, one per packet id modulo
/// this number.
pub const CACHE_SIZE: usize = 256;

/// The command byte of a state update.
pub const COMMAND_UPDATE: u8 = 5;

/// The command byte of a game-change notice.
pub const COMMAND_NEW_GAME: u8 = 6;

/// The decision logic that a session drives.
pub trait HQMBotLogic {
    /// Called once whenever the server announces another game.
    fn new_game(&mut self);

    /// Called once per decoded update, with the state of the tick and the
    /// messages that are new; returns the input for the tick and, where
    /// wanted, a chat line.
    fn tick(&mut self, state: &HQMGameState, messages: &[HQMMessage]) -> (
        HQMPlayerInput,
        Option<String>,
    );
}

/// A session with one game server.
pub struct HQMBotSession<T: HQMBotLogic> {
    name: String,
    current_game: u32,
    known_packet: u32,
    chat_rep: u32,
    known_msgpos: u16,
    players: HashMap<usize, HQMPlayer>,
    saved_packets: Vec<Option<Vec<HQMObjectPacket>>>,
    logic: T,
}

/// What a session knows, as mathematical values.
pub struct SessionView {
    pub name: Seq<char>,
    pub current_game: u32,
    pub known_packet: u32,
    pub chat_rep: u32,
    pub known_msgpos: u16,
    pub players: Map<usize, HQMPlayerView>,
    pub saved_packets: Seq<Option<Seq<HQMObjectPacket>>>,
}

/// What a session answers to a datagram: the update to send back and, where
/// the datagram was a state update that could not be decoded, the reason.
#[derive(Debug, Clone)]
pub struct HQMReply {
    pub datagram: Vec<u8>,
    pub failure: Option<HQMDecodeError>,
}

/// A decoded update: the session after it, the state of the tick, and the
/// new messages.
pub struct Applied {
    pub session: SessionView,
    pub state: HQMGameStateView,
    pub messages: Seq<HQMMessageView>,
}

/// A cache in which nothing is remembered.
pub open spec fn empty_cache() -> Seq<Option<Seq<HQMObjectPacket>>> {
    Seq::new(CACHE_SIZE as nat, |i: int| None)
}

/// A session before its first datagram.
pub open spec fn initial_session(name: Seq<char>) -> SessionView {
    SessionView {
        name,
        current_game: NO_GAME,
        known_packet: NO_PACKET,
        chat_rep: 0,
        known_msgpos: 0,
        players: Map::empty(),
        saved_packets: empty_cache(),
    }
}

/// The invariant of a session's knowledge.
pub open spec fn session_wf(s: SessionView) -> bool {
    &&& s.chat_rep < 8
    &&& roster_wf(s.players)
    &&& s.saved_packets.len() == CACHE_SIZE
    &&& forall|i: int|
        0 <= i < s.saved_packets.len() && s.saved_packets[i] is Some ==> (
        #[trigger] s.saved_packets[i])->0.len() == SLOT_COUNT
}

/// The datagram opens with the magic bytes.
pub open spec fn frame_ok(msg: Seq<u8>) -> bool {
    &&& byte_at(msg, 0) == 0x48
    &&& byte_at(msg, 1) == 0x6f
    &&& byte_at(msg, 2) == 0x63
    &&& byte_at(msg, 3) == 0x6b
}

/// The command byte of a datagram.
pub open spec fn frame_command(msg: Seq<u8>) -> u8 {
    byte_at(msg, 4)
}

/// The game id that a game-change notice announces.
pub open spec fn announced_game(msg: Seq<u8>) -> u32 {
    le32_at(msg, 5) as u32
}

/// The session after a game-change notice: untouched where the game is the
/// current one, otherwise bound to the new game with everything else as in
/// a fresh session.
pub open spec fn game_changed(s: SessionView, game: u32) -> SessionView {
    if s.current_game == game {
        s
    } else {
        SessionView {
            name: s.name,
            current_game: game,
            known_packet: NO_PACKET,
            chat_rep: 0,
            known_msgpos: 0,
            players: Map::empty(),
            saved_packets: empty_cache(),
        }
    }
}

/// The fixed-size head of an update datagram.
#[derive(Debug, Copy, Clone, PartialEq, Eq)]
pub struct HQMUpdateHeader {
    pub game_id: u32,
    pub step: u32,
    pub game_over: bool,
    pub red_score: u32,
    pub blue_score: u32,
    pub time: u32,
    pub goal_time: u32,
    pub period: u32,
    pub yourself: usize,
    pub packet: u32,
    pub base: u32,
}

/// The bit at which the object table of an update datagram starts.
pub const TABLE_START: usize = 240;

/// The head of an update datagram. After the command byte come the game id
/// and the step counter, 32 bits each; then game-over flag (1 bit), red and
/// blue score (8 bits each), clock and goal-interruption timer (16 bits
/// each), period and own player slot (8 bits each); from the next byte
/// boundary the id of this packet and the id of the packet that its
/// differences refer to, 32 bits each.
pub open spec fn update_header(msg: Seq<u8>) -> HQMUpdateHeader {
    HQMUpdateHeader {
        game_id: le32_at(msg, 5) as u32,
        step: le32_at(msg, 9) as u32,
        game_over: bits_value(msg, 104, 1) == 1,
        red_score: bits_value(msg, 105, 8) as u32,
        blue_score: bits_value(msg, 113, 8) as u32,
        time: bits_value(msg, 121, 16) as u32,
        goal_time: bits_value(msg, 137, 16) as u32,
        period: bits_value(msg, 153, 8) as u32,
        yourself: bits_value(msg, 161, 8) as usize,
        packet: le32_at(msg, 22) as u32,
        base: le32_at(msg, 26) as u32,
    }
}

/// Where the snapshot of a packet is remembered.
pub open spec fn cache_slot(packet: u32) -> int {
    packet as int % (CACHE_SIZE as int)
}

/// The object table of an update, decoded against what the session
/// remembers of the base packet, and the first bit after the table.
pub open spec fn update_table(s: SessionView, msg: Seq<u8>) -> Result<
    (Seq<HQMObjectPacket>, int),
    HQMDecodeError,
> {
    table_at(msg, TABLE_START as int, s.saved_packets[cache_slot(update_header(msg).base)])
}

/// The acknowledged packet id after a packet: the packet's id where it is
/// the first seen or greater.
pub open spec fn packet_advanced(known: u32, packet: u32) -> u32 {
    if known == NO_PACKET || known < packet {
        packet
    } else {
        known
    }
}

/// The acknowledged message position after a batch that ends just before
/// `next`: `next`, cut to 16 bits, where that is greater.
pub open spec fn msgpos_advanced(known: u16, next: nat) -> u16 {
    if (known as nat) < next % 65536 {
        (next % 65536) as u16
    } else {
        known
    }
}

/// What an update datagram does: where its object table decodes, the
/// session remembers the table under the packet's id, its roster follows
/// the message batch, and both acknowledgements move forward; the tick's
/// state holds the head's fields, the table in game coordinates and the
/// roster after the batch; the messages are those of the batch at or beyond
/// the acknowledged position.
#[verifier::opaque]
pub open spec fn update_applied(s: SessionView, msg: Seq<u8>) -> Result<Applied, HQMDecodeError> {
    match update_table(s, msg) {
        Err(e) => Err(e),
        Ok((table, end)) => {
            let head = update_header(msg);
            let log = batch_at(msg, end).0;
            let players = roster_after(s.players, log);
            Ok(
                Applied {
                    session: SessionView {
                        name: s.name,
                        current_game: s.current_game,
                        known_packet: packet_advanced(s.known_packet, head.packet),
                        chat_rep: s.chat_rep,
                        known_msgpos: msgpos_advanced(
                            s.known_msgpos,
                            batch_start(msg, end) + batch_count(msg, end),
                        ),
                        players,
                        saved_packets: s.saved_packets.update(
                            cache_slot(head.packet),
                            Some(table),
                        ),
                    },
                    state: HQMGameStateView {
                        red_score: head.red_score,
                        blue_score: head.blue_score,
                        time: head.time,
                        period: head.period,
                        goal_interruption: head.goal_time > 0,
                        game_over: head.game_over,
                        objects: table_state(table),
                        yourself: head.yourself,
                        players,
                        game_id: head.game_id,
                        step: head.step,
                    },
                    messages: retained(log, s.known_msgpos as nat),
                },
            )
        },
    }
}

/// The session after a datagram has been taken in, before the reply is
/// sent. A datagram without the magic bytes, with an unknown command, or
/// with an update that cannot be decoded leaves the session as it was.
pub open spec fn received(s: SessionView, msg: Seq<u8>) -> SessionView {
    if !frame_ok(msg) {
        s
    } else if frame_command(msg) == COMMAND_UPDATE {
        match update_applied(s, msg) {
            Ok(applied) => applied.session,
            Err(_) => s,
        }
    } else if frame_command(msg) == COMMAND_NEW_GAME {
        game_changed(s, announced_game(msg))
    } else {
        s
    }
}

/// The datagram is an update that decodes, so the decision logic is asked.
pub open spec fn tick_due(s: SessionView, msg: Seq<u8>) -> bool {
    frame_ok(msg) && frame_command(msg) == COMMAND_UPDATE && update_applied(s, msg) is Ok
}

/// The reason reported with the reply: the decode error of an update that
/// cannot be decoded.
pub open spec fn failure_of(s: SessionView, msg: Seq<u8>) -> Option<HQMDecodeError> {
    if frame_ok(msg) && frame_command(msg) == COMMAND_UPDATE {
        match update_applied(s, msg) {
            Ok(_) => None,
            Err(e) => Some(e),
        }
    } else {
        None
    }
}

/// The session after a reply has been sent: a chat line moves the chat
/// sequence number on by one, modulo 8.
pub open spec fn sent(s: SessionView, with_chat: bool) -> SessionView {
    if with_chat {
        SessionView {
            name: s.name,
            current_game: s.current_game,
            known_packet: s.known_packet,
            chat_rep: ((s.chat_rep + 1) % 8) as u32,
            known_msgpos: s.known_msgpos,
            players: s.players,
            saved_packets: s.saved_packets,
        }
    } else {
        s
    }
}

/// The reply of a session that carries the given input and chat text.
pub open spec fn reply_datagram(s: SessionView, input: HQMPlayerInput, chat: Option<Seq<u8>>) -> Seq<
    u8,
> {
    update_datagram(
        s.current_game,
        input,
        s.known_packet,
        s.known_msgpos,
        s.chat_rep as nat,
        chat,
    )
}

/// The session after `k` replies that each carried a chat line.
pub open spec fn after_chats(s: SessionView, k: nat) -> SessionView
    decreases k,
{
    if k == 0 {
        s
    } else {
        sent(after_chats(s, (k - 1) as nat), true)
    }
}

/// A game-change notice for the current game changes nothing: the session
/// after the notice and its reply is the session before.
pub proof fn lemma_same_game_is_noop(s: SessionView, msg: Seq<u8>)
    requires
        frame_ok(msg),
        frame_command(msg) == COMMAND_NEW_GAME,
        announced_game(msg) == s.current_game,
    ensures
        received(s, msg) == s,
        !tick_due(s, msg),
        sent(received(s, msg), false) == s,
{
}

/// While the game stays the same, no datagram and no reply moves an
/// acknowledgement back: the message position never decreases, and the
/// packet id, once an update has been seen, never decreases.
pub proof fn lemma_watermarks_monotonic(s: SessionView, msg: Seq<u8>, with_chat: bool)
    requires
        session_wf(s),
    ensures
        ({
            let after = sent(received(s, msg), with_chat);
            after.current_game == s.current_game ==> {
                &&& after.known_msgpos >= s.known_msgpos
                &&& (s.known_packet != NO_PACKET ==> after.known_packet >= s.known_packet)
            }
        }),
{
    reveal(update_applied);
}

/// A datagram that cannot be used leaves the session as it was: one without
/// the magic bytes, and an update whose object table does not decode.
pub proof fn lemma_unusable_is_inert(s: SessionView, msg: Seq<u8>)
    requires
        !frame_ok(msg) || (frame_command(msg) == COMMAND_UPDATE && update_applied(s, msg) is Err),
    ensures
        received(s, msg) == s,
        !tick_due(s, msg),
{
}

/// Taking in a datagram keeps the session's invariant.
pub proof fn lemma_received_wf(s: SessionView, msg: Seq<u8>)
    requires
        session_wf(s),
    ensures
        session_wf(received(s, msg)),
        forall|with_chat: bool| session_wf(#[trigger] sent(received(s, msg), with_chat)),
{
    reveal(update_applied);
    if frame_ok(msg) && frame_command(msg) == COMMAND_UPDATE {
        match update_table(s, msg) {
            Ok((table, end)) => {
                crate::snapshot::lemma_table_len(
                    msg,
                    TABLE_START as int,
                    s.saved_packets[cache_slot(update_header(msg).base)],
                    SLOT_COUNT as nat,
                );
                lemma_batch_keeps_roster_wf(s.players, msg, end);
            },
            Err(_) => {},
        }
    }
}

/// The chat sequence number counts the chat lines sent, modulo 8, whatever
/// they say: after `k` of them it has moved on by `k`. A reply without a
/// chat line leaves it alone.
pub proof fn lemma_chat_counter_advances(s: SessionView, k: nat)
    requires
        session_wf(s),
    ensures
        after_chats(s, k).chat_rep == (s.chat_rep + k) % 8,
        sent(s, false).chat_rep == s.chat_rep,
    decreases k,
{
    if k > 0 {
        lemma_chat_counter_advances(s, (k - 1) as nat);
        let before = after_chats(s, (k - 1) as nat);
        assert(after_chats(s, k).chat_rep == (before.chat_rep + 1) % 8);
    }
}

/// After eight chat lines the chat sequence number is back where it was.
pub proof fn lemma_chat_counter_cycles(s: SessionView)
    requires
        session_wf(s),
    ensures
        after_chats(s, 8).chat_rep == s.chat_rep,
{
    lemma_chat_counter_advances(s, 8);
}

/// When the session remembers nothing of the base packet that an update
/// names, the object table is decoded without any previous value.
pub proof fn lemma_unknown_base_decodes_absolute(s: SessionView, msg: Seq<u8>)
    requires
        s.saved_packets[cache_slot(update_header(msg).base)] is None,
    ensures
        update_table(s, msg) == table_at(msg, TABLE_START as int, None),
{
}

/// A remembered table, where there is one, as a sequence.
pub open spec fn remembered(entry: Option<Vec<HQMObjectPacket>>) -> Option<Seq<HQMObjectPacket>> {
    match entry {
        Some(t) => Some(t@),
        None => None,
    }
}

impl<T: HQMBotLogic> View for HQMBotSession<T> {
    type V = SessionView;

    closed spec fn view(&self) -> SessionView {
        SessionView {
            name: self.name@,
            current_game: self.current_game,
            known_packet: self.known_packet,
            chat_rep: self.chat_rep,
            known_msgpos: self.known_msgpos,
            players: roster_view(self.players@),
            saved_packets: self.saved_packets@.map_values(
                |e: Option<Vec<HQMObjectPacket>>| remembered(e),
            ),
        }
    }
}

/// Reads the head of an update datagram, from the first bit of the
/// datagram to the start of the object table.
pub fn read_update_header(reader: &mut HQMMessageReader) -> (r: HQMUpdateHeader)
    requires
        old(reader).wf(),
        old(reader).cursor() == 0,
    ensures
        final(reader).wf(),
        final(reader).data() == old(reader).data(),
        final(reader).cursor() == TABLE_START,
        r == update_header(old(reader).data()),
{
    proof {
        let msg = reader.data();
        vstd::arithmetic::power2::lemma2_to64();
        lemma_bits_value_bound(msg, 105, 8);
        lemma_bits_value_bound(msg, 113, 8);
        lemma_bits_value_bound(msg, 121, 16);
        lemma_bits_value_bound(msg, 137, 16);
        lemma_bits_value_bound(msg, 153, 8);
        lemma_bits_value_bound(msg, 161, 8);
    }
    let _ = reader.read_u32_aligned();
    let _ = reader.read_byte_aligned();
    let game_id: u32 = reader.read_u32_aligned();
    let step: u32 = reader.read_u32_aligned();
    let game_over: bool = reader.read_bits(1) == 1;
    let red_score: u32 = reader.read_bits(8);
    let blue_score: u32 = reader.read_bits(8);
    let time: u32 = reader.read_bits(16);
    let goal_time: u32 = reader.read_bits(16);
    let period: u32 = reader.read_bits(8);
    let yourself: usize = reader.read_bits(8) as usize;
    let packet: u32 = reader.read_u32_aligned();
    let base: u32 = reader.read_u32_aligned();
    HQMUpdateHeader {
        game_id,
        step,
        game_over,
        red_score,
        blue_score,
        time,
        goal_time,
        period,
        yourself,
        packet,
        base,
    }
}

/// A cache of `CACHE_SIZE` empty entries.
fn new_cache() -> (r: Vec<Option<Vec<HQMObjectPacket>>>)
    ensures
        r@.len() == CACHE_SIZE,
        forall|i: int| 0 <= i < r@.len() ==> r@[i] is None,
{
    let mut cache: Vec<Option<Vec<HQMObjectPacket>>> = Vec::new();
    let mut i: usize = 0;
    while i < CACHE_SIZE
        invariant
            i <= CACHE_SIZE,
            cache@.len() == i,
            forall|j: int| 0 <= j < cache@.len() ==> cache@[j] is None,
        decreases CACHE_SIZE - i,
    {
        cache.push(None);
        i = i + 1;
    }
    cache
}

impl<T: HQMBotLogic> HQMBotSession<T> {
    /// The session's knowledge satisfies its invariant.
    pub open spec fn wf(&self) -> bool {
        session_wf(self@)
    }

    /// The decision logic that the session drives.
    pub closed spec fn logic_view(&self) -> T {
        self.logic
    }

    /// A session for the player `name`, driven by `logic`, before its first
    /// datagram.
    pub fn new(name: String, logic: T) -> (r: Self)
        ensures
            r.wf(),
            r@ == initial_session(name@),
            r.logic_view() == logic,
    {
        let r = HQMBotSession {
            name,
            current_game: NO_GAME,
            known_packet: NO_PACKET,
            chat_rep: 0,
            known_msgpos: 0,
            players: HashMap::new(),
            saved_packets: new_cache(),
            logic,
        };
        assert(r@.players =~= Map::empty());
        assert(r@.saved_packets =~= empty_cache());
        r
    }

    /// The id of the current game, `NO_GAME` before the first notice.
    pub fn current_game(&self) -> (r: u32)
        ensures
            r == self@.current_game,
    {
        self.current_game
    }

    /// The highest packet id seen in the current game, `NO_PACKET` before
    /// the first update.
    pub fn known_packet(&self) -> (r: u32)
        ensures
            r == self@.known_packet,
    {
        self.known_packet
    }

    /// The message position up to which the log has been taken in.
    pub fn known_msgpos(&self) -> (r: u16)
        ensures
            r == self@.known_msgpos,
    {
        self.known_msgpos
    }

    /// The sequence number that the next chat line will carry.
    pub fn chat_rep(&self) -> (r: u32)
        ensures
            r == self@.chat_rep,
    {
        self.chat_rep
    }

    /// The roster.
    pub fn players(&self) -> (r: &HashMap<usize, HQMPlayer>)
        ensures
            roster_view(r@) == self@.players,
    {
        &self.players
    }

    /// The snapshot remembered for a packet id, if any.
    pub fn saved_packet(&self, packet: u32) -> (r: Option<&Vec<HQMObjectPacket>>)
        requires
            self.wf(),
        ensures
            crate::snapshot::table_view(r) == self@.saved_packets[cache_slot(packet)],
    {
        let slot: usize = (packet % 256) as usize;
        match &self.saved_packets[slot] {
            Some(t) => Some(t),
            None => None,
        }
    }

    /// The decision logic.
    pub fn logic(&self) -> (r: &T)
        ensures
            *r == self.logic_view(),
    {
        &self.logic
    }

    /// The join request of this session's player.
    pub fn join_message(&self) -> (r: Vec<u8>)
        ensures
            r@ == join_datagram(self@.name),
    {
        encode_join(self.name.as_str())
    }

    /// Takes in a game-change notice. Returns whether the game is another
    /// one than before, in which case the session starts over.
    pub fn apply_game_change(&mut self, game: u32) -> (r: bool)
        requires
            old(self).wf(),
        ensures
            final(self).wf(),
            final(self)@ == game_changed(old(self)@, game),
            final(self).logic_view() == old(self).logic_view(),
            r == (old(self)@.current_game != game),
    {
        if self.current_game != game {
            self.current_game = game;
            self.known_packet = NO_PACKET;
            self.known_msgpos = 0;
            self.chat_rep = 0;
            self.saved_packets = new_cache();
            self.players.clear();
            assert(self@.players =~= Map::empty());
            assert(self@.saved_packets =~= empty_cache());
            true
        } else {
            false
        }
    }

    /// Takes in an update datagram whose first five bytes, magic and
    /// command, have been checked.
    ///
    /// Where the object table decodes, the session remembers it under the
    /// packet's id, applies the roster updates of the message batch, moves
    /// both acknowledgements forward, and returns the state of the tick
    /// with the messages that are new. Where it does not, the session stays
    /// exactly as it was and the error is returned.
    pub fn apply_update(&mut self, msg: &[u8]) -> (r: Result<
        (HQMGameState, Vec<HQMMessage>),
        HQMDecodeError,
    >)
        requires
            old(self).wf(),
        ensures
            final(self).wf(),
            final(self).logic_view() == old(self).logic_view(),
            match update_applied(old(self)@, msg@) {
                Ok(applied) => {
                    &&& r is Ok
                    &&& final(self)@ == applied.session
                    &&& r->Ok_0.0@ == applied.state
                    &&& messages_view(r->Ok_0.1@) == applied.messages
                },
                Err(e) => r is Err && r->Err_0 == e && final(self)@ == old(self)@,
            },
    {
        proof {
            reveal(update_applied);
        }
        let mut reader: HQMMessageReader = HQMMessageReader::new(msg);
        let head: HQMUpdateHeader = read_update_header(&mut reader);
        let packet: u32 = head.packet;
        let base: u32 = head.base;
        let base_slot: usize = (base % 256) as usize;
        let previous: Option<&Vec<HQMObjectPacket>> = match &self.saved_packets[base_slot] {
            Some(t) => Some(t),
            None => None,
        };
        let table: Vec<HQMObjectPacket> = match read_object_table(&mut reader, previous) {
            Ok(table) => table,
            Err(e) => {
                return Err(e);
            },
        };
        let ghost end = reader.cursor();
        proof {
            lemma_batch_keeps_roster_wf(old(self)@.players, msg@, end);
        }
        let objects = reconstruct(&table);
        let (messages, next) = read_message_log(&mut reader, self.known_msgpos, &mut self.players);
        let state = HQMGameState {
            red_score: head.red_score,
            blue_score: head.blue_score,
            time: head.time,
            period: head.period,
            goal_interruption: head.goal_time > 0,
            game_over: head.game_over,
            objects,
            yourself: head.yourself,
            players: self.players.clone(),
            game_id: head.game_id,
            step: head.step,
        };
        let next_pos: u16 = (next % 65536) as u16;
        if self.known_msgpos < next_pos {
            self.known_msgpos = next_pos;
        }
        let slot: usize = (packet % 256) as usize;
        self.saved_packets.set(slot, Some(table));
        if self.known_packet == NO_PACKET || self.known_packet < packet {
            self.known_packet = packet;
        }
        proof {
            let applied = update_applied(old(self)@, msg@)->Ok_0;
            assert(self@.saved_packets =~= applied.session.saved_packets);
        }
        Ok((state, messages))
    }

    /// Builds the reply that carries `input` and, where there is one, the
    /// chat line. A chat line takes the current chat sequence number and
    /// moves it on by one, modulo 8, whatever the text.
    pub fn send_update(&mut self, input: &HQMPlayerInput, chat: Option<String>) -> (r: Vec<u8>)
        requires
            old(self).wf(),
        ensures
            final(self).wf(),
            r@ == reply_datagram(old(self)@, *input, chat_bytes(chat)),
            final(self)@ == sent(old(self)@, chat is Some),
            final(self).logic_view() == old(self).logic_view(),
    {
        let datagram: Vec<u8> = encode_update(
            self.current_game,
            input,
            self.known_packet,
            self.known_msgpos,
            self.chat_rep,
            &chat,
        );
        if chat.is_some() {
            self.chat_rep = (self.chat_rep + 1) % 8;
        }
        datagram
    }

    /// Takes in one received datagram and answers it.
    ///
    /// A datagram that does not open with the magic bytes is ignored: there
    /// is no reply and the session stays as it was. Every other datagram is
    /// answered with one update datagram. A game-change notice for another
    /// game resets the session and tells the decision logic. A state update
    /// that decodes is taken in and shown to the decision logic, whose input
    /// and chat line the reply carries. In every other case the reply
    /// carries the idle input and no chat; an update that does not decode
    /// leaves the session as it was and is reported in the reply.
    pub fn handle_message(&mut self, msg: &[u8]) -> (r: Option<HQMReply>)
        requires
            old(self).wf(),
        ensures
            final(self).wf(),
            r is Some <==> frame_ok(msg@),
            !frame_ok(msg@) ==> final(self)@ == old(self)@ && final(self).logic_view() == old(
                self,
            ).logic_view(),
            r is Some ==> r->0.failure == failure_of(old(self)@, msg@),
            r is Some ==> exists|input: HQMPlayerInput, chat: Option<Seq<u8>>|
                {
                    &&& r->0.datagram@ == #[trigger] reply_datagram(
                        received(old(self)@, msg@),
                        input,
                        chat,
                    )
                    &&& final(self)@ == sent(received(old(self)@, msg@), chat is Some)
                    &&& !tick_due(old(self)@, msg@) ==> input == idle_input() && chat is None
                },
    {
        let mut reader: HQMMessageReader = HQMMessageReader::new(msg);
        let header: Vec<u8> = reader.read_bytes_aligned(4);
        if !(header[0] == 0x48 && header[1] == 0x6f && header[2] == 0x63 && header[3] == 0x6b) {
            return None;
        }
        let command: u8 = reader.read_byte_aligned();
        let mut input: HQMPlayerInput = HQMPlayerInput::default();
        let mut chat: Option<String> = None;
        let mut failure: Option<HQMDecodeError> = None;
        if command == COMMAND_UPDATE {
            match self.apply_update(msg) {
                Ok((state, messages)) => {
                    let (new_input, new_chat) = self.logic.tick(&state, messages.as_slice());
                    input = new_input;
                    chat = new_chat;
                },
                Err(e) => {
                    failure = Some(e);
                },
            }
        } else if command == COMMAND_NEW_GAME {
            let game: u32 = reader.read_u32_aligned();
            if self.apply_game_change(game) {
                self.logic.new_game();
            }
        }
        assert(self@ == received(old(self)@, msg@));
        let ghost chat_sent = chat_bytes(chat);
        let datagram: Vec<u8> = self.send_update(&input, chat);
        assert(datagram@ == reply_datagram(received(old(self)@, msg@), input, chat_sent));
        Some(HQMReply { datagram, failure })
    }
}

} // verus!
