use hqm_bot::codec::HQMMessageWriter;
use hqm_bot::empty_bot::EmptyBot;
use hqm_bot::game::{
    HQMGameState, HQMGameStateObject, HQMGameStatePuck, HQMGameStateSkater, HQMMessage,
    HQMPlayerInput, HQMTeam, ANGLE_UNITS, BODY_ROT_BITS, POSITION_UNITS, STICK_ROT_BITS,
};
use hqm_bot::session::{HQMBotLogic, HQMBotSession, NO_GAME, NO_PACKET};
use hqm_bot::snapshot::{
    read_object_table, reconstruct, HQMDecodeError, HQMObjectPacket, HQMPuckPacket,
    HQMSkaterPacket,
};

struct Recorder {
    new_games: usize,
    states: Vec<HQMGameState>,
    messages: Vec<Vec<HQMMessage>>,
    input: HQMPlayerInput,
    chat: Option<String>,
}

impl Recorder {
    fn new() -> Self {
        Recorder {
            new_games: 0,
            states: Vec::new(),
            messages: Vec::new(),
            input: HQMPlayerInput::default(),
            chat: None,
        }
    }

    fn chatting(text: &str) -> Self {
        Recorder { chat: Some(text.to_string()), ..Recorder::new() }
    }
}

impl HQMBotLogic for Recorder {
    fn new_game(&mut self) {
        self.new_games += 1;
    }

    fn tick(
        &mut self,
        state: &HQMGameState,
        messages: &[HQMMessage],
    ) -> (HQMPlayerInput, Option<String>) {
        self.states.push(state.clone());
        self.messages.push(messages.to_vec());
        (self.input, self.chat.clone())
    }
}

fn session() -> HQMBotSession<Recorder> {
    HQMBotSession::new("bot".to_string(), Recorder::new())
}

fn game_change(game: u32) -> Vec<u8> {
    let mut writer = HQMMessageWriter::new();
    writer.write_bytes_aligned(b"Hock");
    writer.write_byte_aligned(6);
    writer.write_u32_aligned(game);
    writer.into_bytes()
}

fn begin_update(packet: u32, base: u32) -> HQMMessageWriter {
    let mut writer = HQMMessageWriter::new();
    writer.write_bytes_aligned(b"Hock");
    writer.write_byte_aligned(5);
    writer.write_u32_aligned(77);
    writer.write_u32_aligned(1234);
    writer.write_bits(1, 0);
    writer.write_bits(8, 3);
    writer.write_bits(8, 2);
    writer.write_bits(16, 30000);
    writer.write_bits(16, 0);
    writer.write_bits(8, 1);
    writer.write_bits(8, 9);
    writer.write_u32_aligned(packet);
    writer.write_u32_aligned(base);
    writer
}

fn absolute(writer: &mut HQMMessageWriter, width: u8, value: u32) {
    writer.write_bits(2, 3);
    writer.write_bits(width, value);
}

fn short_difference(writer: &mut HQMMessageWriter, diff: u32) {
    writer.write_bits(2, 0);
    writer.write_bits(3, diff);
}

fn empty_slots(writer: &mut HQMMessageWriter, n: usize) {
    for _ in 0..n {
        writer.write_bits(1, 0);
    }
}

fn absolute_skater(writer: &mut HQMMessageWriter, s: &HQMSkaterPacket) {
    writer.write_bits(1, 1);
    writer.write_bits(2, 0);
    absolute(writer, 17, s.pos.0);
    absolute(writer, 17, s.pos.1);
    absolute(writer, 17, s.pos.2);
    absolute(writer, 31, s.rot.0);
    absolute(writer, 31, s.rot.1);
    absolute(writer, 13, s.stick_pos.0);
    absolute(writer, 13, s.stick_pos.1);
    absolute(writer, 13, s.stick_pos.2);
    absolute(writer, 25, s.stick_rot.0);
    absolute(writer, 25, s.stick_rot.1);
    absolute(writer, 16, s.head_rot);
    absolute(writer, 16, s.body_rot);
}

fn absolute_puck(writer: &mut HQMMessageWriter, p: &HQMPuckPacket) {
    writer.write_bits(1, 1);
    writer.write_bits(2, 1);
    absolute(writer, 17, p.pos.0);
    absolute(writer, 17, p.pos.1);
    absolute(writer, 17, p.pos.2);
    absolute(writer, 31, p.rot.0);
    absolute(writer, 31, p.rot.1);
}

fn batch(writer: &mut HQMMessageWriter, count: u32, start: u32) {
    writer.write_bits(4, count);
    writer.write_bits(16, start);
}

fn text(writer: &mut HQMMessageWriter, text: &[u8], len: usize) {
    for i in 0..len {
        writer.write_bits(7, if i < text.len() { text[i] as u32 } else { 0 });
    }
}

fn roster_update(
    writer: &mut HQMMessageWriter,
    index: u32,
    online: bool,
    team: u32,
    object: u32,
    name: &str,
) {
    writer.write_bits(6, 0);
    writer.write_bits(6, index);
    writer.write_bits(1, online as u32);
    writer.write_bits(2, team);
    writer.write_bits(6, object);
    text(writer, name.as_bytes(), 31);
}

fn goal(writer: &mut HQMMessageWriter, team: u32, scorer: u32, assist: u32) {
    writer.write_bits(6, 1);
    writer.write_bits(2, team);
    writer.write_bits(6, scorer);
    writer.write_bits(6, assist);
}

fn chat(writer: &mut HQMMessageWriter, sender: u32, line: &str) {
    writer.write_bits(6, 2);
    writer.write_bits(6, sender);
    writer.write_bits(6, line.len() as u32);
    text(writer, line.as_bytes(), line.len());
}

fn plain_update(packet: u32, base: u32) -> Vec<u8> {
    let mut writer = begin_update(packet, base);
    empty_slots(&mut writer, 32);
    batch(&mut writer, 0, 0);
    writer.into_bytes()
}

fn update_with_batch(packet: u32, start: u32, count: u32) -> Vec<u8> {
    let mut writer = begin_update(packet, 0);
    empty_slots(&mut writer, 32);
    batch(&mut writer, count, start);
    for _ in 0..count {
        goal(&mut writer, 0, 1, 63);
    }
    writer.into_bytes()
}

fn sample_skater() -> HQMSkaterPacket {
    HQMSkaterPacket {
        pos: (1024, 2048, 0),
        rot: (5, 6),
        stick_pos: (4096, 5120, 0),
        stick_rot: (7, 8),
        head_rot: 0,
        body_rot: 8192,
    }
}

fn skater_update(packet: u32, base: u32) -> Vec<u8> {
    let mut writer = begin_update(packet, base);
    absolute_skater(&mut writer, &sample_skater());
    empty_slots(&mut writer, 31);
    batch(&mut writer, 0, 0);
    writer.into_bytes()
}

#[test]
fn new_session_is_unbound() {
    let s = session();
    assert_eq!(s.current_game(), NO_GAME);
    assert_eq!(s.current_game(), u32::MAX);
    assert_eq!(s.known_packet(), NO_PACKET);
    assert_eq!(s.known_packet(), u32::MAX);
    assert_eq!(s.known_msgpos(), 0);
    assert_eq!(s.chat_rep(), 0);
    assert!(s.players().is_empty());
    for id in 0..256u32 {
        assert!(s.saved_packet(id).is_none());
    }
    assert_eq!(s.logic().new_games, 0);
}

#[test]
fn join_message_of_a_session() {
    let s = session();
    let datagram = s.join_message();
    assert_eq!(&datagram[..6], b"Hock\x02\x37");
    assert_eq!(&datagram[6..9], b"bot");
    assert_eq!(&datagram[9..], &[0u8; 29]);
}

#[test]
fn game_change_binds_an_unbound_session() {
    let mut s = session();
    let mut writer = begin_update(4, 0);
    absolute_skater(&mut writer, &sample_skater());
    empty_slots(&mut writer, 31);
    batch(&mut writer, 1, 0);
    roster_update(&mut writer, 3, true, 0, 0, "Al");
    assert!(s.handle_message(&writer.into_bytes()).is_some());
    assert_eq!(s.players().len(), 1);
    assert!(s.saved_packet(4).is_some());
    assert_eq!(s.known_packet(), 4);
    assert_eq!(s.known_msgpos(), 1);

    let reply = s.handle_message(&game_change(42)).unwrap();
    assert_eq!(s.current_game(), 42);
    assert_eq!(s.logic().new_games, 1);
    assert_eq!(s.known_packet(), NO_PACKET);
    assert_eq!(s.known_msgpos(), 0);
    assert_eq!(s.chat_rep(), 0);
    assert!(s.players().is_empty());
    for id in 0..256u32 {
        assert!(s.saved_packet(id).is_none());
    }
    assert!(reply.failure.is_none());
    assert_eq!(
        reply.datagram,
        hqm_bot::outbound::encode_update(42, &HQMPlayerInput::default(), NO_PACKET, 0, 0, &None)
    );
    assert_eq!(s.logic().states.len(), 1);
}

#[test]
fn game_change_from_a_fresh_session() {
    let mut s = session();
    assert!(s.handle_message(&game_change(42)).is_some());
    assert_eq!(s.current_game(), 42);
    assert_eq!(s.logic().new_games, 1);
    assert!(s.logic().states.is_empty());
}

#[test]
fn game_change_with_the_same_id_changes_nothing() {
    let mut s = HQMBotSession::new("bot".to_string(), Recorder::chatting("hey"));
    s.handle_message(&game_change(42));
    let mut writer = begin_update(4, 0);
    absolute_skater(&mut writer, &sample_skater());
    empty_slots(&mut writer, 31);
    batch(&mut writer, 2, 10);
    roster_update(&mut writer, 3, true, 1, 0, "Al");
    goal(&mut writer, 1, 3, 63);
    s.handle_message(&writer.into_bytes());
    assert_eq!(s.chat_rep(), 1);

    let table_before = s.saved_packet(4).cloned();
    let reply = s.handle_message(&game_change(42)).unwrap();
    assert_eq!(s.logic().new_games, 1);
    assert_eq!(s.current_game(), 42);
    assert_eq!(s.known_packet(), 4);
    assert_eq!(s.known_msgpos(), 12);
    assert_eq!(s.chat_rep(), 1);
    assert_eq!(s.players().len(), 1);
    let player = &s.players()[&3];
    assert_eq!(player.name, "Al");
    assert_eq!(player.index, 3);
    assert_eq!(player.object_index, Some((0, HQMTeam::Blue)));
    assert_eq!(s.saved_packet(4).cloned(), table_before);
    assert!(table_before.is_some());
    assert_eq!(reply.datagram.len(), 52);
    assert_eq!(s.logic().states.len(), 1);
}

#[test]
fn game_change_to_another_game_tells_the_logic_each_time() {
    let mut s = session();
    s.handle_message(&game_change(1));
    s.handle_message(&game_change(1));
    s.handle_message(&game_change(2));
    s.handle_message(&game_change(1));
    assert_eq!(s.logic().new_games, 3);
    assert_eq!(s.current_game(), 1);
}

#[test]
fn apply_game_change_reports_a_new_game() {
    let mut s = session();
    assert!(s.apply_game_change(9));
    assert!(!s.apply_game_change(9));
    assert!(s.apply_game_change(NO_GAME));
    assert_eq!(s.logic().new_games, 0);
}

#[test]
fn frame_mismatch_is_inert() {
    let mut s = session();
    s.handle_message(&plain_update(3, 0));
    let mut bad = plain_update(9, 0);
    bad[0] = b'h';
    assert!(s.handle_message(&bad).is_none());
    assert!(s.handle_message(b"Hoc").is_none());
    assert!(s.handle_message(b"").is_none());
    assert!(s.handle_message(b"Hocl\x06\x01\x00\x00\x00").is_none());
    assert_eq!(s.known_packet(), 3);
    assert_eq!(s.current_game(), NO_GAME);
    assert_eq!(s.logic().states.len(), 1);
    assert_eq!(s.logic().new_games, 0);
}

#[test]
fn unknown_command_is_answered_with_an_idle_update() {
    let mut s = HQMBotSession::new("bot".to_string(), Recorder::chatting("hey"));
    let reply = s.handle_message(b"Hock\x09abc").unwrap();
    assert!(reply.failure.is_none());
    assert_eq!(
        reply.datagram,
        hqm_bot::outbound::encode_update(NO_GAME, &HQMPlayerInput::default(), NO_PACKET, 0, 0, &None)
    );
    assert_eq!(s.chat_rep(), 0);
    assert!(s.logic().states.is_empty());
    let reply = s.handle_message(b"Hock").unwrap();
    assert_eq!(reply.datagram.len(), 52);
}

#[test]
fn update_while_unbound_is_taken_at_face_value() {
    let mut s = session();
    let reply = s.handle_message(&plain_update(500, 499)).unwrap();
    assert_eq!(s.current_game(), NO_GAME);
    assert_eq!(s.known_packet(), 500);
    assert_eq!(s.logic().states.len(), 1);
    assert_eq!(&reply.datagram[5..9], &[0xff, 0xff, 0xff, 0xff]);
    assert_eq!(&reply.datagram[45..49], &500u32.to_le_bytes());
}

#[test]
fn update_header_fields() {
    let mut s = session();
    let mut writer = HQMMessageWriter::new();
    writer.write_bytes_aligned(b"Hock");
    writer.write_byte_aligned(5);
    writer.write_u32_aligned(0x0a0b_0c0d);
    writer.write_u32_aligned(99);
    writer.write_bits(1, 1);
    writer.write_bits(8, 200);
    writer.write_bits(8, 100);
    writer.write_bits(16, 65535);
    writer.write_bits(16, 1);
    writer.write_bits(8, 4);
    writer.write_bits(8, 255);
    writer.write_u32_aligned(8);
    writer.write_u32_aligned(7);
    empty_slots(&mut writer, 32);
    batch(&mut writer, 0, 0);
    let (state, messages) = s.apply_update(&writer.into_bytes()).unwrap();
    assert_eq!(state.game_id, 0x0a0b_0c0d);
    assert_eq!(state.step, 99);
    assert!(state.game_over);
    assert_eq!(state.red_score, 200);
    assert_eq!(state.blue_score, 100);
    assert_eq!(state.time, 65535);
    assert!(state.goal_interruption);
    assert_eq!(state.period, 4);
    assert_eq!(state.yourself, 255);
    assert_eq!(state.objects, vec![HQMGameStateObject::Empty; 32]);
    assert!(state.players.is_empty());
    assert!(messages.is_empty());
    assert_eq!(s.known_packet(), 8);
}

#[test]
fn update_without_goal_interruption() {
    let mut s = session();
    let (state, _) = s.apply_update(&plain_update(1, 0)).unwrap();
    assert!(!state.goal_interruption);
    assert!(!state.game_over);
    assert_eq!(state.red_score, 3);
    assert_eq!(state.blue_score, 2);
    assert_eq!(state.time, 30000);
    assert_eq!(state.period, 1);
    assert_eq!(state.yourself, 9);
    assert_eq!(state.game_id, 77);
    assert_eq!(state.step, 1234);
}

#[test]
fn truncated_update_reads_as_zeros() {
    let mut s = session();
    let reply = s.handle_message(b"Hock\x05").unwrap();
    assert!(reply.failure.is_none());
    assert_eq!(s.known_packet(), 0);
    assert_eq!(s.logic().states.len(), 1);
    let state = &s.logic().states[0];
    assert_eq!(state.objects, vec![HQMGameStateObject::Empty; 32]);
    assert_eq!(state.step, 0);
}

#[test]
fn skater_without_previous_packet_decodes_absolutely() {
    let mut s = session();
    let reply = s.handle_message(&skater_update(1, 0)).unwrap();
    assert!(reply.failure.is_none());
    let state = &s.logic().states[0];
    assert_eq!(state.objects.len(), 32);
    let skater = match state.objects[0] {
        HQMGameStateObject::Skater(skater) => skater,
        _ => panic!("slot 0 holds no skater"),
    };
    assert_eq!(skater.pos, (1024, 2048, 0));
    let scale = POSITION_UNITS as f32;
    assert_eq!(skater.pos.0 as f32 / scale, 1.0);
    assert_eq!(skater.pos.1 as f32 / scale, 2.0);
    assert_eq!(skater.pos.2 as f32 / scale, 0.0);
    assert_eq!(skater.rot, (5, 6));
    assert_eq!(skater.stick_rot, (7, 8));
    assert_eq!(skater.stick_pos, (1024, 3072, -4096));
    assert_eq!(skater.stick_pos.0 as f32 / scale, 1.0);
    assert_eq!(skater.stick_pos.1 as f32 / scale, 3.0);
    assert_eq!(skater.stick_pos.2 as f32 / scale, -4.0);
    assert_eq!(skater.head_rot as f32 / ANGLE_UNITS as f32, 2.0);
    assert_eq!(skater.body_rot as f32 / ANGLE_UNITS as f32, 3.0);
    for slot in 1..32 {
        assert_eq!(state.objects[slot], HQMGameStateObject::Empty);
    }
    assert_eq!(POSITION_UNITS, 1024);
    assert_eq!(ANGLE_UNITS, 8192);
    assert_eq!(BODY_ROT_BITS, 31);
    assert_eq!(STICK_ROT_BITS, 25);
}

#[test]
fn puck_decodes_absolutely() {
    let mut s = session();
    let mut writer = begin_update(1, 0);
    empty_slots(&mut writer, 2);
    absolute_puck(&mut writer, &HQMPuckPacket { pos: (0, 1, 131071), rot: (0x7fff_ffff, 3) });
    empty_slots(&mut writer, 29);
    batch(&mut writer, 0, 0);
    let (state, _) = s.apply_update(&writer.into_bytes()).unwrap();
    assert_eq!(
        state.objects[2],
        HQMGameStateObject::Puck(HQMGameStatePuck { pos: (0, 1, 131071), rot: (0x7fff_ffff, 3) })
    );
    assert_eq!(state.objects[0], HQMGameStateObject::Empty);
}

#[test]
fn unknown_slot_type_is_reported_and_changes_nothing() {
    let mut s = HQMBotSession::new("bot".to_string(), Recorder::chatting("hey"));
    s.handle_message(&skater_update(10, 0));
    let table_before = s.saved_packet(11).cloned();
    assert_eq!(s.chat_rep(), 1);

    let mut writer = begin_update(11, 10);
    writer.write_bits(1, 1);
    writer.write_bits(2, 3);
    empty_slots(&mut writer, 31);
    batch(&mut writer, 1, 0);
    roster_update(&mut writer, 3, true, 0, 0, "Al");
    let reply = s.handle_message(&writer.into_bytes()).unwrap();
    assert_eq!(reply.failure, Some(HQMDecodeError::UnknownSlotType { slot: 0, tag: 3 }));
    assert_eq!(s.logic().states.len(), 1);
    assert_eq!(s.known_packet(), 10);
    assert_eq!(s.known_msgpos(), 0);
    assert_eq!(s.chat_rep(), 1);
    assert!(s.players().is_empty());
    assert_eq!(s.saved_packet(11).cloned(), table_before);
    assert_eq!(
        reply.datagram,
        hqm_bot::outbound::encode_update(NO_GAME, &HQMPlayerInput::default(), 10, 0, 1, &None)
    );
}

#[test]
fn unknown_slot_type_names_slot_and_tag() {
    let mut s = session();
    let mut writer = begin_update(11, 10);
    empty_slots(&mut writer, 5);
    writer.write_bits(1, 1);
    writer.write_bits(2, 2);
    empty_slots(&mut writer, 26);
    batch(&mut writer, 0, 0);
    let result = s.apply_update(&writer.into_bytes());
    assert_eq!(result.err(), Some(HQMDecodeError::UnknownSlotType { slot: 5, tag: 2 }));
    assert_eq!(s.known_packet(), NO_PACKET);
    assert!(s.saved_packet(11).is_none());
}

#[test]
fn differences_apply_to_the_remembered_packet() {
    let mut s = session();
    s.handle_message(&skater_update(300, 0));
    assert_eq!(
        s.saved_packet(300).unwrap()[0],
        HQMObjectPacket::Skater(sample_skater())
    );
    assert_eq!(s.saved_packet(44).unwrap()[0], HQMObjectPacket::Skater(sample_skater()));

    let mut writer = begin_update(301, 300);
    writer.write_bits(1, 1);
    writer.write_bits(2, 0);
    short_difference(&mut writer, 3);
    short_difference(&mut writer, 0b111);
    short_difference(&mut writer, 0b100);
    for _ in 0..9 {
        short_difference(&mut writer, 1);
    }
    empty_slots(&mut writer, 31);
    batch(&mut writer, 0, 0);
    let (state, _) = s.apply_update(&writer.into_bytes()).unwrap();
    let expected = HQMSkaterPacket {
        pos: (1027, 2047, 0),
        rot: (6, 7),
        stick_pos: (4097, 5121, 1),
        stick_rot: (8, 9),
        head_rot: 1,
        body_rot: 8193,
    };
    assert_eq!(s.saved_packet(301).unwrap()[0], HQMObjectPacket::Skater(expected));
    assert_eq!(
        state.objects[0],
        HQMGameStateObject::Skater(HQMGameStateSkater {
            pos: (1027, 2047, 0),
            rot: (6, 7),
            stick_pos: (4097 + 1027 - 4096, 5121 + 2047 - 4096, 1 - 4096),
            stick_rot: (8, 9),
            head_rot: 1 + 16384,
            body_rot: 8193 + 16384,
        })
    );
    assert_eq!(s.saved_packet(300).unwrap()[0], HQMObjectPacket::Skater(sample_skater()));
}

#[test]
fn unknown_base_packet_means_no_previous_value() {
    let mut s = session();
    s.handle_message(&skater_update(300, 0));
    let mut writer = begin_update(301, 299);
    writer.write_bits(1, 1);
    writer.write_bits(2, 0);
    for _ in 0..12 {
        short_difference(&mut writer, 0b101);
    }
    empty_slots(&mut writer, 31);
    batch(&mut writer, 0, 0);
    s.apply_update(&writer.into_bytes()).unwrap();
    let expected = HQMSkaterPacket {
        pos: (5, 5, 5),
        rot: (5, 5),
        stick_pos: (5, 5, 5),
        stick_rot: (5, 5),
        head_rot: 5,
        body_rot: 5,
    };
    assert_eq!(s.saved_packet(301).unwrap()[0], HQMObjectPacket::Skater(expected));
}

#[test]
fn other_kind_of_object_means_no_previous_value() {
    let mut s = session();
    s.handle_message(&skater_update(1, 0));
    let mut writer = begin_update(2, 1);
    writer.write_bits(1, 1);
    writer.write_bits(2, 1);
    for _ in 0..5 {
        short_difference(&mut writer, 0b110);
    }
    writer.write_bits(1, 1);
    writer.write_bits(2, 0);
    for _ in 0..12 {
        short_difference(&mut writer, 2);
    }
    empty_slots(&mut writer, 30);
    batch(&mut writer, 0, 0);
    s.apply_update(&writer.into_bytes()).unwrap();
    let table = s.saved_packet(2).unwrap();
    assert_eq!(table[0], HQMObjectPacket::Puck(HQMPuckPacket { pos: (6, 6, 6), rot: (6, 6) }));
    assert_eq!(
        table[1],
        HQMObjectPacket::Skater(HQMSkaterPacket {
            pos: (2, 2, 2),
            rot: (2, 2),
            stick_pos: (2, 2, 2),
            stick_rot: (2, 2),
            head_rot: 2,
            body_rot: 2,
        })
    );
}

#[test]
fn cache_entries_are_overwritten_by_packet_id_modulo_256() {
    let mut s = session();
    s.handle_message(&skater_update(5, 0));
    assert!(s.saved_packet(5).is_some());
    assert!(s.saved_packet(5 + 256).is_some());
    assert!(s.saved_packet(6).is_none());
    s.handle_message(&plain_update(5 + 512, 0));
    assert_eq!(s.saved_packet(5).unwrap()[0], HQMObjectPacket::Empty);
    assert_eq!(s.saved_packet(5).unwrap().len(), 32);
}

#[test]
fn read_object_table_and_reconstruct() {
    let mut writer = HQMMessageWriter::new();
    absolute_puck(&mut writer, &HQMPuckPacket { pos: (1, 2, 3), rot: (4, 5) });
    empty_slots(&mut writer, 31);
    writer.write_bits(7, 99);
    let data = writer.into_bytes();
    let mut reader = hqm_bot::codec::HQMMessageReader::new(&data);
    let table = read_object_table(&mut reader, None).unwrap();
    assert_eq!(reader.read_bits(7), 99);
    assert_eq!(table.len(), 32);
    assert_eq!(table[0], HQMObjectPacket::Puck(HQMPuckPacket { pos: (1, 2, 3), rot: (4, 5) }));
    let objects = reconstruct(&table);
    assert_eq!(
        objects[0],
        HQMGameStateObject::Puck(HQMGameStatePuck { pos: (1, 2, 3), rot: (4, 5) })
    );
    assert_eq!(objects[31], HQMGameStateObject::Empty);
    assert_eq!(reconstruct(&Vec::new()), Vec::new());
}

#[test]
fn known_packet_never_moves_back() {
    let mut s = session();
    s.handle_message(&plain_update(10, 0));
    assert_eq!(s.known_packet(), 10);
    s.handle_message(&plain_update(5, 0));
    assert_eq!(s.known_packet(), 10);
    s.handle_message(&plain_update(10, 0));
    assert_eq!(s.known_packet(), 10);
    s.handle_message(&plain_update(12, 0));
    assert_eq!(s.known_packet(), 12);
    assert_eq!(s.logic().states.len(), 4);
    assert!(s.saved_packet(5).is_some());
}

#[test]
fn known_msgpos_never_moves_back() {
    let mut s = session();
    s.handle_message(&update_with_batch(1, 0, 3));
    assert_eq!(s.known_msgpos(), 3);
    s.handle_message(&update_with_batch(2, 1, 1));
    assert_eq!(s.known_msgpos(), 3);
    s.handle_message(&update_with_batch(3, 3, 2));
    assert_eq!(s.known_msgpos(), 5);
    s.handle_message(&update_with_batch(4, 5, 0));
    assert_eq!(s.known_msgpos(), 5);
    let counts: Vec<usize> = s.logic().messages.iter().map(|m| m.len()).collect();
    assert_eq!(counts, vec![3, 0, 2, 0]);
}

#[test]
fn known_msgpos_is_cut_to_16_bits() {
    let mut s = session();
    s.handle_message(&update_with_batch(1, 65535, 2));
    assert_eq!(s.known_msgpos(), 1);
    assert_eq!(s.logic().messages[0].len(), 2);
    let mut s = session();
    s.handle_message(&update_with_batch(1, 65534, 1));
    assert_eq!(s.known_msgpos(), 65535);
    s.handle_message(&update_with_batch(2, 65535, 1));
    assert_eq!(s.known_msgpos(), 65535);
}

#[test]
fn reply_acknowledges_what_was_taken_in() {
    let mut s = session();
    s.handle_message(&game_change(9));
    let reply = s.handle_message(&update_with_batch(0x0102, 0x0300, 4)).unwrap();
    assert_eq!(&reply.datagram[5..9], &9u32.to_le_bytes());
    assert_eq!(&reply.datagram[45..49], &0x0102u32.to_le_bytes());
    assert_eq!(&reply.datagram[49..51], &0x0304u16.to_le_bytes());
}

#[test]
fn reply_carries_the_logic_input() {
    let mut logic = Recorder::new();
    logic.input = HQMPlayerInput {
        turn: 1.0f32.to_bits(),
        jump: true,
        join_blue: true,
        ..HQMPlayerInput::default()
    };
    let mut s = HQMBotSession::new("bot".to_string(), logic);
    let reply = s.handle_message(&plain_update(1, 0)).unwrap();
    assert_eq!(&reply.datagram[13..17], &1.0f32.to_le_bytes());
    assert_eq!(&reply.datagram[41..45], &[9, 0, 0, 0]);
    let reply = s.handle_message(&game_change(3)).unwrap();
    assert_eq!(&reply.datagram[13..17], &[0, 0, 0, 0]);
    assert_eq!(&reply.datagram[41..45], &[0, 0, 0, 0]);
}

#[test]
fn chat_sequence_number_cycles() {
    let mut s = HQMBotSession::new("bot".to_string(), Recorder::chatting("x"));
    for round in 0..17u32 {
        assert_eq!(s.chat_rep(), round % 8);
        let reply = s.handle_message(&plain_update(round, 0)).unwrap();
        assert_eq!(reply.datagram[51] as u32, 1 + 2 * (round % 8) + 16);
        assert_eq!(reply.datagram[52], 0);
        assert_eq!(&reply.datagram[53..], b"x");
        assert_eq!(s.chat_rep(), (round + 1) % 8);
    }
}

#[test]
fn chat_sequence_number_ignores_the_text() {
    let mut s = session();
    let idle = HQMPlayerInput::default();
    let first = s.send_update(&idle, Some("same".to_string()));
    let second = s.send_update(&idle, Some("same".to_string()));
    let third = s.send_update(&idle, Some(String::new()));
    let fourth = s.send_update(&idle, None);
    let fifth = s.send_update(&idle, Some("z".repeat(400)));
    assert_eq!(first[51] & 0x0f, 1);
    assert_eq!(second[51] & 0x0f, 1 + 2);
    assert_eq!(third[51], 1 + 4);
    assert_eq!(fourth[51], 0);
    assert_eq!(fifth[51] & 0x0f, 1 + 6);
    assert_eq!(s.chat_rep(), 4);
    for _ in 0..4 {
        s.send_update(&idle, Some("more".to_string()));
    }
    assert_eq!(s.chat_rep(), 0);
}

#[test]
fn replies_without_chat_leave_the_sequence_number() {
    let mut s = session();
    s.handle_message(&plain_update(1, 0));
    s.handle_message(&game_change(1));
    s.handle_message(b"Hock\x07");
    assert_eq!(s.chat_rep(), 0);
}

#[test]
fn message_kinds_are_decoded() {
    let mut s = session();
    let mut writer = begin_update(1, 0);
    empty_slots(&mut writer, 32);
    batch(&mut writer, 6, 100);
    roster_update(&mut writer, 3, true, 1, 7, "Alice");
    goal(&mut writer, 0, 3, 63);
    chat(&mut writer, 3, "gg wp");
    writer.write_bits(6, 40);
    chat(&mut writer, 63, "");
    goal(&mut writer, 2, 63, 62);
    s.handle_message(&writer.into_bytes());
    let messages = &s.logic().messages[0];
    assert_eq!(messages.len(), 5);
    match &messages[0] {
        HQMMessage::PlayerUpdate { player_name, object, player_index, in_server } => {
            assert_eq!(player_name, "Alice");
            assert_eq!(*object, Some((7, HQMTeam::Blue)));
            assert_eq!(*player_index, 3);
            assert!(*in_server);
        }
        other => panic!("not a roster update: {:?}", other),
    }
    match &messages[1] {
        HQMMessage::Goal { team, goal_player_index, assist_player_index } => {
            assert_eq!(*team, HQMTeam::Red);
            assert_eq!(*goal_player_index, Some(3));
            assert_eq!(*assist_player_index, None);
        }
        other => panic!("not a goal: {:?}", other),
    }
    match &messages[2] {
        HQMMessage::Chat { player_index, message } => {
            assert_eq!(*player_index, Some(3));
            assert_eq!(message, "gg wp");
        }
        other => panic!("not a chat line: {:?}", other),
    }
    match &messages[3] {
        HQMMessage::Chat { player_index, message } => {
            assert_eq!(*player_index, None);
            assert_eq!(message, "");
        }
        other => panic!("not a chat line: {:?}", other),
    }
    match &messages[4] {
        HQMMessage::Goal { team, goal_player_index, assist_player_index } => {
            assert_eq!(*team, HQMTeam::Blue);
            assert_eq!(*goal_player_index, None);
            assert_eq!(*assist_player_index, Some(62));
        }
        other => panic!("not a goal: {:?}", other),
    }
    assert_eq!(s.known_msgpos(), 106);
    let state = &s.logic().states[0];
    assert_eq!(state.players.len(), 1);
    assert_eq!(state.players[&3].name, "Alice");
    assert_eq!(state.players[&3].index, 3);
    assert_eq!(state.players[&3].object_index, Some((7, HQMTeam::Blue)));
}

#[test]
fn roster_update_without_team_or_object_has_no_assignment() {
    let mut s = session();
    let mut writer = begin_update(1, 0);
    empty_slots(&mut writer, 32);
    batch(&mut writer, 4, 0);
    roster_update(&mut writer, 0, true, 2, 5, "no team");
    roster_update(&mut writer, 1, true, 0, 63, "no object");
    roster_update(&mut writer, 63, true, 0, 0, "0123456789012345678901234567890");
    roster_update(&mut writer, 2, true, 3, 63, "");
    s.handle_message(&writer.into_bytes());
    let players = s.players();
    assert_eq!(players.len(), 4);
    assert_eq!(players[&0].object_index, None);
    assert_eq!(players[&0].name, "no team");
    assert_eq!(players[&1].object_index, None);
    assert_eq!(players[&63].object_index, Some((0, HQMTeam::Red)));
    assert_eq!(players[&63].name, "0123456789012345678901234567890");
    assert_eq!(players[&63].index, 63);
    assert_eq!(players[&2].name, "");
}

#[test]
fn roster_follows_the_log() {
    let mut s = session();
    let mut writer = begin_update(1, 0);
    empty_slots(&mut writer, 32);
    batch(&mut writer, 4, 0);
    roster_update(&mut writer, 1, true, 0, 0, "Al");
    roster_update(&mut writer, 2, true, 1, 1, "Bo");
    roster_update(&mut writer, 1, true, 1, 4, "Al2");
    roster_update(&mut writer, 2, false, 1, 1, "Bo");
    s.handle_message(&writer.into_bytes());
    assert_eq!(s.players().len(), 1);
    assert_eq!(s.players()[&1].name, "Al2");
    assert_eq!(s.players()[&1].object_index, Some((4, HQMTeam::Blue)));
    let messages = &s.logic().messages[0];
    assert_eq!(messages.len(), 4);
    assert!(matches!(&messages[3], HQMMessage::PlayerUpdate { in_server: false, .. }));
}

#[test]
fn acknowledged_messages_are_not_handed_out_again() {
    let mut s = session();
    let mut writer = begin_update(1, 0);
    empty_slots(&mut writer, 32);
    batch(&mut writer, 3, 0);
    roster_update(&mut writer, 3, true, 0, 0, "Al");
    chat(&mut writer, 3, "one");
    chat(&mut writer, 3, "two");
    let datagram = writer.into_bytes();
    s.handle_message(&datagram);
    assert_eq!(s.logic().messages[0].len(), 3);
    assert_eq!(s.known_msgpos(), 3);

    s.handle_message(&datagram);
    assert!(s.logic().messages[1].is_empty());
    assert_eq!(s.known_msgpos(), 3);
    assert_eq!(s.players().len(), 1);

    let mut writer = begin_update(2, 0);
    empty_slots(&mut writer, 32);
    batch(&mut writer, 3, 2);
    chat(&mut writer, 3, "two");
    chat(&mut writer, 3, "three");
    goal(&mut writer, 1, 3, 63);
    s.handle_message(&writer.into_bytes());
    let messages = &s.logic().messages[2];
    assert_eq!(messages.len(), 2);
    assert!(matches!(&messages[0], HQMMessage::Chat { message, .. } if message == "three"));
    assert!(matches!(&messages[1], HQMMessage::Goal { team: HQMTeam::Blue, .. }));
    assert_eq!(s.known_msgpos(), 5);
}

#[test]
fn acknowledged_roster_update_is_still_applied() {
    let mut s = session();
    s.handle_message(&update_with_batch(1, 0, 5));
    assert_eq!(s.known_msgpos(), 5);
    assert!(s.players().is_empty());

    let mut writer = begin_update(2, 0);
    empty_slots(&mut writer, 32);
    batch(&mut writer, 2, 3);
    roster_update(&mut writer, 3, true, 0, 0, "Al");
    roster_update(&mut writer, 4, true, 1, 1, "Bo");
    s.handle_message(&writer.into_bytes());
    assert!(s.logic().messages[1].is_empty());
    assert_eq!(s.players().len(), 2);
    assert_eq!(s.players()[&3].name, "Al");
    assert_eq!(s.logic().states[1].players.len(), 2);
    assert_eq!(s.known_msgpos(), 5);

    let mut writer = begin_update(3, 0);
    empty_slots(&mut writer, 32);
    batch(&mut writer, 2, 4);
    roster_update(&mut writer, 3, false, 0, 0, "Al");
    roster_update(&mut writer, 5, true, 1, 1, "Cy");
    s.handle_message(&writer.into_bytes());
    let messages = &s.logic().messages[2];
    assert_eq!(messages.len(), 1);
    assert!(matches!(&messages[0], HQMMessage::PlayerUpdate { player_index: 5, .. }));
    assert_eq!(s.players().len(), 2);
    assert!(!s.players().contains_key(&3));
    assert_eq!(s.known_msgpos(), 6);
}

#[test]
fn game_state_roster_is_a_snapshot() {
    let mut s = session();
    let mut writer = begin_update(1, 0);
    empty_slots(&mut writer, 32);
    batch(&mut writer, 1, 0);
    roster_update(&mut writer, 3, true, 0, 0, "Al");
    s.handle_message(&writer.into_bytes());
    let mut writer = begin_update(2, 0);
    empty_slots(&mut writer, 32);
    batch(&mut writer, 1, 1);
    roster_update(&mut writer, 3, false, 0, 0, "Al");
    s.handle_message(&writer.into_bytes());
    assert_eq!(s.logic().states[0].players.len(), 1);
    assert!(s.logic().states[1].players.is_empty());
}

#[test]
fn empty_bot_speaks_every_thousand_steps() {
    let mut s = HQMBotSession::new("bot".to_string(), EmptyBot {});
    let mut update_at = |step: u32| {
        let mut writer = HQMMessageWriter::new();
        writer.write_bytes_aligned(b"Hock");
        writer.write_byte_aligned(5);
        writer.write_u32_aligned(1);
        writer.write_u32_aligned(step);
        s.handle_message(&writer.into_bytes()).unwrap().datagram
    };
    assert_eq!(&update_at(700)[51..], &[1 + 16 * 4, 0, b'T', b'e', b's', b't']);
    assert_eq!(&update_at(701)[51..], &[0]);
    assert_eq!(&update_at(1700)[51..], &[1 + 2 + 16 * 4, 0, b'T', b'e', b's', b't']);
    assert_eq!(&update_at(0)[51..], &[0]);
    assert_eq!(&update_at(1000)[51..], &[0]);
}
