//! What the decision logic sees and returns: the per-tick game state, the
//! events of the message log, and the player's input.
//!
//! Coordinates are fixed-point integers. A position counts
//! `POSITION_UNITS` steps per game unit, an angle `ANGLE_UNITS` steps per
//! unit. An orientation is kept as its two compressed columns together with
//! the number of bits each column was compressed to.

use vstd::prelude::*;
use std::collections::HashMap;

verus! {

/// Fixed-point steps per game unit of a position.
pub const POSITION_UNITS: i64 = 1024;

/// Fixed-point steps per unit of a head or body angle.
pub const ANGLE_UNITS: i64 = 8192;

/// Bits per compressed column of a skater's or a puck's orientation.
pub const BODY_ROT_BITS: u8 = 31;

/// Bits per compressed column of a stick's orientation.
pub const STICK_ROT_BITS: u8 = 25;

/// The two sides of a match.
#[derive(Debug, Copy, Clone, Eq, PartialEq, Hash)]
pub enum HQMTeam {
    Red,
    Blue,
}

/// The input of one tick. The eight analogue channels hold the bit patterns
/// of IEEE 754 single-precision numbers, as they travel on the wire.
#[derive(Debug, Copy, Clone)]
pub struct HQMPlayerInput {
    pub stick_angle: u32,
    pub turn: u32,
    pub unknown: u32,
    pub fwbw: u32,
    pub stick: (u32, u32),
    pub head_rot: u32,
    pub body_rot: u32,
    pub shift_rotate: bool,
    pub crouch: bool,
    pub jump: bool,
    pub join_red: bool,
    pub join_blue: bool,
    pub spectate: bool,
}

/// The input that does nothing: every channel at zero, every flag off.
pub open spec fn idle_input() -> HQMPlayerInput {
    HQMPlayerInput {
        stick_angle: 0,
        turn: 0,
        unknown: 0,
        fwbw: 0,
        stick: (0, 0),
        head_rot: 0,
        body_rot: 0,
        shift_rotate: false,
        crouch: false,
        jump: false,
        join_red: false,
        join_blue: false,
        spectate: false,
    }
}

impl Default for HQMPlayerInput {
    fn default() -> (r: Self)
        ensures
            r == idle_input(),
    {
        HQMPlayerInput {
            stick_angle: 0,
            turn: 0,
            unknown: 0,
            fwbw: 0,
            stick: (0, 0),
            head_rot: 0,
            body_rot: 0,
            shift_rotate: false,
            crouch: false,
            jump: false,
            join_red: false,
            join_blue: false,
            spectate: false,
        }
    }
}

/// A skater: body position and orientation, stick position and orientation,
/// head and body angle.
#[derive(Debug, Copy, Clone, PartialEq, Eq)]
pub struct HQMGameStateSkater {
    pub pos: (i64, i64, i64),
    pub rot: (u32, u32),
    pub stick_pos: (i64, i64, i64),
    pub stick_rot: (u32, u32),
    pub head_rot: i64,
    pub body_rot: i64,
}

/// A puck: position and orientation.
#[derive(Debug, Copy, Clone, PartialEq, Eq)]
pub struct HQMGameStatePuck {
    pub pos: (i64, i64, i64),
    pub rot: (u32, u32),
}

/// One of the 32 object slots of a tick.
#[derive(Debug, Copy, Clone, PartialEq, Eq)]
pub enum HQMGameStateObject {
    Empty,
    Skater(HQMGameStateSkater),
    Puck(HQMGameStatePuck),
}

/// A roster entry.
#[derive(Debug, Clone)]
pub struct HQMPlayer {
    pub name: String,
    pub index: usize,
    pub object_index: Option<(usize, HQMTeam)>,
}

/// A roster entry with its name as a sequence of characters.
pub struct HQMPlayerView {
    pub name: Seq<char>,
    pub index: usize,
    pub object_index: Option<(usize, HQMTeam)>,
}

impl View for HQMPlayer {
    type V = HQMPlayerView;

    open spec fn view(&self) -> HQMPlayerView {
        HQMPlayerView { name: self.name@, index: self.index, object_index: self.object_index }
    }
}

/// The roster as a map from player index to entry view.
pub open spec fn roster_view(players: Map<usize, HQMPlayer>) -> Map<usize, HQMPlayerView> {
    Map::new(|k: usize| players.contains_key(k), |k: usize| players[k]@)
}

/// An event of the message log.
#[derive(Debug, Clone)]
#[allow(inconsistent_fields)]
pub enum HQMMessage {
    PlayerUpdate { player_name: String, object: Option<(usize, HQMTeam)>, player_index: usize, in_server: bool },
    Goal { team: HQMTeam, goal_player_index: Option<usize>, assist_player_index: Option<usize> },
    Chat { player_index: Option<usize>, message: String },
}

/// An event with its texts as sequences of characters.
#[allow(inconsistent_fields)]
pub enum HQMMessageView {
    PlayerUpdate { player_name: Seq<char>, object: Option<(usize, HQMTeam)>, player_index: usize, in_server: bool },
    Goal { team: HQMTeam, goal_player_index: Option<usize>, assist_player_index: Option<usize> },
    Chat { player_index: Option<usize>, message: Seq<char> },
}

impl View for HQMMessage {
    type V = HQMMessageView;

    open spec fn view(&self) -> HQMMessageView {
        match *self {
            HQMMessage::PlayerUpdate { player_name, object, player_index, in_server } => {
                HQMMessageView::PlayerUpdate {
                    player_name: player_name@,
                    object,
                    player_index,
                    in_server,
                }
            },
            HQMMessage::Goal { team, goal_player_index, assist_player_index } => {
                HQMMessageView::Goal { team, goal_player_index, assist_player_index }
            },
            HQMMessage::Chat { player_index, message } => {
                HQMMessageView::Chat { player_index, message: message@ }
            },
        }
    }
}

/// A list of events, each by its view.
pub open spec fn messages_view(messages: Seq<HQMMessage>) -> Seq<HQMMessageView> {
    messages.map_values(|m: HQMMessage| m@)
}

/// The state of the game at one tick.
#[derive(Debug, Clone)]
pub struct HQMGameState {
    pub red_score: u32,
    pub blue_score: u32,
    pub time: u32,
    pub period: u32,
    pub goal_interruption: bool,
    pub game_over: bool,
    pub objects: Vec<HQMGameStateObject>,
    pub yourself: usize,
    pub players: HashMap<usize, HQMPlayer>,
    pub game_id: u32,
    pub step: u32,
}

/// A game state with its collections as mathematical values.
pub struct HQMGameStateView {
    pub red_score: u32,
    pub blue_score: u32,
    pub time: u32,
    pub period: u32,
    pub goal_interruption: bool,
    pub game_over: bool,
    pub objects: Seq<HQMGameStateObject>,
    pub yourself: usize,
    pub players: Map<usize, HQMPlayerView>,
    pub game_id: u32,
    pub step: u32,
}

impl View for HQMGameState {
    type V = HQMGameStateView;

    open spec fn view(&self) -> HQMGameStateView {
        HQMGameStateView {
            red_score: self.red_score,
            blue_score: self.blue_score,
            time: self.time,
            period: self.period,
            goal_interruption: self.goal_interruption,
            game_over: self.game_over,
            objects: self.objects@,
            yourself: self.yourself,
            players: roster_view(self.players@),
            game_id: self.game_id,
            step: self.step,
        }
    }
}

} // verus!
