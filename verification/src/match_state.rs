use vstd::prelude::*;

use crate::leaderboard::TabMatchRoundPlayer;

verus! {

/// The live state of a match on its server.
#[derive(Debug, PartialEq, Eq, Clone, Copy, Structural)]
pub struct MatchState {
    pub match_id: u32,
    pub map_id: u32,
    pub restarted: u16,
    pub round: u16,
    pub warmup: u16,
    pub is_warmup: bool,
    pub paused: bool,
}

impl MatchState {
    pub fn new(match_id: u32) -> (r: Self)
        ensures
            r == (MatchState { match_id, map_id: 0, restarted: 0, round: 0, warmup: 0, is_warmup: false, paused: false }),
    {
        Self { match_id, restarted: 0, round: 0, warmup: 0, is_warmup: false, paused: false, map_id: 0 }
    }

    pub fn set_wu(&mut self, active: bool)
        ensures
            *final(self) == (MatchState { is_warmup: active, ..*old(self) }),
    {
        self.is_warmup = active;
    }

    pub fn set_map(&mut self, id: u32)
        ensures
            *final(self) == (MatchState { map_id: id, ..*old(self) }),
    {
        self.map_id = id;
    }

    pub fn set_pause(&mut self, paused: bool)
        ensures
            *final(self) == (MatchState { paused, ..*old(self) }),
    {
        self.paused = paused;
    }

    pub fn new_wu_round(&mut self)
        requires
            old(self).warmup < u16::MAX,
        ensures
            *final(self) == (MatchState { warmup: (old(self).warmup + 1) as u16, ..*old(self) }),
    {
        self.warmup = self.warmup + 1;
    }

    pub fn new_round(&mut self)
        requires
            old(self).round < u16::MAX,
        ensures
            *final(self) == (MatchState { round: (old(self).round + 1) as u16, ..*old(self) }),
    {
        self.round = self.round + 1;
    }

    pub fn get_round(&self) -> (r: u16)
        ensures
            r == self.round,
    {
        self.round
    }

    /// Rounds count only outside the warmup and while not paused.
    pub fn live_round(&self) -> (r: bool)
        ensures
            r == (!self.is_warmup && !self.paused),
    {
        !self.is_warmup && !self.paused
    }
}

/// An event that a match's server reports, with the users and maps already resolved to the
/// ids of the store.
#[derive(Debug, PartialEq, Eq, Clone, Copy, Structural)]
pub enum MatchEventInput {
    StartLine { user_id: u32 },
    WayPoint { user_id: u32, racetime: u32, is_end_race: bool },
    Respawn { user_id: u32 },
    GiveUp { user_id: u32 },
    StartMapStart { map_id: u32 },
    StartRoundStart,
    StartMatchStart,
    EndMatchEnd,
    WarmupStart,
    WarmupEnd,
    WarmupStartRound,
    Pause { active: bool },
    /// The scores of a round; `pre_end_round` tells whether they come right before its end.
    Scores { pre_end_round: bool },
    Other,
}

/// The record of an event of a match, as the store keeps it so that the match can be
/// reconstructed; the store gives it its id.
#[derive(Debug, PartialEq, Eq, Clone, Copy, Structural)]
pub struct MatchEvent {
    pub event: MatchEventInput,
    pub id: u64,
    pub match_id: u32,
}

/// What the store does beside updating the match state and recording the event.
#[derive(Debug, PartialEq, Eq, Clone, Copy, Structural)]
pub enum MatchEventEffect {
    /// Nothing more.
    Nothing,
    /// A result row for the user in this round is stored, with its action log.
    EnterRound(TabMatchRoundPlayer),
    /// The user passed a checkpoint in this round; at the finish the round time is set.
    Checkpoint { user_id: u32, round: u16, finish_time: Option<i32> },
    /// The user respawned in this round.
    Respawn { user_id: u32, round: u16 },
    /// The user gave up in this round.
    GiveUp { user_id: u32, round: u16 },
    /// The points of this round are taken from the reported scores.
    RoundScores { round: u16 },
    /// The match ends: it is marked ended, the graph moves on and its server is released (see
    /// `tm_match::match_end`).
    EndMatch,
}

/// The new state of the match and what else happens when the event arrives.
pub open spec fn match_event_spec(state: MatchState, event: MatchEventInput) -> (MatchState, MatchEventEffect) {
    let live = !state.is_warmup && !state.paused;
    match event {
        MatchEventInput::StartLine { user_id } => if live {
            (state, MatchEventEffect::EnterRound(TabMatchRoundPlayer { id: 0, user_id, match_id: state.match_id, time: 0, points: 0, round: state.round }))
        } else {
            (state, MatchEventEffect::Nothing)
        },
        MatchEventInput::WayPoint { user_id, racetime, is_end_race } => if live {
            (state, MatchEventEffect::Checkpoint { user_id, round: state.round, finish_time: if is_end_race { Some(racetime as i32) } else { None } })
        } else {
            (state, MatchEventEffect::Nothing)
        },
        MatchEventInput::Respawn { user_id } => if live {
            (state, MatchEventEffect::Respawn { user_id, round: state.round })
        } else {
            (state, MatchEventEffect::Nothing)
        },
        MatchEventInput::GiveUp { user_id } => if live {
            (state, MatchEventEffect::GiveUp { user_id, round: state.round })
        } else {
            (state, MatchEventEffect::Nothing)
        },
        MatchEventInput::StartMapStart { map_id } => (MatchState { map_id, ..state }, MatchEventEffect::Nothing),
        MatchEventInput::StartRoundStart => if live {
            (MatchState { round: (state.round + 1) as u16, ..state }, MatchEventEffect::Nothing)
        } else {
            (state, MatchEventEffect::Nothing)
        },
        MatchEventInput::EndMatchEnd => (state, MatchEventEffect::EndMatch),
        MatchEventInput::WarmupStart => (MatchState { is_warmup: true, ..state }, MatchEventEffect::Nothing),
        MatchEventInput::WarmupEnd => (MatchState { is_warmup: false, ..state }, MatchEventEffect::Nothing),
        MatchEventInput::WarmupStartRound => (MatchState { warmup: (state.warmup + 1) as u16, ..state }, MatchEventEffect::Nothing),
        MatchEventInput::Pause { active } => (MatchState { paused: active, ..state }, MatchEventEffect::Nothing),
        MatchEventInput::Scores { pre_end_round } => if live && pre_end_round {
            (state, MatchEventEffect::RoundScores { round: state.round })
        } else {
            (state, MatchEventEffect::Nothing)
        },
        _ => (state, MatchEventEffect::Nothing),
    }
}

/// Only the start of a round, outside the warmup and while not paused, moves the round on, by
/// one; every other event, the start of the match among them, leaves the round as it was. No
/// event changes which match the state belongs to.
pub proof fn lemma_round_moves_only_on_round_start(state: MatchState, event: MatchEventInput)
    requires
        state.round < u16::MAX,
    ensures
        match_event_spec(state, event).0.round == (if event == MatchEventInput::StartRoundStart && !state.is_warmup
            && !state.paused {
            state.round + 1
        } else {
            state.round as int
        }),
        match_event_spec(state, event).0.match_id == state.match_id,
{
}

/// Each part of the match state moves only on its own events: the map on the start of a map,
/// the warmup flag on the start and end of the warmup, the warmup round count (by one) on the
/// start of a warmup round, the pause flag on a pause; outside these, the state stays. Only a
/// player on the start line of a live round enters the round's results, and only the end of
/// the match ends it.
pub proof fn lemma_state_parts_move_on_their_events(state: MatchState, event: MatchEventInput)
    requires
        state.round < u16::MAX,
        state.warmup < u16::MAX,
    ensures
        match_event_spec(state, event).0.map_id == (match event {
            MatchEventInput::StartMapStart { map_id } => map_id,
            _ => state.map_id,
        }),
        match_event_spec(state, event).0.is_warmup == (match event {
            MatchEventInput::WarmupStart => true,
            MatchEventInput::WarmupEnd => false,
            _ => state.is_warmup,
        }),
        match_event_spec(state, event).0.warmup == (if event == MatchEventInput::WarmupStartRound {
            state.warmup + 1
        } else {
            state.warmup as int
        }),
        match_event_spec(state, event).0.paused == (match event {
            MatchEventInput::Pause { active } => active,
            _ => state.paused,
        }),
        match_event_spec(state, event).0.restarted == state.restarted,
        match_event_spec(state, event).1 is EnterRound <==> (event is StartLine && !state.is_warmup && !state.paused),
        match_event_spec(state, event).1 is EndMatch <==> event is EndMatchEnd,
{
}

/// Handles an event of a live match: the new match state, what else the store does, and the
/// record of the event, which every event leaves whatever it does.
pub fn handle_match_event(state: MatchState, event: MatchEventInput) -> (r: (MatchState, MatchEventEffect, MatchEvent))
    requires
        event == MatchEventInput::StartRoundStart && !state.is_warmup && !state.paused ==> state.round < u16::MAX,
        event == MatchEventInput::WarmupStartRound ==> state.warmup < u16::MAX,
    ensures
        (r.0, r.1) == match_event_spec(state, event),
        r.2 == (MatchEvent { event, id: 0, match_id: state.match_id }),
{
    let record = MatchEvent { event, id: 0, match_id: state.match_id };
    let (state, effect) = match_state_step(state, event);
    (state, effect, record)
}

/// The new match state and the effect of an event.
fn match_state_step(state: MatchState, event: MatchEventInput) -> (r: (MatchState, MatchEventEffect))
    requires
        event == MatchEventInput::StartRoundStart && !state.is_warmup && !state.paused ==> state.round < u16::MAX,
        event == MatchEventInput::WarmupStartRound ==> state.warmup < u16::MAX,
    ensures
        r == match_event_spec(state, event),
{
    let mut state = state;
    match event {
        MatchEventInput::StartLine { user_id } => {
            if state.live_round() {
                let round = state.get_round();
                (state, MatchEventEffect::EnterRound(TabMatchRoundPlayer::new(state.match_id, user_id, round)))
            } else {
                (state, MatchEventEffect::Nothing)
            }
        },
        MatchEventInput::WayPoint { user_id, racetime, is_end_race } => {
            if state.live_round() {
                let finish_time = if is_end_race { Some(racetime as i32) } else { None };
                (state, MatchEventEffect::Checkpoint { user_id, round: state.get_round(), finish_time })
            } else {
                (state, MatchEventEffect::Nothing)
            }
        },
        MatchEventInput::Respawn { user_id } => {
            if state.live_round() {
                (state, MatchEventEffect::Respawn { user_id, round: state.get_round() })
            } else {
                (state, MatchEventEffect::Nothing)
            }
        },
        MatchEventInput::GiveUp { user_id } => {
            if state.live_round() {
                (state, MatchEventEffect::GiveUp { user_id, round: state.get_round() })
            } else {
                (state, MatchEventEffect::Nothing)
            }
        },
        MatchEventInput::StartMapStart { map_id } => {
            state.set_map(map_id);
            (state, MatchEventEffect::Nothing)
        },
        MatchEventInput::StartRoundStart => {
            if state.live_round() {
                state.new_round();
            }
            (state, MatchEventEffect::Nothing)
        },
        MatchEventInput::EndMatchEnd => (state, MatchEventEffect::EndMatch),
        MatchEventInput::WarmupStart => {
            state.set_wu(true);
            (state, MatchEventEffect::Nothing)
        },
        MatchEventInput::WarmupEnd => {
            state.set_wu(false);
            (state, MatchEventEffect::Nothing)
        },
        MatchEventInput::WarmupStartRound => {
            state.new_wu_round();
            (state, MatchEventEffect::Nothing)
        },
        MatchEventInput::Pause { active } => {
            state.set_pause(active);
            (state, MatchEventEffect::Nothing)
        },
        MatchEventInput::Scores { pre_end_round } => {
            if state.live_round() && pre_end_round {
                (state, MatchEventEffect::RoundScores { round: state.get_round() })
            } else {
                (state, MatchEventEffect::Nothing)
            }
        },
        _ => (state, MatchEventEffect::Nothing),
    }
}

/// The points that the reported scores give the user: those of the first score of the user.
pub open spec fn score_of(scores: Seq<(u32, i32)>, user_id: u32) -> Option<i32>
    decreases scores.len(),
{
    if scores.len() == 0 {
        None
    } else if scores[0].0 == user_id {
        Some(scores[0].1)
    } else {
        score_of(scores.drop_first(), user_id)
    }
}

/// The row with the points of its user's score, if the scores name the user.
pub open spec fn with_score(row: TabMatchRoundPlayer, scores: Seq<(u32, i32)>) -> TabMatchRoundPlayer {
    match score_of(scores, row.user_id) {
        Some(points) => TabMatchRoundPlayer { points, ..row },
        None => row,
    }
}

fn find_score(scores: &Vec<(u32, i32)>, user_id: u32) -> (r: Option<i32>)
    ensures
        r == score_of(scores@, user_id),
{
    let mut i: usize = 0;
    assert(scores@.skip(0) =~= scores@);
    while i < scores.len()
        invariant
            i <= scores@.len(),
            score_of(scores@, user_id) == score_of(scores@.skip(i as int), user_id),
        decreases scores.len() - i,
    {
        assert(scores@.skip(i as int)[0] == scores@[i as int]);
        assert(scores@.skip(i as int).drop_first() =~= scores@.skip(i + 1));
        if scores[i].0 == user_id {
            return Some(scores[i].1);
        }
        i = i + 1;
    }
    assert(scores@.skip(i as int).len() == 0);
    None
}

/// The round results with the points of the reported scores: each row takes the points of
/// the first score of its user; rows of users without score stay as they are.
pub fn apply_round_scores(rows: Vec<TabMatchRoundPlayer>, scores: &Vec<(u32, i32)>) -> (r: Vec<TabMatchRoundPlayer>)
    ensures
        r@ == rows@.map_values(|row: TabMatchRoundPlayer| with_score(row, scores@)),
{
    let ghost start = rows@;
    let mut rows = rows;
    let mut i: usize = 0;
    while i < rows.len()
        invariant
            i <= rows@.len(),
            rows@.len() == start.len(),
            forall|j: int| 0 <= j < i ==> rows@[j] == with_score(start[j], scores@),
            forall|j: int| i <= j < rows@.len() ==> rows@[j] == start[j],
        decreases rows.len() - i,
    {
        let mut row = rows[i];
        if let Some(points) = find_score(scores, row.user_id) {
            row.set_points(points);
            rows.set(i, row);
        }
        i = i + 1;
    }
    assert(rows@ =~= start.map_values(|row: TabMatchRoundPlayer| with_score(row, scores@)));
    rows
}

/// One action of a player during a round. Speeds are the bit patterns of the reported `f32`.
#[derive(Debug, PartialEq, Eq, Clone, Copy, Structural)]
pub enum PlayerAction {
    StartLine(u32),
    Checkpoint { speed_bits: u32, time: u32 },
    Respawn { time: u32, speed_bits: u32 },
    GiveUp(u32),
    Lap { speed_bits: u32, time: u32 },
    Finish { speed_bits: u32, time: u32 },
}

/// The log of a player's actions in one round.
#[derive(Debug)]
pub struct TabMatchRoundPlayerExt {
    pub round_actions: Vec<PlayerAction>,
    pub user_id: u32,
    pub match_id: u32,
    pub id: u32,
    pub round: u16,
}

impl TabMatchRoundPlayerExt {
    /// A log that starts on the start line at the server time `server_time`.
    pub fn new(id: u32, match_id: u32, user_id: u32, round: u16, server_time: u32) -> (r: Self)
        ensures
            r.id == id && r.match_id == match_id && r.user_id == user_id && r.round == round,
            r.round_actions@ == seq![PlayerAction::StartLine(server_time)],
    {
        let mut round_actions: Vec<PlayerAction> = Vec::new();
        round_actions.push(PlayerAction::StartLine(server_time));
        Self { user_id, match_id, round, round_actions, id }
    }

    pub fn add_checkpoint(&mut self, speed_bits: u32, time: u32)
        ensures
            final(self).round_actions@ == old(self).round_actions@.push(PlayerAction::Checkpoint { speed_bits, time }),
            final(self).id == old(self).id && final(self).user_id == old(self).user_id && final(self).match_id == old(self).match_id && final(self).round == old(self).round,
    {
        self.round_actions.push(PlayerAction::Checkpoint { speed_bits, time });
    }

    pub fn add_lap(&mut self, speed_bits: u32, time: u32)
        ensures
            final(self).round_actions@ == old(self).round_actions@.push(PlayerAction::Lap { speed_bits, time }),
            final(self).id == old(self).id && final(self).user_id == old(self).user_id && final(self).match_id == old(self).match_id && final(self).round == old(self).round,
    {
        self.round_actions.push(PlayerAction::Lap { speed_bits, time });
    }

    pub fn add_finish(&mut self, speed_bits: u32, time: u32)
        ensures
            final(self).round_actions@ == old(self).round_actions@.push(PlayerAction::Finish { speed_bits, time }),
            final(self).id == old(self).id && final(self).user_id == old(self).user_id && final(self).match_id == old(self).match_id && final(self).round == old(self).round,
    {
        self.round_actions.push(PlayerAction::Finish { speed_bits, time });
    }

    /// Logs a respawn: a respawn standing still right after another respawn adds nothing;
    /// otherwise the respawn is logged with the time since the start line. `speed_is_zero`
    /// tells whether the reported speed equals zero.
    pub fn add_respawn(&mut self, speed_bits: u32, speed_is_zero: bool, server_time: u32)
        requires
            old(self).round_actions@.len() > 0,
            old(self).round_actions@[0] matches PlayerAction::StartLine(t) ==> t <= server_time,
        ensures
            final(self).id == old(self).id && final(self).user_id == old(self).user_id && final(self).match_id == old(self).match_id && final(self).round == old(self).round,
            final(self).round_actions@ == (if speed_is_zero && old(self).round_actions@.last() is Respawn {
                old(self).round_actions@
            } else if let PlayerAction::StartLine(t) = old(self).round_actions@[0] {
                old(self).round_actions@.push(PlayerAction::Respawn { speed_bits, time: (server_time - t) as u32 })
            } else {
                old(self).round_actions@
            }),
    {
        let first = self.round_actions[0];
        let last = self.round_actions[self.round_actions.len() - 1];
        if speed_is_zero {
            if let PlayerAction::Respawn { .. } = last {
                return;
            }
        }
        if let PlayerAction::StartLine(time) = first {
            self.round_actions.push(PlayerAction::Respawn { speed_bits, time: server_time - time });
        }
    }

    /// Logs giving up, with the time since the start line.
    pub fn give_up(&mut self, server_time: u32)
        requires
            old(self).round_actions@.len() > 0,
            old(self).round_actions@[0] matches PlayerAction::StartLine(t) ==> t <= server_time,
        ensures
            final(self).id == old(self).id && final(self).user_id == old(self).user_id && final(self).match_id == old(self).match_id && final(self).round == old(self).round,
            final(self).round_actions@ == (if let PlayerAction::StartLine(t) = old(self).round_actions@[0] {
                old(self).round_actions@.push(PlayerAction::GiveUp((server_time - t) as u32))
            } else {
                old(self).round_actions@
            }),
    {
        let first = self.round_actions[0];
        if let PlayerAction::StartLine(time) = first {
            self.round_actions.push(PlayerAction::GiveUp(server_time - time));
        }
    }
}

/// The replay of a round of a match.
#[derive(Debug)]
pub struct MatchRoundReplay {
    pub map_id: u32,
    pub match_id: u32,
    pub round: u8,
    pub replay: Vec<u8>,
}

impl MatchRoundReplay {
    pub fn new(match_id: u32, round: u8, map_id: u32, replay: Vec<u8>) -> (r: Self)
        ensures
            r.match_id == match_id && r.round == round && r.map_id == map_id,
            r.replay@ == replay@,
    {
        MatchRoundReplay { match_id, round, map_id, replay }
    }
}

} // verus!
