use cdda_render::actions::{ActionSource, GameAction, InputAction};
use cdda_render::plugins::{CddaReplayModePlugin, CddaReplayPlugin};
use cdda_render::replay::{ReplaySpeed, ReplayState};
use cdda_render::session_log::{ActionRecord, SessionLog};

#[test]
fn default_cursor_is_zero() {
    let state = ReplayState::default();
    assert_eq!(state.cursor, 0);
}

#[test]
fn default_speed_is_fast() {
    let state = ReplayState::default();
    assert!(matches!(state.speed, ReplaySpeed::Fast));
}

#[test]
fn default_not_paused() {
    let state = ReplayState::default();
    assert!(!state.paused);
}

#[test]
fn is_complete_on_empty_log() {
    let state = ReplayState::default();
    let log = SessionLog::new(0);
    assert!(state.is_complete(&log));
}

#[test]
fn not_complete_when_actions_remain() {
    let state = ReplayState::default();
    let mut log = SessionLog::new(0);
    log.actions.push(ActionRecord {
        turn: 0,
        action: GameAction::Wait,
        source: ActionSource::Keyboard,
    });
    assert!(!state.is_complete(&log));
}

#[test]
fn is_complete_when_cursor_at_end() {
    let mut state = ReplayState::default();
    let mut log = SessionLog::new(0);
    log.actions.push(ActionRecord {
        turn: 0,
        action: GameAction::Wait,
        source: ActionSource::Keyboard,
    });
    state.cursor = 1;
    assert!(state.is_complete(&log));
}

#[test]
fn is_complete_when_cursor_beyond_end() {
    let mut state = ReplayState::default();
    state.cursor = 999;
    let log = SessionLog::new(0);
    assert!(state.is_complete(&log));
}

#[test]
fn not_complete_with_cursor_partway() {
    let mut state = ReplayState::default();
    state.cursor = 3;
    let mut log = SessionLog::new(0);
    for turn in 0..10 {
        log.actions.push(ActionRecord {
            turn,
            action: GameAction::Wait,
            source: ActionSource::Keyboard,
        });
    }
    assert!(!state.is_complete(&log));
}

#[test]
fn replay_speed_variants_are_distinct() {
    assert_ne!(ReplaySpeed::Fast as u8, ReplaySpeed::RealTime as u8);
    assert_ne!(ReplaySpeed::Fast as u8, ReplaySpeed::Step as u8);
    assert_ne!(ReplaySpeed::RealTime as u8, ReplaySpeed::Step as u8);
}

#[test]
fn cursor_advances_independently_of_log() {
    let mut state = ReplayState::default();
    let log = SessionLog::new(0);
    state.cursor += 1;
    assert!(state.is_complete(&log));
}

fn keyboard(action: GameAction) -> InputAction {
    InputAction::new(action, ActionSource::Keyboard)
}

#[test]
fn recording_stores_actions_with_turn_and_source() {
    let mut log = SessionLog::new(5);
    log.record_actions(3, &[keyboard(GameAction::Wait), InputAction::new(GameAction::Pickup, ActionSource::Mouse)]);
    assert_eq!(log.len(), 2);
    assert_eq!(log.actions[0], ActionRecord { turn: 3, action: GameAction::Wait, source: ActionSource::Keyboard });
    assert_eq!(log.actions[1], ActionRecord { turn: 3, action: GameAction::Pickup, source: ActionSource::Mouse });
}

#[test]
fn fast_replay_feeds_one_turn_per_frame_with_recorded_sources() {
    let mut log = SessionLog::new(0);
    log.record_actions(0, &[keyboard(GameAction::Wait), keyboard(GameAction::Open)]);
    log.record_actions(2, &[keyboard(GameAction::Drop)]);
    let mut state = ReplayState::default();
    let first = state.replay_step(&log, 0);
    assert_eq!(first, vec![keyboard(GameAction::Wait), keyboard(GameAction::Open)]);
    assert_eq!(state.cursor, 2);
    assert!(state.replay_step(&log, 1).is_empty());
    assert_eq!(state.replay_step(&log, 2), vec![keyboard(GameAction::Drop)]);
    assert!(state.is_complete(&log));
}

#[test]
fn step_replay_feeds_one_action_per_frame_and_pause_feeds_nothing() {
    let mut log = SessionLog::new(0);
    log.record_actions(0, &[keyboard(GameAction::Wait), keyboard(GameAction::Open)]);
    let mut state = ReplayState { cursor: 0, speed: ReplaySpeed::Step, paused: true };
    assert!(state.replay_step(&log, 0).is_empty());
    assert_eq!(state.cursor, 0);
    state.paused = false;
    assert_eq!(state.replay_step(&log, 0), vec![InputAction::new(GameAction::Wait, ActionSource::Script)]);
    assert_eq!(state.cursor, 1);
}

#[test]
fn replay_plugin_installs_an_empty_log_for_its_seed() {
    let plugin = CddaReplayPlugin { world_seed: 31337 };
    let log = plugin.session_log();
    assert_eq!(log.world_seed, 31337);
    assert!(log.is_empty());
    assert!(log.state_hashes.is_empty());
    let state = CddaReplayModePlugin.replay_state();
    assert_eq!(state, ReplayState::default());
}
