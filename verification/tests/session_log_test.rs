use cdda_render::actions::{ActionSource, GameAction};
use cdda_render::session_log::{ActionRecord, SessionLog, SessionLogError};

#[test]
fn new_log_stores_seed() {
    let log = SessionLog::new(42);
    assert_eq!(log.world_seed, 42);
}

#[test]
fn new_log_is_empty() {
    let log = SessionLog::new(0);
    assert!(log.is_empty());
    assert_eq!(log.len(), 0);
}

#[test]
fn default_log_has_seed_zero() {
    let log = SessionLog::default();
    assert_eq!(log.world_seed, 0);
}

#[test]
fn push_action_increments_len() {
    let mut log = SessionLog::new(1);
    log.actions.push(ActionRecord {
        turn: 0,
        action: GameAction::Wait,
        source: ActionSource::Keyboard,
    });
    assert_eq!(log.len(), 1);
    assert!(!log.is_empty());
}

#[test]
fn multiple_actions_stored_in_order() {
    let mut log = SessionLog::new(0);
    let actions = [GameAction::Wait, GameAction::Pickup, GameAction::Confirm];
    for (turn, action) in actions.iter().enumerate() {
        log.actions.push(ActionRecord {
            turn: turn as u64,
            action: action.clone(),
            source: ActionSource::Keyboard,
        });
    }
    assert_eq!(log.len(), 3);
    assert!(matches!(log.actions[0].action, GameAction::Wait));
    assert!(matches!(log.actions[1].action, GameAction::Pickup));
    assert!(matches!(log.actions[2].action, GameAction::Confirm));
}

#[test]
fn action_record_stores_turn_and_source() {
    let record = ActionRecord {
        turn: 99,
        action: GameAction::Open,
        source: ActionSource::Script,
    };
    assert_eq!(record.turn, 99);
    assert!(matches!(record.source, ActionSource::Script));
}

#[test]
fn bytes_roundtrip_empty_log() {
    let original = SessionLog::new(77);
    let bytes = original.to_bytes().expect("serialize");
    let restored = SessionLog::from_bytes(&bytes).expect("deserialize");
    assert_eq!(restored.world_seed, 77);
    assert!(restored.is_empty());
}

#[test]
fn bytes_roundtrip_with_actions() {
    let mut original = SessionLog::new(123);
    original.actions.push(ActionRecord {
        turn: 5,
        action: GameAction::NavigateDown,
        source: ActionSource::Keyboard,
    });
    original.actions.push(ActionRecord {
        turn: 10,
        action: GameAction::Confirm,
        source: ActionSource::Keyboard,
    });

    let bytes = original.to_bytes().expect("serialize");
    let restored = SessionLog::from_bytes(&bytes).expect("deserialize");

    assert_eq!(restored.world_seed, 123);
    assert_eq!(restored.len(), 2);
    assert_eq!(restored.actions[0].turn, 5);
    assert_eq!(restored.actions[1].turn, 10);
    assert!(matches!(restored.actions[1].action, GameAction::Confirm));
}

#[test]
fn corrupt_bytes_returns_error() {
    let result = SessionLog::from_bytes(&[0xde, 0xad, 0xbe, 0xef]);
    assert!(result.is_err());
}

#[test]
fn state_hashes_empty_by_default() {
    let log = SessionLog::new(0);
    assert!(log.state_hashes.is_empty());
}

#[test]
fn state_hashes_survive_roundtrip() {
    let mut log = SessionLog::new(0);
    log.state_hashes.push((1, 0xdeadbeef));
    let bytes = log.to_bytes().expect("serialize");
    let restored = SessionLog::from_bytes(&bytes).expect("deserialize");
    assert_eq!(restored.state_hashes.len(), 1);
    assert_eq!(restored.state_hashes[0], (1, 0xdeadbeef));
}

#[test]
fn push_action_appends_the_record() {
    let mut log = SessionLog::new(3);
    log.push_action(ActionRecord { turn: 4, action: GameAction::Drop, source: ActionSource::Mouse });
    assert_eq!(log.len(), 1);
    assert_eq!(log.actions[0].turn, 4);
    assert!(matches!(log.actions[0].source, ActionSource::Mouse));
}

#[test]
fn roundtrip_keeps_every_action_kind() {
    let mut log = SessionLog::new(u64::MAX);
    let actions = [
        GameAction::HotkeyPress('é'),
        GameAction::HotkeyPress('z'),
        GameAction::Custom(70000),
        GameAction::NavigatePrevTab,
        GameAction::Filter,
    ];
    for (i, a) in actions.iter().enumerate() {
        log.actions.push(ActionRecord { turn: i as u64 * 1000, action: *a, source: ActionSource::Script });
    }
    log.state_hashes.push((u64::MAX, 0));
    let restored = SessionLog::from_bytes(&log.to_bytes().unwrap()).unwrap();
    assert_eq!(restored.world_seed, u64::MAX);
    assert_eq!(restored.actions, log.actions);
    assert_eq!(restored.state_hashes, vec![(u64::MAX, 0)]);
}

#[test]
fn empty_and_truncated_bytes_are_malformed() {
    assert!(matches!(SessionLog::from_bytes(&[]), Err(SessionLogError::Malformed)));
    let bytes = SessionLog::new(9).to_bytes().unwrap();
    assert!(matches!(
        SessionLog::from_bytes(&bytes[..bytes.len() - 1]),
        Err(SessionLogError::Malformed)
    ));
    let mut longer = bytes.clone();
    longer.push(0);
    assert!(matches!(SessionLog::from_bytes(&longer), Err(SessionLogError::Malformed)));
}

#[test]
fn surrogate_hotkey_code_is_malformed() {
    let mut log = SessionLog::new(0);
    log.actions.push(ActionRecord { turn: 0, action: GameAction::HotkeyPress('a'), source: ActionSource::Keyboard });
    let mut bytes = log.to_bytes().unwrap();
    let good = SessionLog::from_bytes(&bytes).unwrap();
    assert!(matches!(good.actions[0].action, GameAction::HotkeyPress('a')));
    // The character code follows the header, the seed, the count, the turn and the tag.
    let at = 4 + 1 + 8 + 8 + 8 + 1;
    bytes[at..at + 4].copy_from_slice(&0xD800u32.to_le_bytes());
    assert!(matches!(SessionLog::from_bytes(&bytes), Err(SessionLogError::Malformed)));
}
