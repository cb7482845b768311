//! What the recording and replay plugins install when they are added to an
//! application.
use vstd::prelude::*;
use crate::replay::{ReplaySpeed, ReplayState};
use crate::session_log::SessionLog;

verus! {

/// Records the player's actions into a session log for a world seed.
#[derive(Clone, Copy, Debug, PartialEq, Eq, Structural)]
pub struct CddaReplayPlugin {
    pub world_seed: u64,
}

impl CddaReplayPlugin {
    /// The session log the plugin installs: empty, for its world seed.
    pub fn session_log(&self) -> (log: SessionLog)
        ensures
            log@.world_seed == self.world_seed,
            log@.actions.len() == 0,
            log@.state_hashes.len() == 0,
    {
        SessionLog::new(self.world_seed)
    }
}

/// Feeds a recorded session back into the game.
#[derive(Clone, Copy, Debug, PartialEq, Eq, Structural)]
pub struct CddaReplayModePlugin;

impl CddaReplayModePlugin {
    /// The replay state the plugin installs: at the start, fast, running.
    pub fn replay_state(&self) -> (s: ReplayState)
        ensures
            s == (ReplayState { cursor: 0, speed: ReplaySpeed::Fast, paused: false }),
    {
        ReplayState::default()
    }
}

} // verus!
