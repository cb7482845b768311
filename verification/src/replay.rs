//! Recording actions into a session log and feeding them back, turn by turn.
use vstd::prelude::*;
use crate::actions::{ActionSource, GameAction, InputAction};
use crate::session_log::{ActionRecord, SessionLog, SessionLogView};

verus! {

/// How fast a replay feeds recorded actions back.
#[derive(Clone, Copy, Debug, PartialEq, Eq, Structural)]
pub enum ReplaySpeed {
    /// One action per call, as in live play.
    RealTime,
    /// Every action of the current turn in one call.
    Fast,
    /// One action per call, driven by the user.
    Step,
}

/// Current position and playback speed of a replay.
#[derive(Clone, Copy, Debug, PartialEq, Eq, Structural)]
pub struct ReplayState {
    /// Index of the next record to feed back.
    pub cursor: usize,
    pub speed: ReplaySpeed,
    pub paused: bool,
}

impl Default for ReplayState {
    /// Cursor at the start, fast, not paused.
    fn default() -> (s: ReplayState)
        ensures
            s.cursor == 0,
            s.speed == ReplaySpeed::Fast,
            !s.paused,
    {
        ReplayState { cursor: 0, speed: ReplaySpeed::Fast, paused: false }
    }
}

/// The record that stands for an input action issued on `turn`.
pub open spec fn record_of(turn: u64, a: InputAction) -> ActionRecord {
    ActionRecord { turn, action: a.action, source: a.source }
}

/// The records that a frame's input actions become on `turn`, in order.
pub open spec fn records_of(turn: u64, inputs: Seq<InputAction>) -> Seq<ActionRecord> {
    inputs.map_values(|a: InputAction| record_of(turn, a))
}

/// The input action that replays a record with its own source.
pub open spec fn input_of(r: ActionRecord) -> InputAction {
    InputAction { action: r.action, source: r.source }
}

/// The input actions that a fast replay emits from `s` on `turn`: the records
/// stamped with `turn`, in order.
pub open spec fn emitted_on(s: Seq<ActionRecord>, turn: u64) -> Seq<InputAction>
    decreases s.len(),
{
    if s.len() == 0 {
        Seq::empty()
    } else if s.last().turn == turn {
        emitted_on(s.drop_last(), turn).push(input_of(s.last()))
    } else {
        emitted_on(s.drop_last(), turn)
    }
}

/// Where a fast replay on `turn` leaves a cursor that stood at `from`: past
/// every record from `from` on up to the first one stamped after `turn`.
pub open spec fn fast_stop(s: Seq<ActionRecord>, from: int, turn: u64, stop: int) -> bool {
    &&& from <= stop
    &&& forall|i: int| from <= i < stop ==> 0 <= i < s.len() && #[trigger] s[i].turn <= turn
    &&& (stop >= s.len() || s[stop].turn > turn)
}

impl SessionLog {
    /// Appends a frame's input actions, stamped with `turn`, in the order they
    /// came.
    pub fn record_actions(&mut self, turn: u64, inputs: &[InputAction])
        ensures
            final(self)@.world_seed == old(self)@.world_seed,
            final(self)@.actions == old(self)@.actions + records_of(turn, inputs@),
            final(self)@.state_hashes == old(self)@.state_hashes,
    {
        let ghost start = self.actions@;
        let mut i: usize = 0;
        while i < inputs.len()
            invariant
                i <= inputs@.len(),
                self.world_seed == old(self).world_seed,
                self.state_hashes@ == old(self).state_hashes@,
                self.actions@ == start + records_of(turn, inputs@.take(i as int)),
                start == old(self).actions@,
            decreases inputs@.len() - i,
        {
            let a = inputs[i];
            self.actions.push(ActionRecord { turn, action: a.action, source: a.source });
            proof {
                assert(records_of(turn, inputs@.take(i + 1)) =~= records_of(
                    turn,
                    inputs@.take(i as int),
                ).push(record_of(turn, inputs@[i as int])));
            }
            i = i + 1;
        }
        assert(inputs@.take(inputs@.len() as int) =~= inputs@);
    }
}

impl ReplayState {
    /// Whether every record of `log` has been fed back.
    pub fn is_complete(&self, log: &SessionLog) -> (b: bool)
        ensures
            b == (self.cursor >= log@.actions.len()),
    {
        self.cursor >= log.actions.len()
    }

    /// One frame of replay on `turn`: feeds back the records due now and
    /// moves the cursor past them.
    ///
    /// Paused, nothing happens. Fast: from the cursor on, records stamped
    /// with an earlier turn are skipped, those stamped with `turn` are fed
    /// back with their own source, and the first record stamped later stops
    /// the cursor. Real-time and step: the record at the cursor, if it is
    /// stamped with `turn`, is fed back as a scripted action.
    pub fn replay_step(&mut self, log: &SessionLog, turn: u64) -> (out: Vec<InputAction>)
        ensures
            final(self).speed == old(self).speed,
            final(self).paused == old(self).paused,
            old(self).paused ==> final(self).cursor == old(self).cursor && out@.len() == 0,
            !old(self).paused && old(self).speed == ReplaySpeed::Fast ==> {
                &&& fast_stop(log@.actions, old(self).cursor as int, turn, final(self).cursor as int)
                &&& final(self).cursor > old(self).cursor ==> out@ == emitted_on(
                    log@.actions.subrange(old(self).cursor as int, final(self).cursor as int),
                    turn,
                )
                &&& final(self).cursor == old(self).cursor ==> out@.len() == 0
            },
            !old(self).paused && old(self).speed != ReplaySpeed::Fast ==> {
                if old(self).cursor < log@.actions.len() && log@.actions[old(
                    self,
                ).cursor as int].turn == turn {
                    &&& final(self).cursor == old(self).cursor + 1
                    &&& out@ == seq![
                        InputAction {
                            action: log@.actions[old(self).cursor as int].action,
                            source: ActionSource::Script,
                        },
                    ]
                } else {
                    final(self).cursor == old(self).cursor && out@.len() == 0
                }
            },
    {
        let mut out: Vec<InputAction> = Vec::new();
        if self.paused {
            return out;
        }
        match self.speed {
            ReplaySpeed::Fast => {
                let from = self.cursor;
                let n = log.actions.len();
                while self.cursor < n && log.actions[self.cursor].turn <= turn
                    invariant
                        n == log@.actions.len(),
                        from <= self.cursor,
                        self.speed == old(self).speed,
                        self.paused == old(self).paused,
                        from == old(self).cursor,
                        forall|i: int|
                            from <= i < self.cursor ==> 0 <= i < n && #[trigger] log@.actions[i].turn
                                <= turn,
                        self.cursor > from ==> out@ == emitted_on(
                            log@.actions.subrange(from as int, self.cursor as int),
                            turn,
                        ),
                        self.cursor == from ==> out@.len() == 0,
                    decreases n - self.cursor,
                {
                    let record = log.actions[self.cursor];
                    let ghost s = log@.actions.subrange(from as int, self.cursor + 1);
                    proof {
                        assert(s.drop_last() =~= log@.actions.subrange(
                            from as int,
                            self.cursor as int,
                        ));
                        assert(s.last() == record);
                        if self.cursor == from {
                            assert(s.drop_last() =~= Seq::<ActionRecord>::empty());
                            assert(emitted_on(s.drop_last(), turn) =~= Seq::<InputAction>::empty());
                        }
                        assert(out@ == emitted_on(s.drop_last(), turn));
                        assert(s.len() > 0);
                        assert(emitted_on(s, turn) == if record.turn == turn {
                            emitted_on(s.drop_last(), turn).push(input_of(record))
                        } else {
                            emitted_on(s.drop_last(), turn)
                        });
                    }
                    if record.turn == turn {
                        let a = InputAction::new(record.action, record.source);
                        assert(a == input_of(record));
                        out.push(a);
                    }
                    assert(out@ == emitted_on(s, turn));
                    self.cursor = self.cursor + 1;
                }
            },
            _ => {
                if self.cursor < log.actions.len() {
                    let record = log.actions[self.cursor];
                    if record.turn == turn {
                        out.push(InputAction::new(record.action, ActionSource::Script));
                        self.cursor = self.cursor + 1;
                    }
                }
            },
        }
        out
    }
}

/// Replay gives back what was recorded: once a fast replay has caught up
/// with a log, the actions recorded on a later `turn` are fed back on that
/// turn exactly as they came, and the cursor ends past them.
pub proof fn lemma_replay_reproduces_recording(
    log: SessionLogView,
    turn: u64,
    inputs: Seq<InputAction>,
    cursor: int,
    stop: int,
)
    requires
        cursor == log.actions.len(),
        fast_stop(log.actions + records_of(turn, inputs), cursor, turn, stop),
    ensures
        stop == cursor + inputs.len(),
        emitted_on((log.actions + records_of(turn, inputs)).subrange(cursor, stop), turn)
            == inputs,
{
    let all = log.actions + records_of(turn, inputs);
    assert(all.len() == cursor + inputs.len());
    if stop > cursor {
        assert(all[stop - 1].turn <= turn);
    }
    if stop < all.len() {
        assert(all[stop] == record_of(turn, inputs[stop - cursor]));
    }
    assert(all.subrange(cursor, stop) =~= records_of(turn, inputs));
    lemma_emitted_all_on_turn(turn, inputs);
}

proof fn lemma_emitted_all_on_turn(turn: u64, inputs: Seq<InputAction>)
    ensures
        emitted_on(records_of(turn, inputs), turn) == inputs,
    decreases inputs.len(),
{
    if inputs.len() > 0 {
        let init = inputs.drop_last();
        lemma_emitted_all_on_turn(turn, init);
        assert(records_of(turn, inputs).drop_last() =~= records_of(turn, init));
        assert(init.push(inputs.last()) =~= inputs);
    } else {
        assert(records_of(turn, inputs) =~= Seq::<ActionRecord>::empty());
    }
}

} // verus!
