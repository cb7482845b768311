//! The session log: the world seed, every recorded player action stamped with
//! its turn, and the per-turn digests of the committed game state; with its
//! byte format.
//!
//! Byte format (all integers little-endian):
//! `"CDRL"`, version byte `1`, world seed (u64), action count (u64), the
//! actions (turn u64, action tag u8 with a u32 payload for hotkeys and custom
//! actions, source tag u8), digest count (u64), the digests (turn u64,
//! digest u64). Nothing may follow the last digest.
use vstd::prelude::*;
use vstd::bytes::*;
use vstd::slice::slice_subrange;
use crate::actions::{ActionSource, GameAction};

verus! {

/// One recorded action, stamped with the turn it was issued on.
#[derive(Clone, Copy, Debug, PartialEq, Eq, Structural)]
pub struct ActionRecord {
    pub turn: u64,
    pub action: GameAction,
    pub source: ActionSource,
}

/// Everything needed to reproduce a session: the world seed, the actions in
/// the order they were issued, and the recorded `(turn, digest)` pairs.
#[derive(Clone, Debug)]
pub struct SessionLog {
    pub world_seed: u64,
    pub actions: Vec<ActionRecord>,
    pub state_hashes: Vec<(u64, u64)>,
}

/// The mathematical content of a session log.
#[verifier::ext_equal]
pub struct SessionLogView {
    pub world_seed: u64,
    pub actions: Seq<ActionRecord>,
    pub state_hashes: Seq<(u64, u64)>,
}

impl View for SessionLog {
    type V = SessionLogView;

    open spec fn view(&self) -> SessionLogView {
        SessionLogView {
            world_seed: self.world_seed,
            actions: self.actions@,
            state_hashes: self.state_hashes@,
        }
    }
}

/// Why a session log could not be read.
#[derive(Clone, Debug, PartialEq, Eq)]
pub enum SessionLogError {
    /// The bytes are not the encoding of any session log.
    Malformed,
    /// The bytes could not be read at all (the message says why).
    Io(String),
}

// ---------------------------------------------------------------------------
// The encoding
// ---------------------------------------------------------------------------

/// The format's header: `"CDRL"` and the format version.
pub open spec fn log_header() -> Seq<u8> {
    seq![0x43u8, 0x44u8, 0x52u8, 0x4cu8, 1u8]
}

pub open spec fn action_tag(a: GameAction) -> u8 {
    match a {
        GameAction::Wait => 0,
        GameAction::Pickup => 1,
        GameAction::Drop => 2,
        GameAction::Open => 3,
        GameAction::Examine => 4,
        GameAction::UseItem => 5,
        GameAction::Confirm => 6,
        GameAction::Cancel => 7,
        GameAction::Filter => 8,
        GameAction::NavigateUp => 9,
        GameAction::NavigateDown => 10,
        GameAction::NavigateLeft => 11,
        GameAction::NavigateRight => 12,
        GameAction::NavigatePageUp => 13,
        GameAction::NavigatePageDown => 14,
        GameAction::NavigateHome => 15,
        GameAction::NavigateEnd => 16,
        GameAction::NavigateNextTab => 17,
        GameAction::NavigatePrevTab => 18,
        GameAction::HotkeyPress(_) => 19,
        GameAction::Custom(_) => 20,
    }
}

pub open spec fn source_tag(s: ActionSource) -> u8 {
    match s {
        ActionSource::Keyboard => 0,
        ActionSource::Mouse => 1,
        ActionSource::Script => 2,
    }
}

pub open spec fn encode_action(a: GameAction) -> Seq<u8> {
    match a {
        GameAction::HotkeyPress(c) => seq![19u8] + spec_u32_to_le_bytes(c as u32),
        GameAction::Custom(n) => seq![20u8] + spec_u32_to_le_bytes(n),
        _ => seq![action_tag(a)],
    }
}

pub open spec fn encode_record(r: ActionRecord) -> Seq<u8> {
    spec_u64_to_le_bytes(r.turn) + encode_action(r.action) + seq![source_tag(r.source)]
}

pub open spec fn encode_records(s: Seq<ActionRecord>) -> Seq<u8>
    decreases s.len(),
{
    if s.len() == 0 {
        Seq::empty()
    } else {
        encode_records(s.drop_last()) + encode_record(s.last())
    }
}

pub open spec fn encode_hash(h: (u64, u64)) -> Seq<u8> {
    spec_u64_to_le_bytes(h.0) + spec_u64_to_le_bytes(h.1)
}

pub open spec fn encode_hashes(s: Seq<(u64, u64)>) -> Seq<u8>
    decreases s.len(),
{
    if s.len() == 0 {
        Seq::empty()
    } else {
        encode_hashes(s.drop_last()) + encode_hash(s.last())
    }
}

/// A log whose counts fit the format's 64-bit count fields.
pub open spec fn encodable(l: SessionLogView) -> bool {
    l.actions.len() <= u64::MAX && l.state_hashes.len() <= u64::MAX
}

/// The bytes that stand for a session log.
pub open spec fn encode_log(l: SessionLogView) -> Seq<u8> {
    log_header() + spec_u64_to_le_bytes(l.world_seed) + spec_u64_to_le_bytes(
        l.actions.len() as u64,
    ) + encode_records(l.actions) + spec_u64_to_le_bytes(l.state_hashes.len() as u64)
        + encode_hashes(l.state_hashes)
}

// ---------------------------------------------------------------------------
// The decoder, stated as a function on byte sequences
// ---------------------------------------------------------------------------

spec fn read_u8(b: Seq<u8>, p: int) -> Option<(u8, int)> {
    if 0 <= p < b.len() {
        Some((b[p], p + 1))
    } else {
        None
    }
}

spec fn read_u32(b: Seq<u8>, p: int) -> Option<(u32, int)> {
    if 0 <= p && p + 4 <= b.len() {
        Some((spec_u32_from_le_bytes(b.subrange(p, p + 4)), p + 4))
    } else {
        None
    }
}

spec fn read_u64(b: Seq<u8>, p: int) -> Option<(u64, int)> {
    if 0 <= p && p + 8 <= b.len() {
        Some((spec_u64_from_le_bytes(b.subrange(p, p + 8)), p + 8))
    } else {
        None
    }
}

/// The code points that are `char`s.
pub open spec fn is_char_code(n: u32) -> bool {
    n <= 0xD7FF || (0xE000 <= n && n <= 0x10FFFF)
}

spec fn plain_action(t: u8) -> GameAction {
    if t == 0 {
        GameAction::Wait
    } else if t == 1 {
        GameAction::Pickup
    } else if t == 2 {
        GameAction::Drop
    } else if t == 3 {
        GameAction::Open
    } else if t == 4 {
        GameAction::Examine
    } else if t == 5 {
        GameAction::UseItem
    } else if t == 6 {
        GameAction::Confirm
    } else if t == 7 {
        GameAction::Cancel
    } else if t == 8 {
        GameAction::Filter
    } else if t == 9 {
        GameAction::NavigateUp
    } else if t == 10 {
        GameAction::NavigateDown
    } else if t == 11 {
        GameAction::NavigateLeft
    } else if t == 12 {
        GameAction::NavigateRight
    } else if t == 13 {
        GameAction::NavigatePageUp
    } else if t == 14 {
        GameAction::NavigatePageDown
    } else if t == 15 {
        GameAction::NavigateHome
    } else if t == 16 {
        GameAction::NavigateEnd
    } else if t == 17 {
        GameAction::NavigateNextTab
    } else {
        GameAction::NavigatePrevTab
    }
}

spec fn source_of(t: u8) -> ActionSource {
    if t == 0 {
        ActionSource::Keyboard
    } else if t == 1 {
        ActionSource::Mouse
    } else {
        ActionSource::Script
    }
}

spec fn parse_action(b: Seq<u8>, p: int) -> Option<(GameAction, int)> {
    match read_u8(b, p) {
        Some((t, q)) => if t <= 18 {
            Some((plain_action(t), q))
        } else if t == 19 {
            match read_u32(b, q) {
                Some((n, r)) => if is_char_code(n) {
                    Some((GameAction::HotkeyPress(n as char), r))
                } else {
                    None
                },
                None => None,
            }
        } else if t == 20 {
            match read_u32(b, q) {
                Some((n, r)) => Some((GameAction::Custom(n), r)),
                None => None,
            }
        } else {
            None
        },
        None => None,
    }
}

spec fn parse_record(b: Seq<u8>, p: int) -> Option<(ActionRecord, int)> {
    match read_u64(b, p) {
        Some((turn, q)) => match parse_action(b, q) {
            Some((action, r)) => match read_u8(b, r) {
                Some((s, e)) => if s <= 2 {
                    Some((ActionRecord { turn, action, source: source_of(s) }, e))
                } else {
                    None
                },
                None => None,
            },
            None => None,
        },
        None => None,
    }
}

spec fn parse_records(b: Seq<u8>, p: int, n: nat) -> Option<(Seq<ActionRecord>, int)>
    decreases n,
{
    if n == 0 {
        Some((Seq::empty(), p))
    } else {
        match parse_records(b, p, (n - 1) as nat) {
            Some((s, q)) => match parse_record(b, q) {
                Some((r, e)) => Some((s.push(r), e)),
                None => None,
            },
            None => None,
        }
    }
}

spec fn parse_hash(b: Seq<u8>, p: int) -> Option<((u64, u64), int)> {
    match read_u64(b, p) {
        Some((t, q)) => match read_u64(b, q) {
            Some((h, e)) => Some(((t, h), e)),
            None => None,
        },
        None => None,
    }
}

spec fn parse_hashes(b: Seq<u8>, p: int, n: nat) -> Option<(Seq<(u64, u64)>, int)>
    decreases n,
{
    if n == 0 {
        Some((Seq::empty(), p))
    } else {
        match parse_hashes(b, p, (n - 1) as nat) {
            Some((s, q)) => match parse_hash(b, q) {
                Some((h, e)) => Some((s.push(h), e)),
                None => None,
            },
            None => None,
        }
    }
}

/// The log that a byte sequence stands for, if any.
pub closed spec fn decode_log(b: Seq<u8>) -> Option<SessionLogView> {
    if b.len() >= 5 && b.subrange(0, 5) == log_header() {
        match read_u64(b, 5) {
            Some((seed, p1)) => match read_u64(b, p1) {
                Some((na, p2)) => match parse_records(b, p2, na as nat) {
                    Some((actions, p3)) => match read_u64(b, p3) {
                        Some((nh, p4)) => match parse_hashes(b, p4, nh as nat) {
                            Some((hashes, p5)) => if p5 == b.len() {
                                Some(
                                    SessionLogView {
                                        world_seed: seed,
                                        actions,
                                        state_hashes: hashes,
                                    },
                                )
                            } else {
                                None
                            },
                            None => None,
                        },
                        None => None,
                    },
                    None => None,
                },
                None => None,
            },
            None => None,
        }
    } else {
        None
    }
}

// ---------------------------------------------------------------------------
// Lemmas relating the encoding to the decoder
// ---------------------------------------------------------------------------

/// `s` stands in `b` from position `p` on.
spec fn occurs_at(b: Seq<u8>, p: int, s: Seq<u8>) -> bool {
    0 <= p && p + s.len() <= b.len() && b.subrange(p, p + s.len()) == s
}

proof fn lemma_occurs_split(b: Seq<u8>, p: int, s1: Seq<u8>, s2: Seq<u8>)
    requires
        occurs_at(b, p, s1 + s2),
    ensures
        occurs_at(b, p, s1),
        occurs_at(b, p + s1.len(), s2),
{
    assert(b.subrange(p, p + s1.len()) =~= (s1 + s2).subrange(0, s1.len() as int));
    assert((s1 + s2).subrange(0, s1.len() as int) =~= s1);
    assert(b.subrange(p + s1.len(), p + s1.len() + s2.len()) =~= (s1 + s2).subrange(
        s1.len() as int,
        (s1.len() + s2.len()) as int,
    ));
    assert((s1 + s2).subrange(s1.len() as int, (s1.len() + s2.len()) as int) =~= s2);
}

proof fn lemma_occurs_join(b: Seq<u8>, p: int, s1: Seq<u8>, s2: Seq<u8>)
    requires
        occurs_at(b, p, s1),
        occurs_at(b, p + s1.len(), s2),
    ensures
        occurs_at(b, p, s1 + s2),
{
    assert(b.subrange(p, p + (s1 + s2).len()) =~= s1 + s2) by {
        assert forall|i: int| 0 <= i < (s1 + s2).len() implies b.subrange(
            p,
            p + (s1 + s2).len(),
        )[i] == (s1 + s2)[i] by {
            if i < s1.len() {
                assert(b.subrange(p, p + s1.len())[i] == s1[i]);
            } else {
                assert(b.subrange(p + s1.len(), p + s1.len() + s2.len())[i - s1.len()] == s2[i
                    - s1.len()]);
            }
        }
    }
}

proof fn lemma_read_u64_of(b: Seq<u8>, p: int, x: u64)
    requires
        occurs_at(b, p, spec_u64_to_le_bytes(x)),
    ensures
        read_u64(b, p) == Some((x, p + 8)),
{
    lemma_auto_spec_u64_to_from_le_bytes();
}

proof fn lemma_read_u64_occurs(b: Seq<u8>, p: int)
    requires
        read_u64(b, p) is Some,
    ensures
        occurs_at(b, p, spec_u64_to_le_bytes(read_u64(b, p).unwrap().0)),
        read_u64(b, p).unwrap().1 == p + 8,
{
    lemma_auto_spec_u64_to_from_le_bytes();
    let s = b.subrange(p, p + 8);
    assert(spec_u64_to_le_bytes(spec_u64_from_le_bytes(s)) == s);
}

proof fn lemma_read_u32_of(b: Seq<u8>, p: int, x: u32)
    requires
        occurs_at(b, p, spec_u32_to_le_bytes(x)),
    ensures
        read_u32(b, p) == Some((x, p + 4)),
{
    lemma_auto_spec_u32_to_from_le_bytes();
}

proof fn lemma_read_u32_occurs(b: Seq<u8>, p: int)
    requires
        read_u32(b, p) is Some,
    ensures
        occurs_at(b, p, spec_u32_to_le_bytes(read_u32(b, p).unwrap().0)),
        read_u32(b, p).unwrap().1 == p + 4,
{
    lemma_auto_spec_u32_to_from_le_bytes();
    let s = b.subrange(p, p + 4);
    assert(spec_u32_to_le_bytes(spec_u32_from_le_bytes(s)) == s);
}

proof fn lemma_char_code(c: char)
    ensures
        is_char_code(c as u32),
        (c as u32) as char == c,
{
}

proof fn lemma_code_char(n: u32)
    requires
        is_char_code(n),
    ensures
        (n as char) as u32 == n,
{
}

proof fn lemma_parse_action_of(b: Seq<u8>, p: int, a: GameAction)
    requires
        occurs_at(b, p, encode_action(a)),
    ensures
        parse_action(b, p) == Some((a, p + encode_action(a).len())),
{
    match a {
        GameAction::HotkeyPress(c) => {
            lemma_occurs_split(b, p, seq![19u8], spec_u32_to_le_bytes(c as u32));
            assert(b.subrange(p, p + 1)[0] == 19u8);
            lemma_read_u32_of(b, p + 1, c as u32);
            lemma_char_code(c);
            lemma_auto_spec_u32_to_from_le_bytes();
        },
        GameAction::Custom(n) => {
            lemma_occurs_split(b, p, seq![20u8], spec_u32_to_le_bytes(n));
            assert(b.subrange(p, p + 1)[0] == 20u8);
            lemma_read_u32_of(b, p + 1, n);
            lemma_auto_spec_u32_to_from_le_bytes();
        },
        _ => {
            assert(b.subrange(p, p + 1)[0] == action_tag(a));
        },
    }
}

proof fn lemma_parse_action_occurs(b: Seq<u8>, p: int)
    requires
        parse_action(b, p) is Some,
    ensures
        occurs_at(b, p, encode_action(parse_action(b, p).unwrap().0)),
        parse_action(b, p).unwrap().1 == p + encode_action(parse_action(b, p).unwrap().0).len(),
{
    let t = b[p];
    let a = parse_action(b, p).unwrap().0;
    if t <= 18 {
        assert(action_tag(plain_action(t)) == t);
        assert(encode_action(a) == seq![t]);
        assert(b.subrange(p, p + 1) =~= seq![t]);
    } else if t == 19 {
        lemma_auto_spec_u32_to_from_le_bytes();
        lemma_read_u32_occurs(b, p + 1);
        let n = read_u32(b, p + 1).unwrap().0;
        lemma_code_char(n);
        assert(b.subrange(p, p + 1) =~= seq![19u8]);
        lemma_occurs_join(b, p, seq![19u8], spec_u32_to_le_bytes(n));
    } else {
        lemma_auto_spec_u32_to_from_le_bytes();
        lemma_read_u32_occurs(b, p + 1);
        let n = read_u32(b, p + 1).unwrap().0;
        assert(b.subrange(p, p + 1) =~= seq![20u8]);
        lemma_occurs_join(b, p, seq![20u8], spec_u32_to_le_bytes(n));
    }
}

proof fn lemma_parse_record_of(b: Seq<u8>, p: int, r: ActionRecord)
    requires
        occurs_at(b, p, encode_record(r)),
    ensures
        parse_record(b, p) == Some((r, p + encode_record(r).len())),
{
    lemma_auto_spec_u64_to_from_le_bytes();
    let t = spec_u64_to_le_bytes(r.turn);
    let a = encode_action(r.action);
    lemma_occurs_split(b, p, t + a, seq![source_tag(r.source)]);
    lemma_occurs_split(b, p, t, a);
    lemma_read_u64_of(b, p, r.turn);
    lemma_parse_action_of(b, p + 8, r.action);
    assert(b.subrange(p + 8 + a.len(), p + 8 + a.len() + 1)[0] == source_tag(r.source));
}

proof fn lemma_parse_record_occurs(b: Seq<u8>, p: int)
    requires
        parse_record(b, p) is Some,
    ensures
        occurs_at(b, p, encode_record(parse_record(b, p).unwrap().0)),
        parse_record(b, p).unwrap().1 == p + encode_record(parse_record(b, p).unwrap().0).len(),
{
    lemma_auto_spec_u64_to_from_le_bytes();
    let r = parse_record(b, p).unwrap().0;
    lemma_read_u64_occurs(b, p);
    lemma_parse_action_occurs(b, p + 8);
    let a = encode_action(r.action);
    let e = p + 8 + a.len();
    assert(source_tag(source_of(b[e])) == b[e]);
    assert(b.subrange(e, e + 1) =~= seq![source_tag(r.source)]);
    lemma_occurs_join(b, p, spec_u64_to_le_bytes(r.turn), a);
    lemma_occurs_join(b, p, spec_u64_to_le_bytes(r.turn) + a, seq![source_tag(r.source)]);
}

proof fn lemma_parse_records_of(b: Seq<u8>, p: int, s: Seq<ActionRecord>)
    requires
        occurs_at(b, p, encode_records(s)),
    ensures
        parse_records(b, p, s.len()) == Some((s, p + encode_records(s).len())),
    decreases s.len(),
{
    if s.len() > 0 {
        let init = s.drop_last();
        lemma_occurs_split(b, p, encode_records(init), encode_record(s.last()));
        lemma_parse_records_of(b, p, init);
        lemma_parse_record_of(b, p + encode_records(init).len(), s.last());
        assert(init.push(s.last()) =~= s);
    } else {
        assert(s =~= Seq::empty());
    }
}

proof fn lemma_parse_records_occurs(b: Seq<u8>, p: int, n: nat)
    requires
        0 <= p <= b.len(),
        parse_records(b, p, n) is Some,
    ensures
        parse_records(b, p, n).unwrap().0.len() == n,
        occurs_at(b, p, encode_records(parse_records(b, p, n).unwrap().0)),
        parse_records(b, p, n).unwrap().1 == p + encode_records(
            parse_records(b, p, n).unwrap().0,
        ).len(),
    decreases n,
{
    if n == 0 {
        assert(b.subrange(p, p) =~= Seq::<u8>::empty());
    } else {
        lemma_parse_records_occurs(b, p, (n - 1) as nat);
        let (init, q) = parse_records(b, p, (n - 1) as nat).unwrap();
        lemma_parse_record_occurs(b, q);
        let r = parse_record(b, q).unwrap().0;
        assert(init.push(r).drop_last() =~= init);
        lemma_occurs_join(b, p, encode_records(init), encode_record(r));
    }
}

proof fn lemma_parse_hash_of(b: Seq<u8>, p: int, h: (u64, u64))
    requires
        occurs_at(b, p, encode_hash(h)),
    ensures
        parse_hash(b, p) == Some((h, p + 16)),
{
    lemma_auto_spec_u64_to_from_le_bytes();
    lemma_occurs_split(b, p, spec_u64_to_le_bytes(h.0), spec_u64_to_le_bytes(h.1));
    lemma_read_u64_of(b, p, h.0);
    lemma_read_u64_of(b, p + 8, h.1);
}

proof fn lemma_parse_hash_occurs(b: Seq<u8>, p: int)
    requires
        parse_hash(b, p) is Some,
    ensures
        occurs_at(b, p, encode_hash(parse_hash(b, p).unwrap().0)),
        parse_hash(b, p).unwrap().1 == p + 16,
{
    lemma_auto_spec_u64_to_from_le_bytes();
    lemma_read_u64_occurs(b, p);
    lemma_read_u64_occurs(b, p + 8);
    let h = parse_hash(b, p).unwrap().0;
    lemma_occurs_join(b, p, spec_u64_to_le_bytes(h.0), spec_u64_to_le_bytes(h.1));
}

proof fn lemma_parse_hashes_of(b: Seq<u8>, p: int, s: Seq<(u64, u64)>)
    requires
        occurs_at(b, p, encode_hashes(s)),
    ensures
        parse_hashes(b, p, s.len()) == Some((s, p + encode_hashes(s).len())),
    decreases s.len(),
{
    lemma_auto_spec_u64_to_from_le_bytes();
    if s.len() > 0 {
        let init = s.drop_last();
        lemma_occurs_split(b, p, encode_hashes(init), encode_hash(s.last()));
        lemma_parse_hashes_of(b, p, init);
        lemma_parse_hash_of(b, p + encode_hashes(init).len(), s.last());
        assert(init.push(s.last()) =~= s);
    } else {
        assert(s =~= Seq::empty());
    }
}

proof fn lemma_parse_hashes_occurs(b: Seq<u8>, p: int, n: nat)
    requires
        0 <= p <= b.len(),
        parse_hashes(b, p, n) is Some,
    ensures
        parse_hashes(b, p, n).unwrap().0.len() == n,
        occurs_at(b, p, encode_hashes(parse_hashes(b, p, n).unwrap().0)),
        parse_hashes(b, p, n).unwrap().1 == p + encode_hashes(
            parse_hashes(b, p, n).unwrap().0,
        ).len(),
    decreases n,
{
    lemma_auto_spec_u64_to_from_le_bytes();
    if n == 0 {
        assert(b.subrange(p, p) =~= Seq::<u8>::empty());
    } else {
        lemma_parse_hashes_occurs(b, p, (n - 1) as nat);
        let (init, q) = parse_hashes(b, p, (n - 1) as nat).unwrap();
        lemma_parse_hash_occurs(b, q);
        let h = parse_hash(b, q).unwrap().0;
        assert(init.push(h).drop_last() =~= init);
        lemma_occurs_join(b, p, encode_hashes(init), encode_hash(h));
    }
}

/// Decoding gives back every log that was encoded.
pub proof fn lemma_decode_encode(l: SessionLogView)
    requires
        encodable(l),
    ensures
        decode_log(encode_log(l)) == Some(l),
{
    lemma_auto_spec_u64_to_from_le_bytes();
    let b = encode_log(l);
    let h = log_header();
    let s8 = spec_u64_to_le_bytes(l.world_seed);
    let na = spec_u64_to_le_bytes(l.actions.len() as u64);
    let ra = encode_records(l.actions);
    let nh = spec_u64_to_le_bytes(l.state_hashes.len() as u64);
    let rh = encode_hashes(l.state_hashes);
    assert(occurs_at(b, 0, b)) by {
        assert(b.subrange(0, b.len() as int) =~= b);
    }
    lemma_occurs_split(b, 0, h + s8 + na + ra + nh, rh);
    lemma_occurs_split(b, 0, h + s8 + na + ra, nh);
    lemma_occurs_split(b, 0, h + s8 + na, ra);
    lemma_occurs_split(b, 0, h + s8, na);
    lemma_occurs_split(b, 0, h, s8);
    lemma_read_u64_of(b, 5, l.world_seed);
    lemma_read_u64_of(b, 13, l.actions.len() as u64);
    lemma_parse_records_of(b, 21, l.actions);
    let p3: int = 21 + ra.len() as int;
    lemma_read_u64_of(b, p3, l.state_hashes.len() as u64);
    lemma_parse_hashes_of(b, p3 + 8, l.state_hashes);
}

/// Every byte sequence that decodes is the encoding of what it decodes to.
pub proof fn lemma_encode_decode(b: Seq<u8>)
    requires
        decode_log(b) is Some,
    ensures
        encodable(decode_log(b).unwrap()),
        encode_log(decode_log(b).unwrap()) == b,
{
    lemma_auto_spec_u64_to_from_le_bytes();
    let l = decode_log(b).unwrap();
    let h = log_header();
    lemma_read_u64_occurs(b, 5);
    lemma_read_u64_occurs(b, 13);
    let na = read_u64(b, 13).unwrap().0;
    lemma_parse_records_occurs(b, 21, na as nat);
    let p3 = parse_records(b, 21, na as nat).unwrap().1;
    lemma_read_u64_occurs(b, p3);
    let nh = read_u64(b, p3).unwrap().0;
    lemma_parse_hashes_occurs(b, p3 + 8, nh as nat);
    assert(occurs_at(b, 0, h)) by {
        assert(b.subrange(0, 5) == h);
    }
    lemma_occurs_join(b, 0, h, spec_u64_to_le_bytes(l.world_seed));
    lemma_occurs_join(b, 0, h + spec_u64_to_le_bytes(l.world_seed), spec_u64_to_le_bytes(na));
    let e2 = h + spec_u64_to_le_bytes(l.world_seed) + spec_u64_to_le_bytes(na);
    lemma_occurs_join(b, 0, e2, encode_records(l.actions));
    let e3 = e2 + encode_records(l.actions);
    lemma_occurs_join(b, 0, e3, spec_u64_to_le_bytes(nh));
    let e4 = e3 + spec_u64_to_le_bytes(nh);
    lemma_occurs_join(b, 0, e4, encode_hashes(l.state_hashes));
    assert(b.subrange(0, b.len() as int) =~= b);
}


/// Two encodable logs with the same bytes are the same log.
pub proof fn lemma_encoding_injective(l1: SessionLogView, l2: SessionLogView)
    requires
        encodable(l1),
        encodable(l2),
        encode_log(l1) == encode_log(l2),
    ensures
        l1 == l2,
{
    lemma_decode_encode(l1);
    lemma_decode_encode(l2);
}

// ---------------------------------------------------------------------------
// Executable encoder and decoder
// ---------------------------------------------------------------------------

/// `char::from_u32`: the `char` whose code point is `n`, if `n` is one
/// (std documents that it returns `None` exactly for surrogates and values
/// above `0x10FFFF`).
#[verifier::external_body]
fn char_from_code(n: u32) -> (r: Option<char>)
    ensures
        r is Some <==> is_char_code(n),
        r matches Some(c) ==> c as u32 == n,
{
    char::from_u32(n)
}

fn push_u64(out: &mut Vec<u8>, x: u64)
    ensures
        final(out)@ == old(out)@ + spec_u64_to_le_bytes(x),
{
    let mut b = u64_to_le_bytes(x);
    out.append(&mut b);
}

fn push_u32(out: &mut Vec<u8>, x: u32)
    ensures
        final(out)@ == old(out)@ + spec_u32_to_le_bytes(x),
{
    let mut b = u32_to_le_bytes(x);
    out.append(&mut b);
}

fn push_action(out: &mut Vec<u8>, a: GameAction)
    ensures
        final(out)@ == old(out)@ + encode_action(a),
{
    let tag: u8 = match a {
        GameAction::Wait => 0,
        GameAction::Pickup => 1,
        GameAction::Drop => 2,
        GameAction::Open => 3,
        GameAction::Examine => 4,
        GameAction::UseItem => 5,
        GameAction::Confirm => 6,
        GameAction::Cancel => 7,
        GameAction::Filter => 8,
        GameAction::NavigateUp => 9,
        GameAction::NavigateDown => 10,
        GameAction::NavigateLeft => 11,
        GameAction::NavigateRight => 12,
        GameAction::NavigatePageUp => 13,
        GameAction::NavigatePageDown => 14,
        GameAction::NavigateHome => 15,
        GameAction::NavigateEnd => 16,
        GameAction::NavigateNextTab => 17,
        GameAction::NavigatePrevTab => 18,
        GameAction::HotkeyPress(_) => 19,
        GameAction::Custom(_) => 20,
    };
    out.push(tag);
    match a {
        GameAction::HotkeyPress(c) => push_u32(out, c as u32),
        GameAction::Custom(n) => push_u32(out, n),
        _ => {},
    }
}

fn push_record(out: &mut Vec<u8>, r: &ActionRecord)
    ensures
        final(out)@ == old(out)@ + encode_record(*r),
{
    push_u64(out, r.turn);
    push_action(out, r.action);
    let tag: u8 = match r.source {
        ActionSource::Keyboard => 0,
        ActionSource::Mouse => 1,
        ActionSource::Script => 2,
    };
    out.push(tag);
}

fn read_u64_at(b: &[u8], pos: usize) -> (r: Option<(u64, usize)>)
    requires
        pos <= b@.len(),
    ensures
        match r {
            Some((v, q)) => read_u64(b@, pos as int) == Some((v, q as int)),
            None => read_u64(b@, pos as int) is None,
        },
{
    if b.len() - pos < 8 {
        None
    } else {
        Some((u64_from_le_bytes(slice_subrange(b, pos, pos + 8)), pos + 8))
    }
}

fn read_u32_at(b: &[u8], pos: usize) -> (r: Option<(u32, usize)>)
    requires
        pos <= b@.len(),
    ensures
        match r {
            Some((v, q)) => read_u32(b@, pos as int) == Some((v, q as int)),
            None => read_u32(b@, pos as int) is None,
        },
{
    if b.len() - pos < 4 {
        None
    } else {
        Some((u32_from_le_bytes(slice_subrange(b, pos, pos + 4)), pos + 4))
    }
}

fn read_action_at(b: &[u8], pos: usize) -> (r: Option<(GameAction, usize)>)
    requires
        pos <= b@.len(),
    ensures
        match r {
            Some((a, q)) => parse_action(b@, pos as int) == Some((a, q as int)) && q <= b@.len(),
            None => parse_action(b@, pos as int) is None,
        },
{
    if pos >= b.len() {
        return None;
    }
    let t = b[pos];
    let q = pos + 1;
    let a = if t == 0 {
        GameAction::Wait
    } else if t == 1 {
        GameAction::Pickup
    } else if t == 2 {
        GameAction::Drop
    } else if t == 3 {
        GameAction::Open
    } else if t == 4 {
        GameAction::Examine
    } else if t == 5 {
        GameAction::UseItem
    } else if t == 6 {
        GameAction::Confirm
    } else if t == 7 {
        GameAction::Cancel
    } else if t == 8 {
        GameAction::Filter
    } else if t == 9 {
        GameAction::NavigateUp
    } else if t == 10 {
        GameAction::NavigateDown
    } else if t == 11 {
        GameAction::NavigateLeft
    } else if t == 12 {
        GameAction::NavigateRight
    } else if t == 13 {
        GameAction::NavigatePageUp
    } else if t == 14 {
        GameAction::NavigatePageDown
    } else if t == 15 {
        GameAction::NavigateHome
    } else if t == 16 {
        GameAction::NavigateEnd
    } else if t == 17 {
        GameAction::NavigateNextTab
    } else if t == 18 {
        GameAction::NavigatePrevTab
    } else if t == 19 {
        match read_u32_at(b, q) {
            Some((n, r)) => match char_from_code(n) {
                Some(c) => {
                    proof {
                        lemma_char_code(c);
                    }
                    return Some((GameAction::HotkeyPress(c), r));
                },
                None => return None,
            },
            None => return None,
        }
    } else if t == 20 {
        match read_u32_at(b, q) {
            Some((n, r)) => return Some((GameAction::Custom(n), r)),
            None => return None,
        }
    } else {
        return None;
    };
    Some((a, q))
}

fn read_record_at(b: &[u8], pos: usize) -> (r: Option<(ActionRecord, usize)>)
    requires
        pos <= b@.len(),
    ensures
        match r {
            Some((rec, q)) => parse_record(b@, pos as int) == Some((rec, q as int)) && q
                <= b@.len(),
            None => parse_record(b@, pos as int) is None,
        },
{
    let (turn, q) = match read_u64_at(b, pos) {
        Some(v) => v,
        None => return None,
    };
    let (action, r) = match read_action_at(b, q) {
        Some(v) => v,
        None => return None,
    };
    if r >= b.len() {
        return None;
    }
    let t = b[r];
    let source = if t == 0 {
        ActionSource::Keyboard
    } else if t == 1 {
        ActionSource::Mouse
    } else if t == 2 {
        ActionSource::Script
    } else {
        return None;
    };
    Some((ActionRecord { turn, action, source }, r + 1))
}

impl SessionLog {
    /// An empty log for a world generated from `world_seed`.
    pub fn new(world_seed: u64) -> (log: SessionLog)
        ensures
            log@.world_seed == world_seed,
            log@.actions == Seq::<ActionRecord>::empty(),
            log@.state_hashes == Seq::<(u64, u64)>::empty(),
    {
        SessionLog { world_seed, actions: Vec::new(), state_hashes: Vec::new() }
    }

    /// The number of recorded actions.
    pub fn len(&self) -> (n: usize)
        ensures
            n == self@.actions.len(),
    {
        self.actions.len()
    }

    /// Whether no action has been recorded.
    pub fn is_empty(&self) -> (b: bool)
        ensures
            b == (self@.actions.len() == 0),
    {
        self.actions.len() == 0
    }

    /// Appends one action record.
    pub fn push_action(&mut self, record: ActionRecord)
        ensures
            final(self)@.world_seed == old(self)@.world_seed,
            final(self)@.actions == old(self)@.actions.push(record),
            final(self)@.state_hashes == old(self)@.state_hashes,
    {
        self.actions.push(record);
    }

    /// The log's bytes in the session-log format.
    pub fn to_bytes(&self) -> (r: Result<Vec<u8>, SessionLogError>)
        ensures
            r matches Ok(bytes) && bytes@ == encode_log(self@),
    {
        let mut out: Vec<u8> = Vec::new();
        out.push(0x43u8);
        out.push(0x44u8);
        out.push(0x52u8);
        out.push(0x4cu8);
        out.push(1u8);
        assert(out@ =~= log_header());
        push_u64(&mut out, self.world_seed);
        push_u64(&mut out, self.actions.len() as u64);
        let ghost prefix = out@;
        let mut i: usize = 0;
        while i < self.actions.len()
            invariant
                i <= self.actions@.len(),
                out@ == prefix + encode_records(self.actions@.take(i as int)),
            decreases self.actions@.len() - i,
        {
            proof {
                let s = self.actions@.take(i + 1);
                assert(s.drop_last() =~= self.actions@.take(i as int));
                assert(s.last() == self.actions@[i as int]);
            }
            push_record(&mut out, &self.actions[i]);
            proof {
                assert(prefix + encode_records(self.actions@.take(i as int)) + encode_record(
                    self.actions@[i as int],
                ) =~= prefix + encode_records(self.actions@.take(i + 1)));
            }
            i = i + 1;
        }
        assert(self.actions@.take(self.actions@.len() as int) =~= self.actions@);
        push_u64(&mut out, self.state_hashes.len() as u64);
        let ghost prefix2 = out@;
        let mut j: usize = 0;
        while j < self.state_hashes.len()
            invariant
                j <= self.state_hashes@.len(),
                out@ == prefix2 + encode_hashes(self.state_hashes@.take(j as int)),
            decreases self.state_hashes@.len() - j,
        {
            proof {
                let s = self.state_hashes@.take(j + 1);
                assert(s.drop_last() =~= self.state_hashes@.take(j as int));
                assert(s.last() == self.state_hashes@[j as int]);
            }
            let (t, h) = self.state_hashes[j];
            push_u64(&mut out, t);
            push_u64(&mut out, h);
            proof {
                assert(prefix2 + encode_hashes(self.state_hashes@.take(j as int))
                    + spec_u64_to_le_bytes(t) + spec_u64_to_le_bytes(h) =~= prefix2
                    + encode_hashes(self.state_hashes@.take(j + 1)));
            }
            j = j + 1;
        }
        assert(self.state_hashes@.take(self.state_hashes@.len() as int) =~= self.state_hashes@);
        Ok(out)
    }

    /// The log that `bytes` encode; `Malformed` when they encode none.
    pub fn from_bytes(bytes: &[u8]) -> (r: Result<SessionLog, SessionLogError>)
        ensures
            r matches Ok(log) ==> encode_log(log@) == bytes@,
            r is Err <==> !(exists|l: SessionLogView| encode_log(l) == bytes@),
            r matches Err(e) ==> e == SessionLogError::Malformed,
    {
        let n = bytes.len();
        let r = Self::decode(bytes);
        proof {
            if r is Ok {
                lemma_encode_decode(bytes@);
            } else if exists|l: SessionLogView| encode_log(l) == bytes@ {
                assert(bytes@.len() == n);
                let l = choose|l: SessionLogView| encode_log(l) == bytes@;
                lemma_encoding_is_encodable(l, bytes@);
                lemma_decode_encode(l);
            }
        }
        r
    }

    fn decode(b: &[u8]) -> (r: Result<SessionLog, SessionLogError>)
        ensures
            match r {
                Ok(log) => decode_log(b@) == Some(log@),
                Err(e) => decode_log(b@) is None && e == SessionLogError::Malformed,
            },
    {
        reveal(decode_log);
        if b.len() < 5 || b[0] != 0x43u8 || b[1] != 0x44u8 || b[2] != 0x52u8 || b[3] != 0x4cu8
            || b[4] != 1u8 {
            proof {
                if b@.len() >= 5 && b@.subrange(0, 5) == log_header() {
                    assert(b@.subrange(0, 5)[0] == b@[0]);
                    assert(b@.subrange(0, 5)[1] == b@[1]);
                    assert(b@.subrange(0, 5)[2] == b@[2]);
                    assert(b@.subrange(0, 5)[3] == b@[3]);
                    assert(b@.subrange(0, 5)[4] == b@[4]);
                }
            }
            return Err(SessionLogError::Malformed);
        }
        assert(b@.subrange(0, 5) =~= log_header());
        let (seed, p1) = match read_u64_at(b, 5) {
            Some(v) => v,
            None => return Err(SessionLogError::Malformed),
        };
        let (na, p2) = match read_u64_at(b, p1) {
            Some(v) => v,
            None => return Err(SessionLogError::Malformed),
        };
        let mut actions: Vec<ActionRecord> = Vec::new();
        let mut pos = p2;
        let mut i: u64 = 0;
        while i < na
            invariant
                b@.len() >= 5 && b@.subrange(0, 5) == log_header(),
                read_u64(b@, 5) == Some((seed, p1 as int)),
                read_u64(b@, p1 as int) == Some((na, p2 as int)),
                i <= na,
                pos <= b@.len(),
                parse_records(b@, p2 as int, i as nat) == Some((actions@, pos as int)),
            decreases na - i,
        {
            match read_record_at(b, pos) {
                Some((rec, q)) => {
                    actions.push(rec);
                    pos = q;
                },
                None => {
                    proof {
                        lemma_parse_records_stops(b@, p2 as int, i as nat, na as nat);
                    }
                    return Err(SessionLogError::Malformed);
                },
            }
            i = i + 1;
        }
        let (nh, p4) = match read_u64_at(b, pos) {
            Some(v) => v,
            None => return Err(SessionLogError::Malformed),
        };
        let mut state_hashes: Vec<(u64, u64)> = Vec::new();
        let mut pos2 = p4;
        let mut j: u64 = 0;
        while j < nh
            invariant
                b@.len() >= 5 && b@.subrange(0, 5) == log_header(),
                read_u64(b@, 5) == Some((seed, p1 as int)),
                read_u64(b@, p1 as int) == Some((na, p2 as int)),
                parse_records(b@, p2 as int, na as nat) == Some((actions@, pos as int)),
                read_u64(b@, pos as int) == Some((nh, p4 as int)),
                j <= nh,
                pos2 <= b@.len(),
                parse_hashes(b@, p4 as int, j as nat) == Some((state_hashes@, pos2 as int)),
            decreases nh - j,
        {
            let (t, q) = match read_u64_at(b, pos2) {
                Some(v) => v,
                None => {
                    proof {
                        lemma_parse_hashes_stops(b@, p4 as int, j as nat, nh as nat);
                    }
                    return Err(SessionLogError::Malformed);
                },
            };
            let (h, e) = match read_u64_at(b, q) {
                Some(v) => v,
                None => {
                    proof {
                        lemma_parse_hashes_stops(b@, p4 as int, j as nat, nh as nat);
                    }
                    return Err(SessionLogError::Malformed);
                },
            };
            state_hashes.push((t, h));
            pos2 = e;
            j = j + 1;
        }
        if pos2 != b.len() {
            return Err(SessionLogError::Malformed);
        }
        let log = SessionLog { world_seed: seed, actions, state_hashes };
        assert(decode_log(b@).unwrap() =~= log@);
        Ok(log)
    }
}

impl Default for SessionLog {
    /// An empty log with world seed 0.
    fn default() -> (log: SessionLog)
        ensures
            log@.world_seed == 0,
            log@.actions == Seq::<ActionRecord>::empty(),
            log@.state_hashes == Seq::<(u64, u64)>::empty(),
    {
        SessionLog::new(0)
    }
}

/// Once a step of the record parser fails, every later count fails too.
proof fn lemma_parse_records_stops(b: Seq<u8>, p: int, i: nat, n: nat)
    requires
        i < n,
        parse_records(b, p, i) is Some,
        parse_record(b, parse_records(b, p, i).unwrap().1) is None,
    ensures
        parse_records(b, p, n) is None,
    decreases n,
{
    if n > i + 1 {
        lemma_parse_records_stops(b, p, i, (n - 1) as nat);
    }
}

proof fn lemma_parse_hashes_stops(b: Seq<u8>, p: int, i: nat, n: nat)
    requires
        i < n,
        parse_hashes(b, p, i) is Some,
        parse_hash(b, parse_hashes(b, p, i).unwrap().1) is None,
    ensures
        parse_hashes(b, p, n) is None,
    decreases n,
{
    if n > i + 1 {
        lemma_parse_hashes_stops(b, p, i, (n - 1) as nat);
    }
}

proof fn lemma_records_len(s: Seq<ActionRecord>)
    ensures
        encode_records(s).len() >= s.len(),
    decreases s.len(),
{
    lemma_auto_spec_u64_to_from_le_bytes();
    if s.len() > 0 {
        lemma_records_len(s.drop_last());
    }
}

proof fn lemma_hashes_len(s: Seq<(u64, u64)>)
    ensures
        encode_hashes(s).len() >= s.len(),
    decreases s.len(),
{
    lemma_auto_spec_u64_to_from_le_bytes();
    if s.len() > 0 {
        lemma_hashes_len(s.drop_last());
    }
}

/// A log whose encoding fits in memory has counts that fit the format.
proof fn lemma_encoding_is_encodable(l: SessionLogView, b: Seq<u8>)
    requires
        encode_log(l) == b,
        b.len() <= u64::MAX,
    ensures
        encodable(l),
{
    lemma_records_len(l.actions);
    lemma_hashes_len(l.state_hashes);
}

} // verus!
