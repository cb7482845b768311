//! Digests of the committed gameplay state, recorded per turn, and the
//! divergence check of a replay against the recorded digests.
//!
//! The digest covers, per non-definition entity, its stable identity and its
//! position, action points, health and stack count, plus the ownership edges
//! (containment, wielding, wearing) between entities by stable identity.
//! Rows and edges are sorted before hashing, so the order in which entities
//! were spawned does not enter the digest.
use vstd::prelude::*;
use std::collections::hash_map::DefaultHasher;
use std::hash::Hasher;
use vstd::std_specs::hash::DefaultHasherAdditionalSpecFns;
use vstd::bytes::{spec_u32_to_le_bytes, spec_u64_to_le_bytes, u32_to_le_bytes, u64_to_le_bytes};
use crate::order::{pair_order, sort_pairs, lemma_sort_ignores_order};
use crate::session_log::{SessionLog, SessionLogView};
use crate::text::{digits, push_digits, string_of};

verus! {

/// A world position.
#[derive(Clone, Copy, Debug, PartialEq, Eq, Structural)]
pub struct Position {
    pub x: i32,
    pub y: i32,
    pub z: i8,
}

/// Current and maximum health.
#[derive(Clone, Copy, Debug, PartialEq, Eq, Structural)]
pub struct Health {
    pub current: i32,
    pub max: i32,
}

/// The gameplay state of one non-definition entity.
#[derive(Clone, Copy, Debug, PartialEq, Eq, Structural)]
pub struct EntityState {
    /// The entity's bits in the world it lives in.
    pub entity: u64,
    /// Its stable simulation id, when it has one.
    pub sim_id: Option<u64>,
    pub position: Option<Position>,
    /// Current action points.
    pub action_points: Option<i32>,
    pub health: Option<Health>,
    /// Stack count.
    pub stack: Option<u32>,
}

/// An ownership link: `item` is inside, wielded by or worn by `owner`
/// (entity bits of both).
#[derive(Clone, Copy, Debug, PartialEq, Eq, Structural)]
pub struct OwnershipLink {
    pub item: u64,
    pub owner: u64,
}

/// The identity an entity is digested under: its simulation id, else its
/// entity bits (stable within one world only).
pub open spec fn stable_id(e: EntityState) -> u64 {
    match e.sim_id {
        Some(id) => id,
        None => e.entity,
    }
}

/// No two entities share their bits (as in any one world).
pub open spec fn distinct_entities(es: Seq<EntityState>) -> bool {
    forall|i: int, j: int|
        0 <= i < es.len() && 0 <= j < es.len() && i != j ==> #[trigger] es[i].entity
            != #[trigger] es[j].entity
}

/// The entity with bits `bits` is among `es`.
pub open spec fn has_entity(es: Seq<EntityState>, bits: u64) -> bool {
    exists|i: int| 0 <= i < es.len() && #[trigger] es[i].entity == bits
}

/// The stable id of the entity with bits `bits` among `es`.
pub open spec fn stable_id_of(es: Seq<EntityState>, bits: u64) -> u64 {
    stable_id(es[choose|i: int| 0 <= i < es.len() && #[trigger] es[i].entity == bits])
}

/// One row per entity: its stable id and its state digest, in entity order.
pub open spec fn rows_of(es: Seq<EntityState>, digests: Seq<u64>) -> Seq<(u64, u64)> {
    Seq::new(es.len(), |i: int| (stable_id(es[i]), digests[i]))
}

/// The ownership edges by stable ids, in link order; links whose owner is
/// not among the entities (a definition) are left out.
pub open spec fn edges_of(es: Seq<EntityState>, links: Seq<OwnershipLink>) -> Seq<(u64, u64)>
    decreases links.len(),
{
    if links.len() == 0 {
        Seq::empty()
    } else {
        let l = links.last();
        let rest = edges_of(es, links.drop_last());
        if has_entity(es, l.owner) {
            rest.push((stable_id_of(es, l.item), stable_id_of(es, l.owner)))
        } else {
            rest
        }
    }
}

/// Every link's item is one of the entities.
pub open spec fn links_within(es: Seq<EntityState>, links: Seq<OwnershipLink>) -> bool {
    forall|k: int| 0 <= k < links.len() ==> has_entity(es, #[trigger] links[k].item)
}

fn find_entity(es: &[EntityState], bits: u64) -> (r: Option<usize>)
    ensures
        match r {
            Some(i) => i < es@.len() && es@[i as int].entity == bits,
            None => !has_entity(es@, bits),
        },
{
    let mut i: usize = 0;
    while i < es.len()
        invariant
            i <= es@.len(),
            forall|k: int| 0 <= k < i ==> es@[k].entity != bits,
        decreases es@.len() - i,
    {
        if es[i].entity == bits {
            return Some(i);
        }
        i = i + 1;
    }
    None
}

proof fn lemma_stable_id_of(es: Seq<EntityState>, i: int)
    requires
        distinct_entities(es),
        0 <= i < es.len(),
    ensures
        stable_id_of(es, es[i].entity) == stable_id(es[i]),
{
    let bits = es[i].entity;
    let j = choose|j: int| 0 <= j < es.len() && #[trigger] es[j].entity == bits;
    assert(es[j].entity == es[i].entity);
}

fn stable_id_exec(e: &EntityState) -> (r: u64)
    ensures
        r == stable_id(*e),
{
    match e.sim_id {
        Some(id) => id,
        None => e.entity,
    }
}

/// The digest rows in canonical (sorted) order.
pub fn canonical_rows(entities: &[EntityState], digests: &[u64]) -> (r: Vec<(u64, u64)>)
    requires
        entities@.len() == digests@.len(),
    ensures
        r@ == rows_of(entities@, digests@).sort_by(pair_order()),
{
    let mut rows: Vec<(u64, u64)> = Vec::new();
    let mut i: usize = 0;
    while i < entities.len()
        invariant
            entities@.len() == digests@.len(),
            i <= entities@.len(),
            rows@ == rows_of(entities@, digests@).take(i as int),
        decreases entities@.len() - i,
    {
        rows.push((stable_id_exec(&entities[i]), digests[i]));
        proof {
            assert(rows_of(entities@, digests@).take(i + 1) =~= rows_of(entities@, digests@).take(
                i as int,
            ).push((stable_id(entities@[i as int]), digests@[i as int])));
        }
        i = i + 1;
    }
    assert(rows_of(entities@, digests@).take(entities@.len() as int) =~= rows_of(
        entities@,
        digests@,
    ));
    sort_pairs(&rows)
}

/// The ownership edges in canonical (sorted) order.
pub fn canonical_edges(entities: &[EntityState], links: &[OwnershipLink]) -> (r: Vec<(u64, u64)>)
    requires
        distinct_entities(entities@),
        links_within(entities@, links@),
    ensures
        r@ == edges_of(entities@, links@).sort_by(pair_order()),
{
    let mut edges: Vec<(u64, u64)> = Vec::new();
    let mut k: usize = 0;
    while k < links.len()
        invariant
            distinct_entities(entities@),
            links_within(entities@, links@),
            k <= links@.len(),
            edges@ == edges_of(entities@, links@.take(k as int)),
        decreases links@.len() - k,
    {
        let link = links[k];
        proof {
            assert(links@.take(k + 1).drop_last() =~= links@.take(k as int));
            assert(links@.take(k + 1).last() == link);
            assert(has_entity(entities@, links@[k as int].item));
        }
        match find_entity(entities, link.owner) {
            Some(o) => {
                let it = find_entity(entities, link.item);
                let item_index = it.unwrap();
                proof {
                    lemma_stable_id_of(entities@, o as int);
                    lemma_stable_id_of(entities@, item_index as int);
                }
                edges.push(
                    (stable_id_exec(&entities[item_index]), stable_id_exec(&entities[o])),
                );
            },
            None => {},
        }
        k = k + 1;
    }
    assert(links@.take(links@.len() as int) =~= links@);
    sort_pairs(&edges)
}

/// The bytes a 32-bit signed value is hashed as: little-endian.
pub open spec fn i32_bytes(v: i32) -> Seq<u8> {
    spec_u32_to_le_bytes(v as u32)
}

/// The bytes a 64-bit value is hashed as: little-endian.
pub open spec fn u64_bytes(v: u64) -> Seq<u8> {
    spec_u64_to_le_bytes(v)
}

/// The writes of an optional value: a tag (0 for none, 1 for some), then
/// the value's bytes.
pub open spec fn opt_writes(v: Option<Seq<u8>>) -> Seq<Seq<u8>> {
    match v {
        Some(b) => seq![u64_bytes(1), b],
        None => seq![u64_bytes(0)],
    }
}

/// What is fed to the hasher for one entity, one write per field: its
/// position (when present: x, y, level), its action points, its health
/// (when present: current, maximum) and its stack count.
pub open spec fn entity_writes(e: EntityState) -> Seq<Seq<u8>> {
    (match e.position {
        Some(p) => seq![i32_bytes(p.x), i32_bytes(p.y), seq![p.z as u8]],
        None => Seq::empty(),
    }) + opt_writes(
        match e.action_points {
            Some(a) => Some(i32_bytes(a)),
            None => None,
        },
    ) + (match e.health {
        Some(h) => seq![i32_bytes(h.current), i32_bytes(h.max)],
        None => Seq::empty(),
    }) + opt_writes(
        match e.stack {
            Some(n) => Some(spec_u32_to_le_bytes(n)),
            None => None,
        },
    )
}

proof fn lemma_i32_bytes_injective(a: i32, b: i32)
    requires
        i32_bytes(a) == i32_bytes(b),
    ensures
        a == b,
{
    vstd::bytes::lemma_auto_spec_u32_to_from_le_bytes();
    let ua = a as u32;
    let ub = b as u32;
    assert(spec_u32_to_le_bytes(ua).len() == 4);
    assert(spec_u32_to_le_bytes(ub).len() == 4);
    assert(spec_u32_to_le_bytes(ua) == spec_u32_to_le_bytes(ub));
    assert(ua == ub);
    assert(a == b) by (bit_vector)
        requires
            a as u32 == b as u32,
    ;
}

/// Health is part of what is hashed for an entity: two entities that agree
/// in every hashed field but their health (its presence, its current or its
/// maximum value) feed different writes to the hasher.
pub proof fn lemma_health_is_hashed(e1: EntityState, e2: EntityState)
    requires
        e1.position == e2.position,
        e1.action_points == e2.action_points,
        e1.stack == e2.stack,
        e1.health != e2.health,
    ensures
        entity_writes(e1) != entity_writes(e2),
{
    let pos = match e1.position {
        Some(p) => seq![i32_bytes(p.x), i32_bytes(p.y), seq![p.z as u8]],
        None => Seq::<Seq<u8>>::empty(),
    };
    let ap = opt_writes(
        match e1.action_points {
            Some(a) => Some(i32_bytes(a)),
            None => None,
        },
    );
    let st = opt_writes(
        match e1.stack {
            Some(n) => Some(spec_u32_to_le_bytes(n)),
            None => None,
        },
    );
    let h1 = match e1.health {
        Some(h) => seq![i32_bytes(h.current), i32_bytes(h.max)],
        None => Seq::<Seq<u8>>::empty(),
    };
    let h2 = match e2.health {
        Some(h) => seq![i32_bytes(h.current), i32_bytes(h.max)],
        None => Seq::<Seq<u8>>::empty(),
    };
    let w1 = entity_writes(e1);
    let w2 = entity_writes(e2);
    assert(w1 == pos + ap + h1 + st);
    assert(w2 == pos + ap + h2 + st);
    if w1 == w2 {
        let n: int = (pos + ap).len() as int;
        assert(h1.len() == h2.len());
        match (e1.health, e2.health) {
            (Some(a), Some(b)) => {
                assert(w1[n] == h1[0]);
                assert(w2[n] == h2[0]);
                assert(w1[n + 1] == h1[1]);
                assert(w2[n + 1] == h2[1]);
                lemma_i32_bytes_injective(a.current, b.current);
                lemma_i32_bytes_injective(a.max, b.max);
                assert(a == b);
            },
            (None, None) => {},
            (Some(_), None) => {},
            (None, Some(_)) => {},
        }
    }
}

/// The state digest of one entity: `DefaultHasher`'s digest of its writes.
pub open spec fn entity_digest_of(e: EntityState) -> u64 {
    DefaultHasher::spec_finish(entity_writes(e))
}

/// The state digests of the entities, in order.
pub open spec fn digests_of(es: Seq<EntityState>) -> Seq<u64> {
    Seq::new(es.len(), |i: int| entity_digest_of(es[i]))
}

/// The writes of a list of pairs: both parts of each pair, in order.
pub open spec fn pair_writes(s: Seq<(u64, u64)>) -> Seq<Seq<u8>>
    decreases s.len(),
{
    if s.len() == 0 {
        Seq::empty()
    } else {
        pair_writes(s.drop_last()) + seq![u64_bytes(s.last().0), u64_bytes(s.last().1)]
    }
}

/// What is fed to the hasher for a world: the turn, the number of rows, the
/// rows, the number of edges and the edges.
pub open spec fn world_writes(turn: u64, rows: Seq<(u64, u64)>, edges: Seq<(u64, u64)>) -> Seq<
    Seq<u8>,
> {
    seq![u64_bytes(turn), u64_bytes(rows.len() as u64)] + pair_writes(rows) + seq![
        u64_bytes(edges.len() as u64),
    ] + pair_writes(edges)
}

/// The digest of a world on `turn`: `DefaultHasher`'s digest of the turn,
/// the sorted rows (stable id, entity digest) and the sorted ownership
/// edges.
pub open spec fn state_digest(turn: u64, es: Seq<EntityState>, links: Seq<OwnershipLink>) -> u64 {
    DefaultHasher::spec_finish(
        world_writes(
            turn,
            rows_of(es, digests_of(es)).sort_by(pair_order()),
            edges_of(es, links).sort_by(pair_order()),
        ),
    )
}

fn write_bytes(h: &mut DefaultHasher, b: Vec<u8>)
    ensures
        final(h)@ == old(h)@.push(b@),
{
    h.write(b.as_slice());
}

fn write_i32(h: &mut DefaultHasher, v: i32)
    ensures
        final(h)@ == old(h)@.push(i32_bytes(v)),
{
    write_bytes(h, u32_to_le_bytes(v as u32));
}

fn write_u64(h: &mut DefaultHasher, v: u64)
    ensures
        final(h)@ == old(h)@.push(u64_bytes(v)),
{
    write_bytes(h, u64_to_le_bytes(v));
}

/// The digest of one entity's state (see [`entity_writes`]).
fn entity_digest(e: &EntityState) -> (r: u64)
    ensures
        r == entity_digest_of(*e),
{
    let mut h = DefaultHasher::new();
    match e.position {
        Some(p) => {
            write_i32(&mut h, p.x);
            write_i32(&mut h, p.y);
            let mut z: Vec<u8> = Vec::new();
            z.push(p.z as u8);
            assert(z@ =~= seq![p.z as u8]);
            write_bytes(&mut h, z);
        },
        None => {},
    }
    match e.action_points {
        Some(a) => {
            write_u64(&mut h, 1);
            write_i32(&mut h, a);
        },
        None => write_u64(&mut h, 0),
    }
    match e.health {
        Some(hp) => {
            write_i32(&mut h, hp.current);
            write_i32(&mut h, hp.max);
        },
        None => {},
    }
    match e.stack {
        Some(n) => {
            write_u64(&mut h, 1);
            write_bytes(&mut h, u32_to_le_bytes(n));
        },
        None => write_u64(&mut h, 0),
    }
    assert(h@ =~= entity_writes(*e));
    h.finish()
}

fn write_pairs(h: &mut DefaultHasher, s: &Vec<(u64, u64)>)
    ensures
        final(h)@ == old(h)@ + pair_writes(s@),
{
    let mut i: usize = 0;
    assert(s@.take(0) =~= Seq::<(u64, u64)>::empty());
    assert(old(h)@ + pair_writes(s@.take(0)) =~= old(h)@);
    while i < s.len()
        invariant
            i <= s@.len(),
            h@ == old(h)@ + pair_writes(s@.take(i as int)),
        decreases s@.len() - i,
    {
        let ghost before = h@;
        write_u64(h, s[i].0);
        write_u64(h, s[i].1);
        proof {
            assert(s@.take(i + 1).drop_last() =~= s@.take(i as int));
            assert(s@.take(i + 1).last() == s@[i as int]);
            assert(h@ =~= old(h)@ + pair_writes(s@.take(i + 1)));
        }
        i = i + 1;
    }
    assert(s@.take(s@.len() as int) =~= s@);
}

/// The digest of a whole world from its turn and canonical rows and edges
/// (see [`world_writes`]).
fn world_digest(turn: u64, rows: &Vec<(u64, u64)>, edges: &Vec<(u64, u64)>) -> (r: u64)
    ensures
        r == DefaultHasher::spec_finish(world_writes(turn, rows@, edges@)),
{
    let mut h = DefaultHasher::new();
    write_u64(&mut h, turn);
    write_u64(&mut h, rows.len() as u64);
    write_pairs(&mut h, rows);
    write_u64(&mut h, edges.len() as u64);
    write_pairs(&mut h, edges);
    assert(h@ =~= world_writes(turn, rows@, edges@));
    h.finish()
}

/// Digests one world's gameplay state on `turn`: returns `(turn, digest)`,
/// the digest being [`state_digest`]: each entity's fields and the world's
/// sorted rows and edges fed, little-endian, to a `DefaultHasher`.
pub fn compute_state_hash(
    turn: u64,
    entities: &[EntityState],
    links: &[OwnershipLink],
) -> (r: (u64, u64))
    requires
        distinct_entities(entities@),
        links_within(entities@, links@),
    ensures
        r == (turn, state_digest(turn, entities@, links@)),
{
    let mut digests: Vec<u64> = Vec::new();
    let mut i: usize = 0;
    while i < entities.len()
        invariant
            i <= entities@.len(),
            digests@ == digests_of(entities@).take(i as int),
        decreases entities@.len() - i,
    {
        digests.push(entity_digest(&entities[i]));
        proof {
            assert(digests_of(entities@).take(i + 1) =~= digests_of(entities@).take(i as int).push(
                entity_digest_of(entities@[i as int]),
            ));
        }
        i = i + 1;
    }
    assert(digests@ =~= digests_of(entities@));
    let rows = canonical_rows(entities, &digests);
    let edges = canonical_edges(entities, links);
    (turn, world_digest(turn, &rows, &edges))
}

/// The order of the entities does not enter the digest: worlds that hold the
/// same rows, in any order, hash the same canonical rows.
pub proof fn lemma_spawn_order_free(
    e1: Seq<EntityState>,
    d1: Seq<u64>,
    e2: Seq<EntityState>,
    d2: Seq<u64>,
)
    requires
        rows_of(e1, d1).to_multiset() == rows_of(e2, d2).to_multiset(),
    ensures
        rows_of(e1, d1).sort_by(pair_order()) == rows_of(e2, d2).sort_by(pair_order()),
{
    lemma_sort_ignores_order(rows_of(e1, d1), rows_of(e2, d2));
}

/// Spawn order does not change the digest: two worlds on the same turn whose
/// entity rows (stable id and state digest) and ownership edges are the same
/// collections, in whatever order, have the same digest.
pub proof fn lemma_digest_spawn_order_free(
    turn: u64,
    e1: Seq<EntityState>,
    l1: Seq<OwnershipLink>,
    e2: Seq<EntityState>,
    l2: Seq<OwnershipLink>,
)
    requires
        rows_of(e1, digests_of(e1)).to_multiset() == rows_of(e2, digests_of(e2)).to_multiset(),
        edges_of(e1, l1).to_multiset() == edges_of(e2, l2).to_multiset(),
    ensures
        state_digest(turn, e1, l1) == state_digest(turn, e2, l2),
{
    lemma_sort_ignores_order(rows_of(e1, digests_of(e1)), rows_of(e2, digests_of(e2)));
    lemma_sort_ignores_order(edges_of(e1, l1), edges_of(e2, l2));
}

/// The live digest history of this run: `(turn, digest)` per committed turn.
#[derive(Clone, Debug, Default)]
pub struct StateHashLog {
    pub hashes: Vec<(u64, u64)>,
}

/// Records a committed turn's digest: always in the live history, and in the
/// expected log of the session only while recording (never during a replay,
/// which is checked against that log).
pub fn record_state_hash(
    live: &mut StateHashLog,
    session: &mut SessionLog,
    replaying: bool,
    turn: u64,
    digest: u64,
)
    ensures
        final(live).hashes@ == old(live).hashes@.push((turn, digest)),
        final(session)@.world_seed == old(session)@.world_seed,
        final(session)@.actions == old(session)@.actions,
        replaying ==> final(session)@.state_hashes == old(session)@.state_hashes,
        !replaying ==> final(session)@.state_hashes == old(session)@.state_hashes.push(
            (turn, digest),
        ),
{
    live.hashes.push((turn, digest));
    if !replaying {
        session.state_hashes.push((turn, digest));
    }
}

/// A replay's digest differs from the recorded one on `turn`.
#[derive(Clone, Debug)]
pub struct SimulationDiverged {
    pub turn: u64,
    pub detail: String,
}

/// The last digest recorded for `turn` in `s`, if any.
pub open spec fn last_for_turn(s: Seq<(u64, u64)>, turn: u64) -> Option<u64>
    decreases s.len(),
{
    if s.len() == 0 {
        None
    } else if s.last().0 == turn {
        Some(s.last().1)
    } else {
        last_for_turn(s.drop_last(), turn)
    }
}

/// The first digest recorded for `turn` in `s`, if any.
pub open spec fn first_for_turn(s: Seq<(u64, u64)>, turn: u64) -> Option<u64>
    decreases s.len(),
{
    if s.len() == 0 {
        None
    } else if s.first().0 == turn {
        Some(s.first().1)
    } else {
        first_for_turn(s.drop_first(), turn)
    }
}

/// The message of a divergence report.
pub open spec fn divergence_detail(turn: u64, live: u64, recorded: u64) -> Seq<char> {
    "State hash mismatch at turn "@ + digits(turn as nat, 10) + ": live="@ + digits(
        live as nat,
        16,
    ) + ", recorded="@ + digits(recorded as nat, 16)
}

fn last_digest_for(s: &Vec<(u64, u64)>, turn: u64) -> (r: Option<u64>)
    ensures
        r == last_for_turn(s@, turn),
{
    let mut i: usize = s.len();
    assert(s@.take(i as int) =~= s@);
    while i > 0
        invariant
            i <= s@.len(),
            last_for_turn(s@, turn) == last_for_turn(s@.take(i as int), turn),
        decreases i,
    {
        let (t, h) = s[i - 1];
        proof {
            assert(s@.take(i as int).drop_last() =~= s@.take(i - 1));
        }
        if t == turn {
            return Some(h);
        }
        i = i - 1;
    }
    proof {
        assert(s@.take(0) =~= Seq::<(u64, u64)>::empty());
    }
    None
}

fn first_digest_for(s: &Vec<(u64, u64)>, turn: u64) -> (r: Option<u64>)
    ensures
        r == first_for_turn(s@, turn),
{
    let mut i: usize = 0;
    assert(s@.skip(0) =~= s@);
    while i < s.len()
        invariant
            i <= s@.len(),
            first_for_turn(s@, turn) == first_for_turn(s@.skip(i as int), turn),
        decreases s@.len() - i,
    {
        let (t, h) = s[i];
        proof {
            assert(s@.skip(i as int).drop_first() =~= s@.skip(i + 1));
        }
        if t == turn {
            return Some(h);
        }
        i = i + 1;
    }
    proof {
        assert(s@.skip(s@.len() as int) =~= Seq::<(u64, u64)>::empty());
    }
    None
}

/// During a replay, compares the latest live digest of `turn` with the first
/// recorded one: a report when both exist and differ, nothing otherwise.
pub fn check_divergence(live: &StateHashLog, session: &SessionLog, turn: u64) -> (r: Option<
    SimulationDiverged,
>)
    ensures
        match (last_for_turn(live.hashes@, turn), first_for_turn(session@.state_hashes, turn)) {
            (Some(l), Some(rec)) => if l != rec {
                r matches Some(d) && d.turn == turn && d.detail@ == divergence_detail(turn, l, rec)
            } else {
                r is None
            },
            _ => r is None,
        },
{
    let l = last_digest_for(&live.hashes, turn);
    let rec = first_digest_for(&session.state_hashes, turn);
    match (l, rec) {
        (Some(l), Some(rec)) => {
            if l != rec {
                let mut detail = String::from_str("State hash mismatch at turn ");
                let mut n: Vec<char> = Vec::new();
                push_digits(&mut n, turn, 10);
                detail.append(string_of(&n).as_str());
                detail.append(": live=");
                let mut a: Vec<char> = Vec::new();
                push_digits(&mut a, l, 16);
                detail.append(string_of(&a).as_str());
                detail.append(", recorded=");
                let mut b: Vec<char> = Vec::new();
                push_digits(&mut b, rec, 16);
                detail.append(string_of(&b).as_str());
                Some(SimulationDiverged { turn, detail })
            } else {
                None
            }
        },
        _ => None,
    }
}

/// The values `g` keeps of `s`, in order.
pub open spec fn filter_map_seq<A, B>(s: Seq<A>, g: spec_fn(A) -> Option<B>) -> Seq<B>
    decreases s.len(),
{
    if s.len() == 0 {
        Seq::empty()
    } else {
        filter_map_seq(s.drop_last(), g) + match g(s.last()) {
            Some(b) => seq![b],
            None => Seq::<B>::empty(),
        }
    }
}

proof fn lemma_filter_map_concat<A, B>(s: Seq<A>, t: Seq<A>, g: spec_fn(A) -> Option<B>)
    ensures
        filter_map_seq(s + t, g) == filter_map_seq(s, g) + filter_map_seq(t, g),
    decreases t.len(),
{
    if t.len() == 0 {
        assert(s + t =~= s);
        assert(filter_map_seq(s, g) + filter_map_seq(t, g) =~= filter_map_seq(s, g));
    } else {
        assert((s + t).drop_last() =~= s + t.drop_last());
        assert((s + t).last() == t.last());
        lemma_filter_map_concat(s, t.drop_last(), g);
        let tail = match g(t.last()) {
            Some(b) => seq![b],
            None => Seq::<B>::empty(),
        };
        assert(filter_map_seq(s, g) + filter_map_seq(t.drop_last(), g) + tail =~= filter_map_seq(
            s,
            g,
        ) + (filter_map_seq(t.drop_last(), g) + tail));
    }
}

proof fn lemma_filter_map_permutation<A, B>(a: Seq<A>, b: Seq<A>, g: spec_fn(A) -> Option<B>)
    requires
        a.to_multiset() == b.to_multiset(),
    ensures
        filter_map_seq(a, g).to_multiset() == filter_map_seq(b, g).to_multiset(),
    decreases a.len(),
{
    broadcast use vstd::seq_lib::group_to_multiset_ensures;
    broadcast use vstd::multiset::group_multiset_axioms;

    if a.len() == 0 {
        assert(b.to_multiset().len() == 0);
        assert(b.len() == 0);
        assert(b =~= Seq::<A>::empty());
    } else {
        let x = a.last();
        let a1 = a.drop_last();
        assert(a =~= a1.push(x));
        assert(a.to_multiset().count(x) > 0);
        assert(b.to_multiset().count(x) > 0);
        assert(b.contains(x));
        let j = choose|j: int| 0 <= j < b.len() && b[j] == x;
        let b1 = b.remove(j);
        vstd::seq_lib::to_multiset_remove(b, j);
        assert(a1.to_multiset() =~= b1.to_multiset());
        lemma_filter_map_permutation(a1, b1, g);
        let tail = match g(x) {
            Some(y) => seq![y],
            None => Seq::<B>::empty(),
        };
        let front = b.subrange(0, j);
        let back = b.subrange(j + 1, b.len() as int);
        assert(b =~= front + (seq![x] + back));
        assert(b1 =~= front + back);
        lemma_filter_map_concat(front, seq![x] + back, g);
        lemma_filter_map_concat(seq![x], back, g);
        lemma_filter_map_concat(front, back, g);
        assert(seq![x].drop_last() =~= Seq::<A>::empty());
        assert(seq![x].last() == x);
        assert(filter_map_seq(Seq::<A>::empty(), g) == Seq::<B>::empty());
        assert(filter_map_seq(seq![x], g) == filter_map_seq(seq![x].drop_last(), g) + tail);
        assert(filter_map_seq(seq![x], g) =~= tail);
        vstd::seq_lib::lemma_multiset_commutative(filter_map_seq(front, g), tail + filter_map_seq(back, g));
        vstd::seq_lib::lemma_multiset_commutative(tail, filter_map_seq(back, g));
        vstd::seq_lib::lemma_multiset_commutative(filter_map_seq(front, g), filter_map_seq(back, g));
        vstd::seq_lib::lemma_multiset_commutative(filter_map_seq(a1, g), tail);
        assert(filter_map_seq(a, g) == filter_map_seq(a1, g) + tail);
        assert(filter_map_seq(a, g).to_multiset() =~= filter_map_seq(b, g).to_multiset());
    }
}

/// The row of an entity: its stable id and state digest.
pub open spec fn row_fn() -> spec_fn(EntityState) -> Option<(u64, u64)> {
    |e: EntityState| Some((stable_id(e), entity_digest_of(e)))
}

/// The edge of a link among `es`, when its owner is one of them.
pub open spec fn edge_fn(es: Seq<EntityState>) -> spec_fn(OwnershipLink) -> Option<(u64, u64)> {
    |l: OwnershipLink| if has_entity(es, l.owner) {
        Some((stable_id_of(es, l.item), stable_id_of(es, l.owner)))
    } else {
        None
    }
}

proof fn lemma_rows_as_filter_map(es: Seq<EntityState>)
    ensures
        rows_of(es, digests_of(es)) == filter_map_seq(es, row_fn()),
    decreases es.len(),
{
    if es.len() > 0 {
        lemma_rows_as_filter_map(es.drop_last());
        assert(rows_of(es.drop_last(), digests_of(es.drop_last())) =~= rows_of(es, digests_of(es)).drop_last());
    }
    assert(rows_of(es, digests_of(es)) =~= filter_map_seq(es, row_fn()));
}

proof fn lemma_edges_as_filter_map(es: Seq<EntityState>, links: Seq<OwnershipLink>)
    ensures
        edges_of(es, links) == filter_map_seq(links, edge_fn(es)),
    decreases links.len(),
{
    if links.len() > 0 {
        lemma_edges_as_filter_map(es, links.drop_last());
        let l = links.last();
        if has_entity(es, l.owner) {
            assert(edges_of(es, links) =~= filter_map_seq(links, edge_fn(es)));
        } else {
            assert(edges_of(es, links) =~= filter_map_seq(links, edge_fn(es)));
        }
    }
}

proof fn lemma_filter_map_congruence<A, B>(
    s: Seq<A>,
    g1: spec_fn(A) -> Option<B>,
    g2: spec_fn(A) -> Option<B>,
)
    requires
        forall|i: int| 0 <= i < s.len() ==> g1(#[trigger] s[i]) == g2(s[i]),
    ensures
        filter_map_seq(s, g1) == filter_map_seq(s, g2),
    decreases s.len(),
{
    if s.len() > 0 {
        assert forall|i: int| 0 <= i < s.drop_last().len() implies g1(#[trigger] s.drop_last()[i])
            == g2(s.drop_last()[i]) by {
            assert(s.drop_last()[i] == s[i]);
        }
        lemma_filter_map_congruence(s.drop_last(), g1, g2);
        assert(g1(s[s.len() - 1]) == g2(s[s.len() - 1]));
    }
}

proof fn lemma_same_entities_same_ids(e1: Seq<EntityState>, e2: Seq<EntityState>, bits: u64)
    requires
        e1.to_multiset() == e2.to_multiset(),
        distinct_entities(e1),
        distinct_entities(e2),
    ensures
        has_entity(e1, bits) == has_entity(e2, bits),
        has_entity(e1, bits) ==> stable_id_of(e1, bits) == stable_id_of(e2, bits),
{
    broadcast use vstd::seq_lib::group_to_multiset_ensures;

    if has_entity(e1, bits) {
        let i = choose|i: int| 0 <= i < e1.len() && #[trigger] e1[i].entity == bits;
        let x = e1[i];
        assert(e1.to_multiset().count(x) > 0);
        assert(e2.contains(x));
        let k = choose|k: int| 0 <= k < e2.len() && e2[k] == x;
        assert(e2[k].entity == bits);
        lemma_stable_id_of(e1, i);
        lemma_stable_id_of(e2, k);
    }
    if has_entity(e2, bits) {
        let k = choose|k: int| 0 <= k < e2.len() && #[trigger] e2[k].entity == bits;
        let x = e2[k];
        assert(e2.to_multiset().count(x) > 0);
        assert(e1.contains(x));
        let i = choose|i: int| 0 <= i < e1.len() && e1[i] == x;
        assert(e1[i].entity == bits);
    }
}

/// Spawn order does not change the digest: two worlds on the same turn that
/// hold the same entities and the same ownership links, each in any order,
/// have the same digest.
pub proof fn lemma_world_digest_spawn_order_free(
    turn: u64,
    e1: Seq<EntityState>,
    l1: Seq<OwnershipLink>,
    e2: Seq<EntityState>,
    l2: Seq<OwnershipLink>,
)
    requires
        distinct_entities(e1),
        distinct_entities(e2),
        links_within(e2, l2),
        e1.to_multiset() == e2.to_multiset(),
        l1.to_multiset() == l2.to_multiset(),
    ensures
        state_digest(turn, e1, l1) == state_digest(turn, e2, l2),
{
    lemma_rows_as_filter_map(e1);
    lemma_rows_as_filter_map(e2);
    lemma_filter_map_permutation(e1, e2, row_fn());
    lemma_edges_as_filter_map(e1, l1);
    lemma_edges_as_filter_map(e2, l2);
    assert forall|i: int| 0 <= i < l2.len() implies (edge_fn(e1))(#[trigger] l2[i]) == (edge_fn(
        e2,
    ))(l2[i]) by {
        lemma_same_entities_same_ids(e1, e2, l2[i].owner);
        lemma_same_entities_same_ids(e1, e2, l2[i].item);
        assert(has_entity(e2, l2[i].item));
    }
    lemma_filter_map_congruence(l2, edge_fn(e1), edge_fn(e2));
    lemma_filter_map_permutation(l1, l2, edge_fn(e1));
    lemma_digest_spawn_order_free(turn, e1, l1, e2, l2);
}

} // verus!
