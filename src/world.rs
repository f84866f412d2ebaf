use vstd::prelude::*;
use crate::geometry::{Collider, Vector2, overlaps, is_colliding, WORLD_LIMIT, SPEED_LIMIT};
use crate::split::{
    valid_split_count, split_velocities, calculate_split_trajectories, lemma_split_keeps_speed,
    lemma_velocity_components, trunc_div,
};
use crate::level::GameStats;

verus! {

/// Diameter of an atom.
pub const ATOM_SIZE: i64 = 30_000;

/// Diameter of a neutron.
pub const NEUTRON_SIZE: i64 = 10_000;

/// Hit radius of an atom: three quarters of its diameter.
pub const ATOM_RADIUS: i64 = 22_500;

/// Hit radius of a neutron: three quarters of its diameter.
pub const NEUTRON_RADIUS: i64 = 7_500;

/// Energy that one split releases, in picojoules.
pub const ENERGY_RELEASED: u64 = 32;

/// An atom: how many neutrons it sends out when it splits.
#[derive(Clone, Copy, Debug, PartialEq, Eq, Structural)]
pub struct Atom {
    pub num_neutrons: i32,
}

/// A neutron: its velocity, zero while the player is still aiming it.
#[derive(Clone, Copy, Debug, PartialEq, Eq, Structural)]
pub struct Neutron {
    pub velocity: Vector2,
}

/// A live atom of the world, under its entity id.
#[derive(Clone, Copy, Debug, PartialEq, Eq, Structural)]
pub struct AtomEntry {
    pub id: u64,
    pub position: Vector2,
    pub collider: Collider,
    pub atom: Atom,
}

/// A live neutron of the world, under its entity id.
#[derive(Clone, Copy, Debug, PartialEq, Eq, Structural)]
pub struct NeutronEntry {
    pub id: u64,
    pub position: Vector2,
    pub collider: Collider,
    pub neutron: Neutron,
}

/// What a collision of a neutron with an atom leaves for the chain reaction.
#[derive(Clone, Copy, Debug, PartialEq, Eq, Structural)]
pub struct CollisionEvent {
    pub neutron_velocity: Vector2,
    pub atom_position: Vector2,
    pub num_neutrons: i32,
}

/// The live atoms and neutrons, each list in the order of spawning, and the
/// id that the next spawned entity gets.
#[derive(Debug)]
pub struct World {
    pub atoms: Vec<AtomEntry>,
    pub neutrons: Vec<NeutronEntry>,
    pub next_id: u64,
}

impl AtomEntry {
    pub open spec fn wf(self, next_id: u64) -> bool {
        self.position.in_world() && self.collider.wf() && self.id < next_id
    }
}

impl NeutronEntry {
    pub open spec fn wf(self, next_id: u64) -> bool {
        &&& self.position.in_world()
        &&& self.collider.wf()
        &&& self.neutron.velocity.is_velocity()
        &&& self.id < next_id
    }
}

/// Whether `a` and `n` overlap.
pub open spec fn hits(a: AtomEntry, n: NeutronEntry) -> bool {
    overlaps(a.position, a.collider.radius as int, n.position, n.collider.radius as int)
}

/// Index of the first neutron of `ns` that `a` overlaps, or -1.
pub open spec fn first_hit(a: AtomEntry, ns: Seq<NeutronEntry>) -> int
    decreases ns.len(),
{
    if ns.len() == 0 {
        -1
    } else {
        let j = first_hit(a, ns.drop_last());
        if j >= 0 {
            j
        } else if hits(a, ns.last()) {
            ns.len() - 1
        } else {
            -1
        }
    }
}

pub open spec fn collision_event(a: AtomEntry, n: NeutronEntry) -> CollisionEvent {
    CollisionEvent {
        neutron_velocity: n.neutron.velocity,
        atom_position: a.position,
        num_neutrons: a.atom.num_neutrons,
    }
}

/// One collision pass: the atoms in order, each taking the first neutron
/// that it overlaps among those that earlier atoms left. Gives the atoms that
/// stay, the neutrons that stay, and an event for each collision.
pub open spec fn collision_pass(atoms: Seq<AtomEntry>, neutrons: Seq<NeutronEntry>) -> (
    Seq<AtomEntry>,
    Seq<NeutronEntry>,
    Seq<CollisionEvent>,
)
    decreases atoms.len(),
{
    if atoms.len() == 0 {
        (seq![], neutrons, seq![])
    } else {
        let prev = collision_pass(atoms.drop_last(), neutrons);
        let a = atoms.last();
        let j = first_hit(a, prev.1);
        if j < 0 {
            (prev.0.push(a), prev.1, prev.2)
        } else {
            (prev.0, prev.1.remove(j), prev.2.push(collision_event(a, prev.1[j])))
        }
    }
}

/// Ids strictly increasing along a list.
pub open spec fn atom_ids_increasing(s: Seq<AtomEntry>) -> bool {
    forall|i: int, j: int| 0 <= i < j < s.len() ==> s[i].id < s[j].id
}

pub open spec fn neutron_ids_increasing(s: Seq<NeutronEntry>) -> bool {
    forall|i: int, j: int| 0 <= i < j < s.len() ==> s[i].id < s[j].id
}

pub open spec fn event_ok(e: CollisionEvent) -> bool {
    e.neutron_velocity.is_velocity() && e.atom_position.in_world()
}

proof fn lemma_first_hit_step(a: AtomEntry, ns: Seq<NeutronEntry>, j: int)
    requires
        0 <= j < ns.len(),
        first_hit(a, ns.take(j)) == -1,
    ensures
        first_hit(a, ns.take(j + 1)) == if hits(a, ns[j]) {
            j
        } else {
            -1
        },
{
    assert(ns.take(j + 1).drop_last() =~= ns.take(j));
}

/// Once a prefix of the neutrons holds a hit, the whole list has the same
/// first hit.
proof fn lemma_first_hit_prefix(a: AtomEntry, ns: Seq<NeutronEntry>, k: int)
    requires
        0 <= k <= ns.len(),
        first_hit(a, ns.take(k)) >= 0,
    ensures
        first_hit(a, ns) == first_hit(a, ns.take(k)),
    decreases ns.len() - k,
{
    if k == ns.len() {
        assert(ns.take(k) =~= ns);
    } else {
        assert(ns.take(k + 1).drop_last() =~= ns.take(k));
        lemma_first_hit_prefix(a, ns, k + 1);
    }
}

proof fn lemma_first_hit_range(a: AtomEntry, ns: Seq<NeutronEntry>)
    ensures
        -1 <= first_hit(a, ns) < ns.len(),
        first_hit(a, ns) >= 0 ==> hits(a, ns[first_hit(a, ns)]),
    decreases ns.len(),
{
    if ns.len() > 0 {
        lemma_first_hit_range(a, ns.drop_last());
    }
}

impl World {
    pub open spec fn wf(&self) -> bool {
        &&& forall|i: int| 0 <= i < self.atoms@.len() ==> (#[trigger] self.atoms@[i]).wf(self.next_id)
        &&& forall|i: int| 0 <= i < self.neutrons@.len() ==> (#[trigger] self.neutrons@[i]).wf(self.next_id)
        &&& atom_ids_increasing(self.atoms@)
        &&& neutron_ids_increasing(self.neutrons@)
    }

    /// An empty world.
    pub fn new() -> (r: World)
        ensures
            r.wf(),
            r.atoms@.len() == 0,
            r.neutrons@.len() == 0,
            r.next_id == 0,
    {
        World { atoms: Vec::new(), neutrons: Vec::new(), next_id: 0 }
    }
}

impl World {
    /// Adds an atom of `num_neutron` neutrons at `position`.
    pub fn spawn_atom(&mut self, position: Vector2, num_neutron: i32) -> (id: u64)
        requires
            old(self).wf(),
            position.in_world(),
            old(self).next_id < u64::MAX,
        ensures
            final(self).wf(),
            id == old(self).next_id,
            final(self).next_id == old(self).next_id + 1,
            final(self).atoms@ == old(self).atoms@.push(
                (AtomEntry {
                    id,
                    position,
                    collider: Collider { radius: ATOM_RADIUS },
                    atom: Atom { num_neutrons: num_neutron },
                }),
            ),
            final(self).neutrons@ == old(self).neutrons@,
    {
        let id = self.next_id;
        let entry = AtomEntry {
            id,
            position,
            collider: Collider::new(ATOM_RADIUS),
            atom: Atom { num_neutrons: num_neutron },
        };
        self.atoms.push(entry);
        self.next_id = id + 1;
        id
    }

    /// Adds a neutron at `position` that moves with `velocity`.
    pub fn spawn_neutron(&mut self, position: Vector2, velocity: Vector2) -> (id: u64)
        requires
            old(self).wf(),
            position.in_world(),
            velocity.is_velocity(),
            old(self).next_id < u64::MAX,
        ensures
            final(self).wf(),
            id == old(self).next_id,
            final(self).next_id == old(self).next_id + 1,
            final(self).neutrons@ == old(self).neutrons@.push(neutron_entry(id, position, velocity)),
            final(self).atoms@ == old(self).atoms@,
    {
        let id = self.next_id;
        let entry = NeutronEntry {
            id,
            position,
            collider: Collider::new(NEUTRON_RADIUS),
            neutron: Neutron { velocity },
        };
        self.neutrons.push(entry);
        self.next_id = id + 1;
        id
    }

    /// Adds an unarmed neutron at `position`, at rest until the player gives
    /// it a velocity.
    pub fn spawn_neutron_with_marker(&mut self, position: Vector2) -> (id: u64)
        requires
            old(self).wf(),
            position.in_world(),
            old(self).next_id < u64::MAX,
        ensures
            final(self).wf(),
            id == old(self).next_id,
            final(self).next_id == old(self).next_id + 1,
            final(self).neutrons@ == old(self).neutrons@.push(
                neutron_entry(id, position, Vector2 { x: 0, y: 0 }),
            ),
            final(self).atoms@ == old(self).atoms@,
    {
        let rest = Vector2::new(0, 0);
        assert(crate::geometry::norm_sq(rest) == 0);
        self.spawn_neutron(position, rest)
    }

    /// One collision pass over the world: each atom in order takes the first
    /// neutron that it overlaps, both leave the world, and an event records
    /// the collision. A neutron taken by one atom is not there for the next.
    pub fn atom_collision(&mut self) -> (events: Vec<CollisionEvent>)
        requires
            old(self).wf(),
        ensures
            final(self).wf(),
            final(self).next_id == old(self).next_id,
            (final(self).atoms@, final(self).neutrons@, events@) == collision_pass(
                old(self).atoms@,
                old(self).neutrons@,
            ),
            forall|k: int| 0 <= k < events@.len() ==> event_ok(#[trigger] events@[k]),
    {
        let ghost old_atoms = self.atoms@;
        let ghost old_neutrons = self.neutrons@;
        let mut survivors: Vec<AtomEntry> = Vec::new();
        let mut events: Vec<CollisionEvent> = Vec::new();
        let mut i: usize = 0;
        while i < self.atoms.len()
            invariant
                self.wf(),
                self.atoms@ == old_atoms,
                self.next_id == old(self).next_id,
                0 <= i <= old_atoms.len(),
                (survivors@, self.neutrons@, events@) == collision_pass(old_atoms.take(i as int), old_neutrons),
                forall|k: int| 0 <= k < survivors@.len() ==> (#[trigger] survivors@[k]).wf(self.next_id),
                forall|k: int, m: int|
                    0 <= k < survivors@.len() && i <= m < old_atoms.len() ==> survivors@[k].id
                        < old_atoms[m].id,
                atom_ids_increasing(survivors@),
                forall|k: int| 0 <= k < events@.len() ==> event_ok(#[trigger] events@[k]),
            decreases old_atoms.len() - i,
        {
            let a = self.atoms[i];
            proof {
                assert(old_atoms.take(i + 1).drop_last() =~= old_atoms.take(i as int));
                assert(old_atoms.take(i + 1).last() == a);
                assert(self.atoms@[i as int].wf(self.next_id));
            }
            let mut j: usize = 0;
            let mut hit = false;
            while j < self.neutrons.len()
                invariant_except_break
                    !hit,
                invariant
                    self.wf(),
                    0 <= j <= self.neutrons@.len(),
                    a.wf(self.next_id),
                    first_hit(a, self.neutrons@.take(j as int)) == -1,
                ensures
                    first_hit(a, self.neutrons@.take(j as int)) == -1,
                    hit ==> j < self.neutrons@.len() && hits(a, self.neutrons@[j as int]),
                    !hit ==> j == self.neutrons@.len(),
                decreases self.neutrons@.len() - j,
            {
                proof {
                    lemma_first_hit_step(a, self.neutrons@, j as int);
                    assert(self.neutrons@[j as int].wf(self.next_id));
                }
                if is_colliding((&a.position, &a.collider), (&self.neutrons[j].position, &self.neutrons[j].collider)) {
                    hit = true;
                    break;
                }
                j += 1;
            }
            let ghost before = self.neutrons@;
            let ghost prev = collision_pass(old_atoms.take(i as int), old_neutrons);
            proof {
                assert(collision_pass(old_atoms.take(i + 1), old_neutrons) == {
                    let jj = first_hit(a, prev.1);
                    if jj < 0 {
                        (prev.0.push(a), prev.1, prev.2)
                    } else {
                        (prev.0, prev.1.remove(jj), prev.2.push(collision_event(a, prev.1[jj])))
                    }
                });
            }
            if hit {
                proof {
                    lemma_first_hit_step(a, self.neutrons@, j as int);
                    lemma_first_hit_prefix(a, self.neutrons@, j + 1);
                    assert(self.neutrons@[j as int].wf(self.next_id));
                }
                let n = self.neutrons.remove(j);
                events.push(
                    CollisionEvent {
                        neutron_velocity: n.neutron.velocity,
                        atom_position: a.position,
                        num_neutrons: a.atom.num_neutrons,
                    },
                );
                proof {
                    let ns = self.neutrons@;
                    assert(ns == before.remove(j as int));
                    assert forall|k: int| 0 <= k < ns.len() implies (#[trigger] ns[k]).wf(self.next_id) by {
                        if k >= j {
                            assert(ns[k] == before[k + 1]);
                        } else {
                            assert(ns[k] == before[k]);
                        }
                    }
                    assert forall|k: int, m: int| 0 <= k < m < ns.len() implies ns[k].id < ns[m].id by {
                        let k2 = if k >= j { k + 1 } else { k };
                        let m2 = if m >= j { m + 1 } else { m };
                        assert(ns[k] == before[k2]);
                        assert(ns[m] == before[m2]);
                    }
                }
            } else {
                proof {
                    assert(self.neutrons@.take(self.neutrons@.len() as int) =~= self.neutrons@);
                }
                survivors.push(a);
            }
            i += 1;
        }
        proof {
            assert(old_atoms.take(old_atoms.len() as int) =~= old_atoms);
        }
        self.atoms = survivors;
        events
    }

    /// Removes the atom or neutron of id `id`, and says whether there was one.
    pub fn despawn(&mut self, id: u64) -> (removed: bool)
        requires
            old(self).wf(),
        ensures
            final(self).wf(),
            final(self).next_id == old(self).next_id,
            final(self).atoms@ == atoms_without(old(self).atoms@, id),
            final(self).neutrons@ == neutrons_without(old(self).neutrons@, id),
            removed == (exists|k: int| 0 <= k < old(self).atoms@.len() && (#[trigger] old(self).atoms@[k]).id == id)
                || (exists|k: int| 0 <= k < old(self).neutrons@.len() && (#[trigger] old(self).neutrons@[k]).id == id),
    {
        let ghost atoms = self.atoms@;
        let ghost neutrons = self.neutrons@;
        let mut kept_atoms: Vec<AtomEntry> = Vec::new();
        let mut removed = false;
        let mut i: usize = 0;
        while i < self.atoms.len()
            invariant
                self.wf(),
                self.atoms@ == atoms,
                self.neutrons@ == neutrons,
                0 <= i <= atoms.len(),
                kept_atoms@ == atoms_without(atoms.take(i as int), id),
                forall|k: int| 0 <= k < kept_atoms@.len() ==> (#[trigger] kept_atoms@[k]).wf(self.next_id),
                forall|k: int, m: int|
                    0 <= k < kept_atoms@.len() && i <= m < atoms.len() ==> kept_atoms@[k].id < atoms[m].id,
                atom_ids_increasing(kept_atoms@),
                removed == exists|k: int| 0 <= k < i && (#[trigger] atoms[k]).id == id,
            decreases atoms.len() - i,
        {
            let a = self.atoms[i];
            proof {
                assert(atoms.take(i + 1).drop_last() =~= atoms.take(i as int));
                assert(atoms.take(i + 1).last() == a);
                assert(atoms[i as int].wf(self.next_id));
            }
            if a.id == id {
                removed = true;
            } else {
                kept_atoms.push(a);
            }
            i += 1;
        }
        let mut kept_neutrons: Vec<NeutronEntry> = Vec::new();
        let ghost removed_atom = removed;
        let mut j: usize = 0;
        while j < self.neutrons.len()
            invariant
                self.wf(),
                self.atoms@ == atoms,
                self.neutrons@ == neutrons,
                0 <= j <= neutrons.len(),
                kept_neutrons@ == neutrons_without(neutrons.take(j as int), id),
                forall|k: int| 0 <= k < kept_neutrons@.len() ==> (#[trigger] kept_neutrons@[k]).wf(self.next_id),
                forall|k: int, m: int|
                    0 <= k < kept_neutrons@.len() && j <= m < neutrons.len() ==> kept_neutrons@[k].id < neutrons[m].id,
                neutron_ids_increasing(kept_neutrons@),
                removed == (removed_atom || exists|k: int| 0 <= k < j && (#[trigger] neutrons[k]).id == id),
            decreases neutrons.len() - j,
        {
            let n = self.neutrons[j];
            proof {
                assert(neutrons.take(j + 1).drop_last() =~= neutrons.take(j as int));
                assert(neutrons.take(j + 1).last() == n);
                assert(neutrons[j as int].wf(self.next_id));
            }
            if n.id == id {
                removed = true;
            } else {
                kept_neutrons.push(n);
            }
            j += 1;
        }
        proof {
            assert(atoms.take(atoms.len() as int) =~= atoms);
            assert(neutrons.take(neutrons.len() as int) =~= neutrons);
        }
        self.atoms = kept_atoms;
        self.neutrons = kept_neutrons;
        removed
    }

    /// Moves every neutron by its velocity over a step of `delta_micros`
    /// microseconds at a simulation speed of `simulation_speed` thousandths.
    pub fn neutron_motion(&mut self, delta_micros: u64, simulation_speed: u32)
        requires
            old(self).wf(),
            delta_micros <= MAX_TICK_MICROS,
        ensures
            final(self).wf(),
            final(self).atoms@ == old(self).atoms@,
            final(self).next_id == old(self).next_id,
            final(self).neutrons@ == old(self).neutrons@.map_values(
                |n: NeutronEntry| moved_entry(n, delta_micros as int, simulation_speed as int),
            ),
    {
        let ghost before = self.neutrons@;
        let mut i: usize = 0;
        while i < self.neutrons.len()
            invariant
                self.wf(),
                delta_micros <= MAX_TICK_MICROS,
                self.atoms@ == old(self).atoms@,
                self.next_id == old(self).next_id,
                self.neutrons@.len() == before.len(),
                0 <= i <= before.len(),
                forall|k: int|
                    0 <= k < i ==> self.neutrons@[k] == moved_entry(
                        #[trigger] before[k],
                        delta_micros as int,
                        simulation_speed as int,
                    ),
                forall|k: int| i <= k < before.len() ==> self.neutrons@[k] == #[trigger] before[k],
            decreases before.len() - i,
        {
            let n = self.neutrons[i];
            proof {
                assert(self.neutrons@[i as int].wf(self.next_id));
                lemma_velocity_components(n.neutron.velocity);
            }
            let x = moved_coord(n.position.x, n.neutron.velocity.x, delta_micros, simulation_speed);
            let y = moved_coord(n.position.y, n.neutron.velocity.y, delta_micros, simulation_speed);
            let entry = NeutronEntry { position: Vector2 { x, y }, ..n };
            let ghost mid = self.neutrons@;
            self.neutrons.set(i, entry);
            proof {
                assert(self.neutrons@ == mid.update(i as int, entry));
                assert forall|k: int| 0 <= k < self.neutrons@.len() implies (
                #[trigger] self.neutrons@[k]).wf(self.next_id) by {
                    if k != i {
                        assert(self.neutrons@[k] == mid[k]);
                    }
                }
            }
            i += 1;
        }
        proof {
            assert(self.neutrons@ =~= before.map_values(
                |n: NeutronEntry| moved_entry(n, delta_micros as int, simulation_speed as int),
            ));
        }
    }

    /// Adds a neutron at `position` for each of `velocities`, in order.
    fn spawn_fan(&mut self, position: Vector2, velocities: &Vec<Vector2>)
        requires
            old(self).wf(),
            position.in_world(),
            forall|m: int| 0 <= m < velocities@.len() ==> (#[trigger] velocities@[m]).is_velocity(),
            old(self).next_id + velocities@.len() <= u64::MAX,
        ensures
            final(self).wf(),
            final(self).atoms@ == old(self).atoms@,
            final(self).neutrons@ == old(self).neutrons@ + fan_entries(
                position,
                velocities@,
                old(self).next_id as int,
            ),
            final(self).next_id == old(self).next_id + velocities@.len(),
    {
        let ghost start = self.next_id as int;
        let ghost base = self.neutrons@;
        let ghost all = fan_entries(position, velocities@, start);
        let mut k: usize = 0;
        while k < velocities.len()
            invariant
                self.wf(),
                0 <= k <= velocities@.len(),
                position.in_world(),
                forall|m: int| 0 <= m < velocities@.len() ==> (#[trigger] velocities@[m]).is_velocity(),
                start + velocities@.len() <= u64::MAX,
                all == fan_entries(position, velocities@, start),
                self.atoms@ == old(self).atoms@,
                self.neutrons@ == base + all.take(k as int),
                self.next_id == start + k,
            decreases velocities@.len() - k,
        {
            let v = velocities[k];
            self.spawn_neutron(position, v);
            proof {
                assert(all[k as int] == neutron_entry((start + k) as u64, position, v));
                assert(all.take(k + 1) =~= all.take(k as int).push(all[k as int]));
                assert(self.neutrons@ =~= base + all.take(k + 1));
            }
            k += 1;
        }
        proof {
            assert(all.take(k as int) =~= all);
        }
    }

    /// Resolves the events of a collision pass in order: each spawns its
    /// fan of secondary neutrons at the atom's place, none where the atom's
    /// count is no valid split count, and each adds the released energy to
    /// the score.
    pub fn collision_listener(&mut self, events: &Vec<CollisionEvent>, game_stats: &mut GameStats)
        requires
            old(self).wf(),
            forall|k: int| 0 <= k < events@.len() ==> event_ok(#[trigger] events@[k]),
            old(self).next_id + 5 * events@.len() <= u64::MAX,
        ensures
            final(self).wf(),
            final(self).atoms@ == old(self).atoms@,
            final(self).neutrons@ == old(self).neutrons@ + spawned(events@, old(self).next_id as int),
            final(self).next_id == old(self).next_id + spawned(events@, old(self).next_id as int).len(),
            final(game_stats).score == score_after(old(game_stats).score as int, events@.len() as int),
            final(game_stats).level == old(game_stats).level,
            final(game_stats).simulation_speed == old(game_stats).simulation_speed,
    {
        let ghost start = self.next_id as int;
        let ghost base = self.neutrons@;
        let mut i: usize = 0;
        while i < events.len()
            invariant
                self.wf(),
                0 <= i <= events@.len(),
                forall|k: int| 0 <= k < events@.len() ==> event_ok(#[trigger] events@[k]),
                start + 5 * events@.len() <= u64::MAX,
                self.atoms@ == old(self).atoms@,
                self.neutrons@ == base + spawned(events@.take(i as int), start),
                self.next_id == start + spawned(events@.take(i as int), start).len(),
                game_stats.score == score_after(old(game_stats).score as int, i as int),
                game_stats.level == old(game_stats).level,
                game_stats.simulation_speed == old(game_stats).simulation_speed,
            decreases events@.len() - i,
        {
            let e = events[i];
            let ghost prev = spawned(events@.take(i as int), start);
            let ghost offspring = offspring_entries(e, start + prev.len());
            proof {
                assert(events@.take(i + 1).drop_last() =~= events@.take(i as int));
                assert(events@.take(i + 1).last() == e);
                assert(spawned(events@.take(i + 1), start) == prev + offspring);
                assert(event_ok(events@[i as int]));
                lemma_offspring_len(e);
                lemma_spawned_len(events@.take(i as int), start);
            }
            match calculate_split_trajectories(e.neutron_velocity, e.num_neutrons) {
                Ok(velocities) => {
                    self.spawn_fan(e.atom_position, &velocities);
                    proof {
                        assert(fan_entries(e.atom_position, velocities@, start + prev.len()) =~= offspring);
                    }
                },
                Err(_) => {
                    proof {
                        assert(offspring =~= seq![]);
                        assert(self.neutrons@ =~= base + prev + offspring);
                    }
                },
            }
            proof {
                assert(self.neutrons@ =~= base + spawned(events@.take(i + 1), start));
            }
            if game_stats.score > u64::MAX - ENERGY_RELEASED {
                game_stats.score = u64::MAX;
            } else {
                game_stats.score = game_stats.score + ENERGY_RELEASED;
            }
            i += 1;
        }
        proof {
            assert(events@.take(events@.len() as int) =~= events@);
        }
    }
}

/// The velocities of the neutrons that an event sends out: none where the
/// atom's count is no valid split count.
pub open spec fn event_offspring(e: CollisionEvent) -> Seq<Vector2> {
    if valid_split_count(e.num_neutrons as int) {
        split_velocities(e.neutron_velocity, e.num_neutrons as int)
    } else {
        seq![]
    }
}

/// Neutrons at `position` with the given velocities, with ids counted from
/// `start`.
pub open spec fn fan_entries(position: Vector2, velocities: Seq<Vector2>, start: int) -> Seq<NeutronEntry> {
    velocities.map(|k: int, v: Vector2| neutron_entry((start + k) as u64, position, v))
}

/// The neutrons that one event spawns, with ids counted from `start`.
pub open spec fn offspring_entries(e: CollisionEvent, start: int) -> Seq<NeutronEntry> {
    fan_entries(e.atom_position, event_offspring(e), start)
}

/// The neutrons that a list of events spawns in turn, with ids counted from
/// `start`.
pub open spec fn spawned(events: Seq<CollisionEvent>, start: int) -> Seq<NeutronEntry>
    decreases events.len(),
{
    if events.len() == 0 {
        seq![]
    } else {
        let prev = spawned(events.drop_last(), start);
        prev + offspring_entries(events.last(), start + prev.len())
    }
}

/// The score after `count` releases of energy, held at the largest value
/// that it can take.
pub open spec fn score_after(score: int, count: int) -> int {
    if score + ENERGY_RELEASED * count > u64::MAX {
        u64::MAX as int
    } else {
        score + ENERGY_RELEASED * count
    }
}

proof fn lemma_offspring_len(e: CollisionEvent)
    requires
        event_ok(e),
    ensures
        event_offspring(e).len() <= 5,
        forall|k: int| 0 <= k < event_offspring(e).len() ==> (#[trigger] event_offspring(e)[k]).is_velocity(),
{
    if valid_split_count(e.num_neutrons as int) {
        lemma_split_keeps_speed(e.neutron_velocity, e.num_neutrons as int);
    }
}

proof fn lemma_spawned_len(events: Seq<CollisionEvent>, start: int)
    requires
        forall|k: int| 0 <= k < events.len() ==> event_ok(#[trigger] events[k]),
    ensures
        spawned(events, start).len() <= 5 * events.len(),
    decreases events.len(),
{
    if events.len() > 0 {
        lemma_spawned_len(events.drop_last(), start);
        lemma_offspring_len(events.last());
    }
}

/// A collision pass removes atoms and neutrons only in pairs, one pair for
/// each event it records: no atom and no neutron is taken twice.
pub proof fn lemma_collision_pass_pairs(atoms: Seq<AtomEntry>, neutrons: Seq<NeutronEntry>)
    ensures
        collision_pass(atoms, neutrons).0.len() + collision_pass(atoms, neutrons).2.len()
            == atoms.len(),
        collision_pass(atoms, neutrons).1.len() + collision_pass(atoms, neutrons).2.len()
            == neutrons.len(),
    decreases atoms.len(),
{
    if atoms.len() > 0 {
        lemma_collision_pass_pairs(atoms.drop_last(), neutrons);
        let prev = collision_pass(atoms.drop_last(), neutrons);
        lemma_first_hit_range(atoms.last(), prev.1);
    }
}

/// A neutron that overlaps the first atom of a pass is taken by that atom:
/// when it is the only neutron, the pass records exactly one collision, however
/// many other atoms it overlaps.
pub proof fn lemma_single_neutron_single_event(atoms: Seq<AtomEntry>, n: NeutronEntry)
    requires
        atoms.len() >= 1,
        hits(atoms[0], n),
    ensures
        collision_pass(atoms, seq![n]).2.len() == 1,
        collision_pass(atoms, seq![n]).1.len() == 0,
        collision_pass(atoms, seq![n]).0.len() == atoms.len() - 1,
    decreases atoms.len(),
{
    lemma_collision_pass_pairs(atoms, seq![n]);
    if atoms.len() == 1 {
        let a = atoms.last();
        assert(a == atoms[0]);
        assert(atoms.drop_last() =~= Seq::<AtomEntry>::empty());
        assert(seq![n].drop_last() =~= Seq::<NeutronEntry>::empty());
        assert(first_hit(a, Seq::<NeutronEntry>::empty()) == -1);
        assert(seq![n].last() == n);
        assert(first_hit(a, seq![n]) == 0);
        let prev = collision_pass(atoms.drop_last(), seq![n]);
        assert(prev == collision_pass(Seq::<AtomEntry>::empty(), seq![n]));
        assert(prev.1 == seq![n]);
        assert(prev.2.len() == 0);
    } else {
        assert(atoms.drop_last()[0] == atoms[0]);
        lemma_single_neutron_single_event(atoms.drop_last(), n);
        let prev = collision_pass(atoms.drop_last(), seq![n]);
        assert(prev.1.len() == 0);
        assert(first_hit(atoms.last(), prev.1) == -1);
    }
}

/// An event whose atom has no valid split count spawns no neutron when the
/// events are resolved.
pub proof fn lemma_invalid_split_spawns_nothing(e: CollisionEvent, start: int)
    requires
        !valid_split_count(e.num_neutrons as int),
    ensures
        spawned(seq![e], start).len() == 0,
{
    assert(seq![e].drop_last() =~= Seq::<CollisionEvent>::empty());
    assert(seq![e].last() == e);
    assert(event_offspring(e) =~= Seq::<Vector2>::empty());
    assert(offspring_entries(e, start).len() == 0);
    let prev = spawned(seq![e].drop_last(), start);
    assert(prev == spawned(Seq::<CollisionEvent>::empty(), start));
    assert(prev.len() == 0);
    assert(spawned(seq![e], start) == prev + offspring_entries(e, start + prev.len()));
}

/// Resolving events one list after another gives the score of resolving them
/// all at once: each event adds the released energy exactly once.
pub proof fn lemma_energy_accounting(score: int, first: int, second: int)
    requires
        0 <= score <= u64::MAX,
        0 <= first,
        0 <= second,
    ensures
        score_after(score_after(score, first), second) == score_after(score, first + second),
        score + ENERGY_RELEASED * (first + second) <= u64::MAX ==> score_after(score, first + second)
            == score + ENERGY_RELEASED * (first + second),
{
}

/// Longest time step that one motion step accepts, in microseconds.
pub const MAX_TICK_MICROS: u64 = 1_000_000_000_000;

/// A coordinate held inside the world's edge.
pub open spec fn clamp_world(c: int) -> int {
    if c > WORLD_LIMIT {
        WORLD_LIMIT as int
    } else if c < -WORLD_LIMIT {
        -WORLD_LIMIT as int
    } else {
        c
    }
}

/// A coordinate after moving at `v` per second for `delta_micros`
/// microseconds at a speed of `speed` thousandths, the step rounded toward
/// zero and the result held inside the world's edge.
pub open spec fn moved(c: int, v: int, delta_micros: int, speed: int) -> int {
    clamp_world(c + trunc_div(v * delta_micros * speed, 1_000_000_000))
}

pub open spec fn moved_entry(n: NeutronEntry, delta_micros: int, speed: int) -> NeutronEntry {
    NeutronEntry {
        position: Vector2 {
            x: moved(n.position.x as int, n.neutron.velocity.x as int, delta_micros, speed) as i64,
            y: moved(n.position.y as int, n.neutron.velocity.y as int, delta_micros, speed) as i64,
        },
        ..n
    }
}

fn moved_coord(c: i64, v: i64, delta_micros: u64, speed: u32) -> (r: i64)
    requires
        -WORLD_LIMIT <= c <= WORLD_LIMIT,
        -SPEED_LIMIT <= v <= SPEED_LIMIT,
        delta_micros <= MAX_TICK_MICROS,
    ensures
        r == moved(c as int, v as int, delta_micros as int, speed as int),
{
    let dv: i128 = v as i128;
    let dt: i128 = delta_micros as i128;
    let sp: i128 = speed as i128;
    assert(-1_000_000_000_000_000_000_000_000 <= dv * dt <= 1_000_000_000_000_000_000_000_000)
        by (nonlinear_arith)
        requires
            -1_000_000_000_000 <= dv <= 1_000_000_000_000,
            0 <= dt <= 1_000_000_000_000;
    let p: i128 = dv * dt;
    assert(-5_000_000_000_000_000_000_000_000_000_000_000 <= p * sp
        <= 5_000_000_000_000_000_000_000_000_000_000_000) by (nonlinear_arith)
        requires
            -1_000_000_000_000_000_000_000_000 <= p <= 1_000_000_000_000_000_000_000_000,
            0 <= sp <= 4_294_967_295;
    let n: i128 = p * sp;
    let step: i128 = if n >= 0 {
        n / 1_000_000_000
    } else {
        -((-n) / 1_000_000_000)
    };
    assert(-5_000_000_000_000_000_000_000_000 <= step <= 5_000_000_000_000_000_000_000_000) by (nonlinear_arith)
        requires
            -5_000_000_000_000_000_000_000_000_000_000_000 <= n
                <= 5_000_000_000_000_000_000_000_000_000_000_000,
            step == trunc_div(n as int, 1_000_000_000);
    let target: i128 = c as i128 + step;
    if target > WORLD_LIMIT as i128 {
        WORLD_LIMIT
    } else if target < -(WORLD_LIMIT as i128) {
        -WORLD_LIMIT
    } else {
        target as i64
    }
}

/// The atoms of `s` without the one of id `id`.
pub open spec fn atoms_without(s: Seq<AtomEntry>, id: u64) -> Seq<AtomEntry>
    decreases s.len(),
{
    if s.len() == 0 {
        s
    } else if s.last().id == id {
        atoms_without(s.drop_last(), id)
    } else {
        atoms_without(s.drop_last(), id).push(s.last())
    }
}

/// The neutrons of `s` without the one of id `id`.
pub open spec fn neutrons_without(s: Seq<NeutronEntry>, id: u64) -> Seq<NeutronEntry>
    decreases s.len(),
{
    if s.len() == 0 {
        s
    } else if s.last().id == id {
        neutrons_without(s.drop_last(), id)
    } else {
        neutrons_without(s.drop_last(), id).push(s.last())
    }
}

pub open spec fn neutron_entry(id: u64, position: Vector2, velocity: Vector2) -> NeutronEntry {
    NeutronEntry {
        id,
        position,
        collider: Collider { radius: NEUTRON_RADIUS },
        neutron: Neutron { velocity },
    }
}

} // verus!
