use vstd::prelude::*;
use crate::geometry::{
    Collider, Vector2, overlaps, contains_point, is_colliding, is_cords_in_collider,
    clamp_vec2_by_length, clamped_by_length, WORLD_LIMIT, COMPONENT_LIMIT,
};
use crate::level::LevelStats;
use crate::split::trunc_div;
use crate::world::{World, AtomEntry, NeutronEntry, Neutron, neutron_entry, NEUTRON_SIZE};

verus! {

/// Slowest speed that the player can give a neutron, per second.
pub const MIN_AIM_SPEED: i64 = 100;

/// Fastest speed that the player can give a neutron, per second.
pub const MAX_AIM_SPEED: i64 = 1_500_000;

/// Where the player is in placing a neutron: choosing where it goes, or
/// choosing the velocity of the neutron of the given id that was just placed.
#[allow(non_camel_case_types)]
#[derive(Clone, Copy, Debug, PartialEq, Eq, Structural)]
pub enum PlacementState {
    NEUTRON,
    VELOCITY(u64),
}

/// The velocity that aiming from `position` at `cursor` gives: seven and a
/// half times the offset per second, its length held between the slowest and
/// the fastest aim speed.
pub open spec fn aim_velocity(cursor: Vector2, position: Vector2) -> Vector2 {
    clamped_by_length(
        Vector2 {
            x: trunc_div((cursor.x - position.x) * 15, 2) as i64,
            y: trunc_div((cursor.y - position.y) * 15, 2) as i64,
        },
        MIN_AIM_SPEED as int,
        MAX_AIM_SPEED as int,
    )
}

/// Whether a neutron placed at `cursor` would overlap one of `atoms`.
pub open spec fn blocked_by_atom(atoms: Seq<AtomEntry>, cursor: Vector2) -> bool {
    exists|k: int|
        0 <= k < atoms.len() && overlaps(
            #[trigger] atoms[k].position,
            atoms[k].collider.radius as int,
            cursor,
            NEUTRON_SIZE as int,
        )
}

/// Index of the first neutron of `ns` whose circle holds `cursor`, or -1.
pub open spec fn first_touched(ns: Seq<NeutronEntry>, cursor: Vector2) -> int
    decreases ns.len(),
{
    if ns.len() == 0 {
        -1
    } else {
        let j = first_touched(ns.drop_last(), cursor);
        if j >= 0 {
            j
        } else if contains_point(cursor, ns.last().position, ns.last().collider.radius as int) {
            ns.len() - 1
        } else {
            -1
        }
    }
}

/// A neutron count raised by one, held at the largest value it can take.
pub open spec fn refunded(n: i32) -> i32 {
    if n == i32::MAX {
        n
    } else {
        (n + 1) as i32
    }
}

/// `n` with the velocity that aiming at `cursor` gives it.
pub open spec fn armed(n: NeutronEntry, cursor: Vector2) -> NeutronEntry {
    NeutronEntry { neutron: Neutron { velocity: aim_velocity(cursor, n.position) }, ..n }
}

/// The state fits the world: a neutron being aimed is live.
pub open spec fn placement_ok(world: &World, state: PlacementState) -> bool {
    match state {
        PlacementState::NEUTRON => true,
        PlacementState::VELOCITY(id) => exists|k: int|
            0 <= k < world.neutrons@.len() && (#[trigger] world.neutrons@[k]).id == id,
    }
}

proof fn lemma_first_touched_step(ns: Seq<NeutronEntry>, cursor: Vector2, j: int)
    requires
        0 <= j < ns.len(),
        first_touched(ns.take(j), cursor) == -1,
    ensures
        first_touched(ns.take(j + 1), cursor) == if contains_point(
            cursor,
            ns[j].position,
            ns[j].collider.radius as int,
        ) {
            j
        } else {
            -1
        },
{
    assert(ns.take(j + 1).drop_last() =~= ns.take(j));
}

proof fn lemma_first_touched_prefix(ns: Seq<NeutronEntry>, cursor: Vector2, k: int)
    requires
        0 <= k <= ns.len(),
        first_touched(ns.take(k), cursor) >= 0,
    ensures
        first_touched(ns, cursor) == first_touched(ns.take(k), cursor),
    decreases ns.len() - k,
{
    if k == ns.len() {
        assert(ns.take(k) =~= ns);
    } else {
        assert(ns.take(k + 1).drop_last() =~= ns.take(k));
        lemma_first_touched_prefix(ns, cursor, k + 1);
    }
}

fn half_step(d: i64) -> (r: i64)
    requires
        -2 * WORLD_LIMIT <= d <= 2 * WORLD_LIMIT,
    ensures
        r == trunc_div(d * 15, 2),
        -COMPONENT_LIMIT <= r <= COMPONENT_LIMIT,
{
    let n = d * 15;
    if n >= 0 {
        n / 2
    } else {
        -((-n) / 2)
    }
}

/// The velocity that aiming from `position` at `cursor` gives.
fn aim(cursor: Vector2, position: Vector2) -> (r: Vector2)
    requires
        cursor.in_world(),
        position.in_world(),
    ensures
        r == aim_velocity(cursor, position),
        r.is_velocity(),
{
    let offset = Vector2::new(half_step(cursor.x - position.x), half_step(cursor.y - position.y));
    clamp_vec2_by_length(offset, MIN_AIM_SPEED, MAX_AIM_SPEED)
}

/// A press of the primary button at `cursor` during placement. While the
/// player chooses a place, a new neutron at rest is put there unless it would
/// overlap an atom, and the player goes on to aim it. While the player aims,
/// the neutron gets the velocity that aiming at `cursor` gives, one placeable
/// neutron is used up, and the player chooses a place again. Nothing happens
/// once no placeable neutron is left.
pub fn player_place_neutrons(
    world: &mut World,
    cursor: Vector2,
    level_stats: &mut LevelStats,
    state: &mut PlacementState,
)
    requires
        old(world).wf(),
        placement_ok(old(world), *old(state)),
        cursor.in_world(),
        old(world).next_id < u64::MAX,
    ensures
        final(world).wf(),
        placement_ok(final(world), *final(state)),
        final(world).atoms@ == old(world).atoms@,
        final(level_stats).s_score == old(level_stats).s_score,
        old(level_stats).num_neutrons <= 0 ==> {
            &&& *final(world) == *old(world)
            &&& *final(level_stats) == *old(level_stats)
            &&& *final(state) == *old(state)
        },
        old(level_stats).num_neutrons > 0 && *old(state) == PlacementState::NEUTRON ==> {
            &&& *final(level_stats) == *old(level_stats)
            &&& if blocked_by_atom(old(world).atoms@, cursor) {
                &&& *final(world) == *old(world)
                &&& *final(state) == *old(state)
            } else {
                &&& final(world).neutrons@ == old(world).neutrons@.push(
                    neutron_entry(old(world).next_id, cursor, Vector2 { x: 0, y: 0 }),
                )
                &&& final(world).next_id == old(world).next_id + 1
                &&& *final(state) == PlacementState::VELOCITY(old(world).next_id)
            }
        },
        old(level_stats).num_neutrons > 0 ==> forall|id: u64|
            *old(state) == PlacementState::VELOCITY(id) ==> {
                &&& exists|k: int|
                    0 <= k < old(world).neutrons@.len() && (#[trigger] old(world).neutrons@[k]).id
                        == id && final(world).neutrons@ == old(world).neutrons@.update(
                        k,
                        armed(old(world).neutrons@[k], cursor),
                    )
                &&& final(world).next_id == old(world).next_id
                &&& final(level_stats).num_neutrons == old(level_stats).num_neutrons - 1
                &&& *final(state) == PlacementState::NEUTRON
            },
{
    if level_stats.num_neutrons <= 0 {
        return;
    }
    match *state {
        PlacementState::NEUTRON => {
            let probe = Collider::new(NEUTRON_SIZE);
            let mut i: usize = 0;
            while i < world.atoms.len()
                invariant
                    world.wf(),
                    *world == *old(world),
                    *state == *old(state),
                    *level_stats == *old(level_stats),
                    *old(state) == PlacementState::NEUTRON,
                    cursor.in_world(),
                    probe.radius == NEUTRON_SIZE,
                    0 <= i <= world.atoms@.len(),
                    forall|k: int|
                        0 <= k < i ==> !overlaps(
                            #[trigger] world.atoms@[k].position,
                            world.atoms@[k].collider.radius as int,
                            cursor,
                            NEUTRON_SIZE as int,
                        ),
                decreases world.atoms@.len() - i,
            {
                proof {
                    assert(world.atoms@[i as int].wf(world.next_id));
                }
                if is_colliding((&world.atoms[i].position, &world.atoms[i].collider), (&cursor, &probe)) {
                    proof {
                        let w = i as int;
                        assert(overlaps(
                            world.atoms@[w].position,
                            world.atoms@[w].collider.radius as int,
                            cursor,
                            NEUTRON_SIZE as int,
                        ));
                        assert(blocked_by_atom(old(world).atoms@, cursor));
                    }
                    return;
                }
                i += 1;
            }
            let id = world.spawn_neutron_with_marker(cursor);
            *state = PlacementState::VELOCITY(id);
            proof {
                let k = world.neutrons@.len() - 1;
                assert(world.neutrons@[k].id == id);
            }
        },
        PlacementState::VELOCITY(id) => {
            let mut k: usize = 0;
            while k < world.neutrons.len()
                invariant_except_break
                    forall|m: int| 0 <= m < k ==> (#[trigger] world.neutrons@[m]).id != id,
                invariant
                    0 <= k <= world.neutrons@.len(),
                ensures
                    k < world.neutrons@.len() ==> world.neutrons@[k as int].id == id,
                    k == world.neutrons@.len() ==> forall|m: int|
                        0 <= m < k ==> (#[trigger] world.neutrons@[m]).id != id,
                decreases world.neutrons@.len() - k,
            {
                if world.neutrons[k].id == id {
                    break;
                }
                k += 1;
            }
            if k == world.neutrons.len() {
                proof {
                    let w = choose|m: int|
                        0 <= m < world.neutrons@.len() && (#[trigger] world.neutrons@[m]).id == id;
                    assert(world.neutrons@[w].id != id);
                }
                return;
            }
            let n = world.neutrons[k];
            proof {
                assert(world.neutrons@[k as int].wf(world.next_id));
            }
            let velocity = aim(cursor, n.position);
            let entry = NeutronEntry { neutron: Neutron { velocity }, ..n };
            let ghost before = world.neutrons@;
            world.neutrons.set(k, entry);
            proof {
                assert(world.neutrons@ == before.update(k as int, armed(before[k as int], cursor)));
                assert forall|m: int| 0 <= m < world.neutrons@.len() implies (
                #[trigger] world.neutrons@[m]).wf(world.next_id) by {
                    if m != k {
                        assert(world.neutrons@[m] == before[m]);
                    }
                }
            }
            level_stats.num_neutrons = level_stats.num_neutrons - 1;
            *state = PlacementState::NEUTRON;
        },
    }
}

/// A press of the secondary button at `cursor` during placement: the first
/// neutron whose circle holds `cursor` is removed. While the player chooses
/// a place, or aims another neutron, its placeable neutron comes back; the
/// neutron being aimed had not used one up, and its removal sends the player
/// back to choosing a place.
pub fn player_remove_neutron(
    world: &mut World,
    cursor: Vector2,
    level_stats: &mut LevelStats,
    state: &mut PlacementState,
)
    requires
        old(world).wf(),
        placement_ok(old(world), *old(state)),
        cursor.in_world(),
    ensures
        final(world).wf(),
        placement_ok(final(world), *final(state)),
        final(world).atoms@ == old(world).atoms@,
        final(world).next_id == old(world).next_id,
        final(level_stats).s_score == old(level_stats).s_score,
        ({
            let k = first_touched(old(world).neutrons@, cursor);
            if k < 0 {
                &&& *final(world) == *old(world)
                &&& *final(level_stats) == *old(level_stats)
                &&& *final(state) == *old(state)
            } else {
                &&& final(world).neutrons@ == old(world).neutrons@.remove(k)
                &&& if *old(state) == PlacementState::VELOCITY(old(world).neutrons@[k].id) {
                    &&& *final(state) == PlacementState::NEUTRON
                    &&& final(level_stats).num_neutrons == old(level_stats).num_neutrons
                } else {
                    &&& *final(state) == *old(state)
                    &&& final(level_stats).num_neutrons == refunded(old(level_stats).num_neutrons)
                }
            }
        }),
{
    let mut j: usize = 0;
    let mut found = false;
    while j < world.neutrons.len()
        invariant_except_break
            !found,
        invariant
            world.wf(),
            cursor.in_world(),
            0 <= j <= world.neutrons@.len(),
            first_touched(world.neutrons@.take(j as int), cursor) == -1,
        ensures
            first_touched(world.neutrons@.take(j as int), cursor) == -1,
            found ==> j < world.neutrons@.len() && contains_point(
                cursor,
                world.neutrons@[j as int].position,
                world.neutrons@[j as int].collider.radius as int,
            ),
            !found ==> j == world.neutrons@.len(),
        decreases world.neutrons@.len() - j,
    {
        proof {
            lemma_first_touched_step(world.neutrons@, cursor, j as int);
            assert(world.neutrons@[j as int].wf(world.next_id));
        }
        if is_cords_in_collider(cursor, world.neutrons[j].position, &world.neutrons[j].collider) {
            found = true;
            break;
        }
        j += 1;
    }
    if !found {
        proof {
            assert(world.neutrons@.take(j as int) =~= world.neutrons@);
        }
        return;
    }
    proof {
        lemma_first_touched_step(world.neutrons@, cursor, j as int);
        lemma_first_touched_prefix(world.neutrons@, cursor, j + 1);
    }
    let ghost before = world.neutrons@;
    let removed = world.neutrons.remove(j);
    proof {
        let ns = world.neutrons@;
        assert(ns == before.remove(j as int));
        assert forall|k: int| 0 <= k < ns.len() implies (#[trigger] ns[k]).wf(world.next_id) by {
            if k >= j {
                assert(ns[k] == before[k + 1]);
            } else {
                assert(ns[k] == before[k]);
            }
        }
        assert forall|k: int, m: int| 0 <= k < m < ns.len() implies ns[k].id < ns[m].id by {
            let k2 = if k >= j { k + 1 } else { k };
            let m2 = if m >= j { m + 1 } else { m };
            assert(ns[k] == before[k2]);
            assert(ns[m] == before[m2]);
        }
    }
    let refund = match *state {
        PlacementState::NEUTRON => true,
        PlacementState::VELOCITY(id) => removed.id != id,
    };
    if refund {
        if level_stats.num_neutrons < i32::MAX {
            level_stats.num_neutrons = level_stats.num_neutrons + 1;
        }
        proof {
            if let PlacementState::VELOCITY(id) = *state {
                let w = choose|m: int| 0 <= m < before.len() && (#[trigger] before[m]).id == id;
                let w2 = if w > j { w - 1 } else { w };
                assert(w != j);
                assert(world.neutrons@[w2] == before[w]);
            }
        }
    } else {
        *state = PlacementState::NEUTRON;
    }
}

/// Whether the game may start: the player asked for it and is not in the
/// middle of aiming a neutron.
pub fn player_end_setup(start_pressed: bool, placement_state: &PlacementState) -> (r: bool)
    ensures
        r == (start_pressed && *placement_state == PlacementState::NEUTRON),
{
    start_pressed && match placement_state {
        PlacementState::NEUTRON => true,
        PlacementState::VELOCITY(_) => false,
    }
}

} // verus!
