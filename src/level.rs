use vstd::prelude::*;
use crate::geometry::{Collider, Vector2};
use crate::world::{World, Atom, AtomEntry, ENERGY_RELEASED, ATOM_RADIUS};

verus! {

/// The state of a game session: the score in picojoules, the level being
/// played, and the speed of the simulation in thousandths.
#[derive(Clone, Copy, Debug, PartialEq, Eq, Structural)]
pub struct GameStats {
    pub score: u64,
    pub level: i32,
    pub simulation_speed: u32,
}

impl Default for GameStats {
    fn default() -> (r: GameStats)
        ensures
            r.score == 0,
            r.level == 0,
            r.simulation_speed == 500,
    {
        GameStats { score: 0, level: 0, simulation_speed: 500 }
    }
}

/// What a level gives the player: how many neutrons they may place, and the
/// score in picojoules that earns the best grade.
#[derive(Clone, Copy, Debug, PartialEq, Eq, Structural)]
pub struct LevelStats {
    pub num_neutrons: i32,
    pub s_score: u64,
}

/// A level: the atoms to spawn, each as its neutron count and position, and
/// the level's stats.
#[derive(Debug)]
pub struct Level {
    pub atoms: Vec<(i32, Vector2)>,
    pub level_stats: LevelStats,
}

/// An atom seed at (`x`, `y`) whole world units.
pub open spec fn seed(num_neutrons: i32, x: int, y: int) -> (i32, Vector2) {
    (num_neutrons, Vector2 { x: (x * 1000) as i64, y: (y * 1000) as i64 })
}

fn make_seed(num_neutrons: i32, x: i64, y: i64) -> (r: (i32, Vector2))
    requires
        -1_000_000 <= x <= 1_000_000,
        -1_000_000 <= y <= 1_000_000,
    ensures
        r == seed(num_neutrons, x as int, y as int),
{
    (num_neutrons, Vector2::new(x * 1000, y * 1000))
}

/// The atoms that a sphere grid gives in the column at `x`, from row `y` on:
/// one at each step of `d` below `r` that lies within distance `r` of the
/// origin.
pub open spec fn sphere_column(r: int, d: int, n: i32, x: int, y: int) -> Seq<(i32, Vector2)>
    decreases r + d - y,
{
    if d <= 0 || y >= r {
        seq![]
    } else {
        let rest = sphere_column(r, d, n, x, y + d);
        if x * x + y * y > r * r {
            rest
        } else {
            seq![seed(n, x, y)] + rest
        }
    }
}

/// The atoms of a sphere grid from column `x` on.
pub open spec fn sphere_from(r: int, d: int, n: i32, x: int) -> Seq<(i32, Vector2)>
    decreases r + d - x,
{
    if d <= 0 || x >= r {
        seq![]
    } else {
        sphere_column(r, d, n, x, -r) + sphere_from(r, d, n, x + d)
    }
}

/// The atoms of a disc of radius `r`, on a grid of step `d` that starts at
/// (-r, -r), column by column.
pub open spec fn sphere(r: int, d: int, n: i32) -> Seq<(i32, Vector2)> {
    sphere_from(r, d, n, -r)
}

/// Atoms of `num_neutrons` neutrons on every point of a grid of step
/// `distance_apart`, from (-radius, -radius) up to but not including radius
/// on each axis, that lies within `radius` of the origin.
pub fn generate_atom_sphere(radius: i64, distance_apart: usize, num_neutrons: i32) -> (r: Vec<
    (i32, Vector2),
>)
    requires
        0 <= radius <= 1_000_000,
        1 <= distance_apart <= 1_000_000,
    ensures
        r@ == sphere(radius as int, distance_apart as int, num_neutrons),
{
    let d = distance_apart as i64;
    let ghost rr = radius as int;
    let ghost dd = d as int;
    let mut out: Vec<(i32, Vector2)> = Vec::new();
    let mut x: i64 = -radius;
    while x < radius
        invariant
            0 <= radius <= 1_000_000,
            1 <= d <= 1_000_000,
            rr == radius,
            dd == d,
            -radius <= x <= radius + d,
            out@ + sphere_from(rr, dd, num_neutrons, x as int) == sphere(rr, dd, num_neutrons),
        decreases radius + d - x,
    {
        let ghost start = out@;
        let mut y: i64 = -radius;
        while y < radius
            invariant
                0 <= radius <= 1_000_000,
                1 <= d <= 1_000_000,
                rr == radius,
                dd == d,
                -radius <= x < radius,
                -radius <= y <= radius + d,
                out@ + sphere_column(rr, dd, num_neutrons, x as int, y as int) == start
                    + sphere_column(rr, dd, num_neutrons, x as int, -rr),
            decreases radius + d - y,
        {
            let ghost before = out@;
            let ghost rest = sphere_column(rr, dd, num_neutrons, x as int, y + d);
            assert(0 <= x * x <= 1_000_000_000_000) by (nonlinear_arith)
                requires -1_000_000 <= x <= 1_000_000;
            assert(0 <= y * y <= 1_000_000_000_000) by (nonlinear_arith)
                requires -1_000_000 <= y <= 1_000_000;
            assert(radius * radius <= 1_000_000_000_000) by (nonlinear_arith)
                requires 0 <= radius <= 1_000_000;
            if x * x + y * y <= radius * radius {
                out.push(make_seed(num_neutrons, x, y));
                proof {
                    assert(out@ + rest =~= before + (seq![seed(num_neutrons, x as int, y as int)] + rest));
                }
            }
            y = y + d;
        }
        proof {
            assert(sphere_column(rr, dd, num_neutrons, x as int, y as int) =~= seq![]);
            assert(out@ =~= start + sphere_column(rr, dd, num_neutrons, x as int, -rr));
            assert(out@ + sphere_from(rr, dd, num_neutrons, x + d) =~= start + sphere_from(
                rr,
                dd,
                num_neutrons,
                x as int,
            ));
        }
        x = x + d;
    }
    proof {
        assert(sphere_from(rr, dd, num_neutrons, x as int) =~= seq![]);
        assert(out@ =~= out@ + sphere_from(rr, dd, num_neutrons, x as int));
    }
    out
}

/// The atoms of each fixed level: a few rows of atoms above a central one.
pub open spec fn fixed_level_atoms(level: int) -> Seq<(i32, Vector2)> {
    if level == 0 {
        seq![seed(2, 0, 0), seed(3, -100, 100), seed(3, 100, 100)]
    } else if level == 1 {
        seq![seed(5, 0, 0), seed(1, -165, 100), seed(1, 165, 100), seed(2, -315, 200), seed(3, 0, 200), seed(2, 315, 200)]
    } else if level == 2 {
        seq![seed(5, 0, 0), seed(3, -75, 75), seed(3, 0, 75), seed(3, 75, 75), seed(3, -225, 150), seed(3, -150, 150), seed(3, 0, 150), seed(3, 150, 150), seed(3, 225, 150), seed(3, -225, 225), seed(3, -150, 225), seed(3, 0, 225), seed(3, 150, 225), seed(3, 225, 225)]
    } else if level == 3 {
        seq![seed(5, 0, 0), seed(3, -150, 75), seed(3, -75, 75), seed(3, 0, 75), seed(3, 75, 75), seed(3, 150, 75), seed(3, -225, 150), seed(3, -150, 150), seed(3, 0, 150), seed(3, 150, 150), seed(3, 225, 150), seed(3, -225, 225), seed(3, -150, 225), seed(3, -75, 225), seed(3, 0, 225), seed(3, 75, 225), seed(3, 150, 225), seed(3, 225, 225)]
    } else {
        seq![]
    }
}

/// The atoms of a level, where the level exists.
pub open spec fn level_atoms(level: int) -> Seq<(i32, Vector2)> {
    if level == 4 {
        sphere(8000, 75, 2)
    } else {
        fixed_level_atoms(level)
    }
}

/// The score that earns the best grade on a level, where the level exists:
/// the energy of every atom of the level.
pub open spec fn level_s_score(level: int) -> int {
    ENERGY_RELEASED * if level == 0 {
        3int
    } else if level == 1 {
        6
    } else if level == 2 {
        14
    } else if level == 3 {
        17
    } else {
        35000
    }
}

pub open spec fn level_exists(level: int) -> bool {
    0 <= level <= 4
}

/// The level of number `level`, if there is one: levels 0 to 3 are fixed
/// arrangements, level 4 a large disc of atoms; each gives one neutron.
pub fn get_level(level: i32) -> (r: Option<Level>)
    ensures
        r is Some <==> level_exists(level as int),
        r matches Some(l) ==> l.atoms@ == level_atoms(level as int) && l.level_stats
            == (LevelStats { num_neutrons: 1, s_score: level_s_score(level as int) as u64 }),
{
    match level {
        0 => {
            let atoms = vec![
                make_seed(2, 0, 0),
                make_seed(3, -100, 100),
                make_seed(3, 100, 100),
            ];
            proof {
                assert(atoms@ =~= fixed_level_atoms(0));
            }
            Some(Level { atoms, level_stats: LevelStats { num_neutrons: 1, s_score: ENERGY_RELEASED * 3 } })
        },
        1 => {
            let atoms = vec![
                make_seed(5, 0, 0),
                make_seed(1, -165, 100),
                make_seed(1, 165, 100),
                make_seed(2, -315, 200),
                make_seed(3, 0, 200),
                make_seed(2, 315, 200),
            ];
            proof {
                assert(atoms@ =~= fixed_level_atoms(1));
            }
            Some(Level { atoms, level_stats: LevelStats { num_neutrons: 1, s_score: ENERGY_RELEASED * 6 } })
        },
        2 => {
            let atoms = vec![
                make_seed(5, 0, 0),
                make_seed(3, -75, 75),
                make_seed(3, 0, 75),
                make_seed(3, 75, 75),
                make_seed(3, -225, 150),
                make_seed(3, -150, 150),
                make_seed(3, 0, 150),
                make_seed(3, 150, 150),
                make_seed(3, 225, 150),
                make_seed(3, -225, 225),
                make_seed(3, -150, 225),
                make_seed(3, 0, 225),
                make_seed(3, 150, 225),
                make_seed(3, 225, 225),
            ];
            proof {
                assert(atoms@ =~= fixed_level_atoms(2));
            }
            Some(Level { atoms, level_stats: LevelStats { num_neutrons: 1, s_score: ENERGY_RELEASED * 14 } })
        },
        3 => {
            let atoms = vec![
                make_seed(5, 0, 0),
                make_seed(3, -150, 75),
                make_seed(3, -75, 75),
                make_seed(3, 0, 75),
                make_seed(3, 75, 75),
                make_seed(3, 150, 75),
                make_seed(3, -225, 150),
                make_seed(3, -150, 150),
                make_seed(3, 0, 150),
                make_seed(3, 150, 150),
                make_seed(3, 225, 150),
                make_seed(3, -225, 225),
                make_seed(3, -150, 225),
                make_seed(3, -75, 225),
                make_seed(3, 0, 225),
                make_seed(3, 75, 225),
                make_seed(3, 150, 225),
                make_seed(3, 225, 225),
            ];
            proof {
                assert(atoms@ =~= fixed_level_atoms(3));
            }
            Some(Level { atoms, level_stats: LevelStats { num_neutrons: 1, s_score: ENERGY_RELEASED * 17 } })
        },
        4 => Some(
            Level {
                atoms: generate_atom_sphere(8000, 75, 2),
                level_stats: LevelStats { num_neutrons: 1, s_score: ENERGY_RELEASED * 35000 },
            },
        ),
        _ => None,
    }
}

/// Whether `score` reaches the mark of grade `i` (0 for S up to 4 for D):
/// one half of `s_score` plus `s_score / (2 + i)`.
pub open spec fn reaches_grade(score: int, s_score: int, i: int) -> bool {
    2 * (2 + i) * score >= (4 + i) * s_score
}

/// The best grade that `score` reaches, 0 for S up to 4 for D, or 5 for F.
pub open spec fn grade_rank(score: int, s_score: int) -> int {
    if reaches_grade(score, s_score, 0) {
        0
    } else if reaches_grade(score, s_score, 1) {
        1
    } else if reaches_grade(score, s_score, 2) {
        2
    } else if reaches_grade(score, s_score, 3) {
        3
    } else if reaches_grade(score, s_score, 4) {
        4
    } else {
        5
    }
}

pub open spec fn grade_letter(rank: int) -> Seq<char> {
    if rank == 0 {
        "S"@
    } else if rank == 1 {
        "A"@
    } else if rank == 2 {
        "B"@
    } else if rank == 3 {
        "C"@
    } else if rank == 4 {
        "D"@
    } else {
        "F"@
    }
}

fn letter(rank: u64) -> (r: &'static str)
    ensures
        r@ == grade_letter(rank as int),
{
    match rank {
        0 => "S",
        1 => "A",
        2 => "B",
        3 => "C",
        4 => "D",
        _ => "F",
    }
}

/// The letter grade of `score` on a level: S at the level's S score, then A,
/// B, C and D at one half of it plus a third, a quarter, a fifth and a sixth
/// of it, and F below.
pub fn calculate_grade(score: u64, level_stats: &LevelStats) -> (r: &'static str)
    ensures
        r@ == grade_letter(grade_rank(score as int, level_stats.s_score as int)),
{
    let s = score as u128;
    let t = level_stats.s_score as u128;
    let mut i: u64 = 0;
    while i < 5
        invariant
            0 <= i <= 5,
            s == score,
            t == level_stats.s_score,
            forall|k: int| 0 <= k < i ==> !reaches_grade(score as int, t as int, k),
        decreases 5 - i,
    {
        let w = i as u128;
        assert(2 * (2 + w) * s <= 12 * 0xffff_ffff_ffff_ffffu128) by (nonlinear_arith)
            requires w < 5, s <= 0xffff_ffff_ffff_ffffu128;
        assert((4 + w) * t <= 9 * 0xffff_ffff_ffff_ffffu128) by (nonlinear_arith)
            requires w < 5, t <= 0xffff_ffff_ffff_ffffu128;
        if 2 * (2 + w) * s >= (4 + w) * t {
            return letter(i);
        }
        i += 1;
    }
    letter(5)
}

/// A score equal to the level's S score earns S, and no score at all earns F
/// on a level whose S score is positive.
pub proof fn lemma_grade_bounds(s_score: int)
    requires
        0 <= s_score,
    ensures
        grade_rank(s_score, s_score) == 0,
        s_score > 0 ==> grade_rank(0, s_score) == 5,
{
}

impl World {
    /// Spawns the atoms of `level` in order and starts its score at zero.
    pub fn load_level(&mut self, level: &Level, game_stats: &mut GameStats) -> (r: LevelStats)
        requires
            old(self).wf(),
            forall|k: int| 0 <= k < level.atoms@.len() ==> (#[trigger] level.atoms@[k]).1.in_world(),
            old(self).next_id + level.atoms@.len() <= u64::MAX,
        ensures
            final(self).wf(),
            r == level.level_stats,
            final(self).neutrons@ == old(self).neutrons@,
            final(self).atoms@ == old(self).atoms@ + seeded_atoms(level.atoms@, old(self).next_id as int),
            final(self).next_id == old(self).next_id + level.atoms@.len(),
            final(game_stats).score == 0,
            final(game_stats).level == old(game_stats).level,
            final(game_stats).simulation_speed == old(game_stats).simulation_speed,
    {
        let ghost base = self.atoms@;
        let ghost start = self.next_id as int;
        let ghost all = seeded_atoms(level.atoms@, start);
        let mut i: usize = 0;
        while i < level.atoms.len()
            invariant
                self.wf(),
                0 <= i <= level.atoms@.len(),
                forall|k: int| 0 <= k < level.atoms@.len() ==> (#[trigger] level.atoms@[k]).1.in_world(),
                start + level.atoms@.len() <= u64::MAX,
                all == seeded_atoms(level.atoms@, start),
                self.neutrons@ == old(self).neutrons@,
                self.atoms@ == base + all.take(i as int),
                self.next_id == start + i,
            decreases level.atoms@.len() - i,
        {
            let (num_neutrons, position) = level.atoms[i];
            proof {
                assert(level.atoms@[i as int].1.in_world());
            }
            self.spawn_atom(position, num_neutrons);
            proof {
                assert(all.take(i + 1) =~= all.take(i as int).push(all[i as int]));
            }
            i += 1;
        }
        proof {
            assert(all.take(i as int) =~= all);
        }
        game_stats.score = 0;
        level.level_stats
    }

    /// Removes every atom and neutron. Ids are not reused afterwards.
    pub fn cleanup(&mut self)
        requires
            old(self).wf(),
        ensures
            final(self).wf(),
            final(self).atoms@.len() == 0,
            final(self).neutrons@.len() == 0,
            final(self).next_id == old(self).next_id,
    {
        self.atoms = Vec::new();
        self.neutrons = Vec::new();
    }
}

proof fn lemma_seed_in_world(n: i32, x: int, y: int, r: int)
    requires
        0 <= r <= 1_000_000,
        x * x + y * y <= r * r,
    ensures
        seed(n, x, y).1.in_world(),
{
    assert(-r <= x <= r && -r <= y <= r) by (nonlinear_arith)
        requires x * x + y * y <= r * r, 0 <= r;
}

proof fn lemma_sphere_column_in_world(r: int, d: int, n: i32, x: int, y: int)
    requires
        0 <= r <= 1_000_000,
    ensures
        forall|k: int| 0 <= k < sphere_column(r, d, n, x, y).len() ==> (#[trigger] sphere_column(r, d, n, x, y)[k]).1.in_world(),
    decreases r + d - y,
{
    if !(d <= 0 || y >= r) {
        lemma_sphere_column_in_world(r, d, n, x, y + d);
        if x * x + y * y <= r * r {
            lemma_seed_in_world(n, x, y, r);
            let a = seq![seed(n, x, y)];
            let b = sphere_column(r, d, n, x, y + d);
            assert forall|k: int| 0 <= k < (a + b).len() implies (#[trigger] (a + b)[k]).1.in_world() by {
                if k >= 1 {
                    assert((a + b)[k] == b[k - 1]);
                } else {
                    assert((a + b)[k] == a[0]);
                }
            }
            assert(sphere_column(r, d, n, x, y) == a + b);
            assert(forall|k: int| 0 <= k < sphere_column(r, d, n, x, y).len() ==> (#[trigger] sphere_column(r, d, n, x, y)[k]).1.in_world());
        } else {
            assert(sphere_column(r, d, n, x, y) == sphere_column(r, d, n, x, y + d));
        }
    }
}

proof fn lemma_sphere_from_in_world(r: int, d: int, n: i32, x: int)
    requires
        0 <= r <= 1_000_000,
    ensures
        forall|k: int| 0 <= k < sphere_from(r, d, n, x).len() ==> (#[trigger] sphere_from(r, d, n, x)[k]).1.in_world(),
    decreases r + d - x,
{
    if !(d <= 0 || x >= r) {
        lemma_sphere_from_in_world(r, d, n, x + d);
        lemma_sphere_column_in_world(r, d, n, x, -r);
        let a = sphere_column(r, d, n, x, -r);
        let b = sphere_from(r, d, n, x + d);
        assert forall|k: int| 0 <= k < (a + b).len() implies (#[trigger] (a + b)[k]).1.in_world() by {
            if k >= a.len() {
                assert((a + b)[k] == b[k - a.len()]);
            }
        }
    }
}

proof fn lemma_level_atoms_in_world(level: int)
    ensures
        forall|k: int| 0 <= k < level_atoms(level).len() ==> (#[trigger] level_atoms(level)[k]).1.in_world(),
{
    if level == 4 {
        lemma_sphere_from_in_world(8000, 75, 2, -8000);
    }
}

/// Loads the level that `game_stats` names into `world`, if there is such a
/// level and ids are left for its atoms, and gives its stats. Where there is
/// none, nothing changes.
pub fn setup_level(world: &mut World, game_stats: &mut GameStats) -> (r: Option<LevelStats>)
    requires
        old(world).wf(),
    ensures
        final(world).wf(),
        r is Some <==> level_exists(old(game_stats).level as int) && old(world).next_id
            + level_atoms(old(game_stats).level as int).len() <= u64::MAX,
        r matches Some(stats) ==> {
            &&& stats == (LevelStats { num_neutrons: 1, s_score: level_s_score(old(game_stats).level as int) as u64 })
            &&& final(world).atoms@ == old(world).atoms@ + seeded_atoms(
                level_atoms(old(game_stats).level as int),
                old(world).next_id as int,
            )
            &&& final(world).neutrons@ == old(world).neutrons@
            &&& final(world).next_id == old(world).next_id + level_atoms(old(game_stats).level as int).len()
            &&& final(game_stats).score == 0
        },
        r is None ==> *final(world) == *old(world) && *final(game_stats) == *old(game_stats),
        final(game_stats).level == old(game_stats).level,
        final(game_stats).simulation_speed == old(game_stats).simulation_speed,
{
    match get_level(game_stats.level) {
        Some(level) => {
            if level.atoms.len() as u64 > u64::MAX - world.next_id {
                return None;
            }
            proof {
                lemma_level_atoms_in_world(game_stats.level as int);
            }
            Some(world.load_level(&level, game_stats))
        },
        None => None,
    }
}

/// The atoms that spawning `seeds` in order adds, with ids counted from
/// `start`.
pub open spec fn seeded_atoms(seeds: Seq<(i32, Vector2)>, start: int) -> Seq<AtomEntry> {
    seeds.map(
        |k: int, s: (i32, Vector2)|
            AtomEntry {
                id: (start + k) as u64,
                position: s.1,
                collider: Collider { radius: ATOM_RADIUS },
                atom: Atom { num_neutrons: s.0 },
            },
    )
}

} // verus!
