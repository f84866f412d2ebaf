use nucleus::{CollisionEvent, GameStats, Vector2, World, ENERGY_RELEASED};

fn dist_sq(a: &Vector2, b: &Vector2) -> i128 {
    let dx = a.x as i128 - b.x as i128;
    let dy = a.y as i128 - b.y as i128;
    dx * dx + dy * dy
}

#[test]
fn new_world_is_empty() {
    let w = World::new();
    assert!(w.atoms.is_empty());
    assert!(w.neutrons.is_empty());
    assert_eq!(w.next_id, 0);
}

#[test]
fn spawning_gives_increasing_ids_and_radii() {
    let mut w = World::new();
    let a = w.spawn_atom(Vector2::new(0, 0), 3);
    let n = w.spawn_neutron(Vector2::new(1, 2), Vector2::new(3, 4));
    let m = w.spawn_neutron_with_marker(Vector2::new(5, 6));
    assert_eq!((a, n, m), (0, 1, 2));
    assert_eq!(w.atoms[0].collider.radius, 22_500);
    assert_eq!(w.atoms[0].atom.num_neutrons, 3);
    assert_eq!(w.neutrons[0].collider.radius, 7_500);
    assert_eq!(w.neutrons[1].neutron.velocity, Vector2::new(0, 0));
    assert_eq!(w.next_id, 3);
}

#[test]
fn motion_moves_by_velocity_time_and_speed() {
    let mut w = World::new();
    w.spawn_neutron(Vector2::new(-50_000, 0), Vector2::new(100_000, -3_000));
    w.neutron_motion(16_667, 500);
    assert_eq!(w.neutrons[0].position, Vector2::new(-50_000 + 833, -25));
    w.neutron_motion(1_000_000, 1_000);
    assert_eq!(w.neutrons[0].position, Vector2::new(50_833, -3_025));
}

#[test]
fn motion_stops_at_the_world_edge() {
    let mut w = World::new();
    w.spawn_neutron(Vector2::new(999_999_999_999_000, 0), Vector2::new(1_000_000_000_000, 0));
    w.neutron_motion(1_000_000_000_000, 4_000_000_000);
    assert_eq!(w.neutrons[0].position.x, 1_000_000_000_000_000);
}

#[test]
fn one_neutron_on_two_atoms_is_taken_once() {
    let mut w = World::new();
    w.spawn_atom(Vector2::new(-10_000, 0), 2);
    w.spawn_atom(Vector2::new(10_000, 0), 3);
    w.spawn_neutron(Vector2::new(0, 0), Vector2::new(100_000, 0));
    let events = w.atom_collision();
    assert_eq!(events.len(), 1);
    assert_eq!(
        events[0],
        CollisionEvent {
            neutron_velocity: Vector2::new(100_000, 0),
            atom_position: Vector2::new(-10_000, 0),
            num_neutrons: 2,
        }
    );
    assert_eq!(w.atoms.len(), 1);
    assert_eq!(w.atoms[0].position, Vector2::new(10_000, 0));
    assert!(w.neutrons.is_empty());
}

#[test]
fn an_atom_takes_its_first_overlapping_neutron() {
    let mut w = World::new();
    w.spawn_atom(Vector2::new(0, 0), 1);
    w.spawn_neutron(Vector2::new(100_000, 0), Vector2::new(1, 0));
    w.spawn_neutron(Vector2::new(5_000, 0), Vector2::new(2, 0));
    w.spawn_neutron(Vector2::new(-5_000, 0), Vector2::new(3, 0));
    let events = w.atom_collision();
    assert_eq!(events.len(), 1);
    assert_eq!(events[0].neutron_velocity, Vector2::new(2, 0));
    assert_eq!(w.neutrons.len(), 2);
    assert_eq!(w.neutrons[0].id, 1);
    assert_eq!(w.neutrons[1].id, 3);
}

#[test]
fn atoms_without_neutrons_stay() {
    let mut w = World::new();
    w.spawn_atom(Vector2::new(0, 0), 1);
    w.spawn_neutron(Vector2::new(30_000, 0), Vector2::new(1, 0));
    let events = w.atom_collision();
    assert!(events.is_empty());
    assert_eq!(w.atoms.len(), 1);
    assert_eq!(w.neutrons.len(), 1);
}

#[test]
fn resolving_events_adds_energy_once_each() {
    let mut w = World::new();
    let mut stats = GameStats::default();
    let events = vec![
        CollisionEvent { neutron_velocity: Vector2::new(1_000, 0), atom_position: Vector2::new(0, 0), num_neutrons: 2 },
        CollisionEvent { neutron_velocity: Vector2::new(1_000, 0), atom_position: Vector2::new(0, 0), num_neutrons: 9 },
        CollisionEvent { neutron_velocity: Vector2::new(1_000, 0), atom_position: Vector2::new(0, 0), num_neutrons: 5 },
        CollisionEvent { neutron_velocity: Vector2::new(1_000, 0), atom_position: Vector2::new(0, 0), num_neutrons: 0 },
    ];
    w.collision_listener(&events, &mut stats);
    assert_eq!(stats.score, 4 * ENERGY_RELEASED);
    assert_eq!(stats.score, 128);
    assert_eq!(w.neutrons.len(), 7);
    assert_eq!(w.next_id, 7);
    assert_eq!(stats.level, 0);
    assert_eq!(stats.simulation_speed, 500);
}

#[test]
fn invalid_split_spawns_nothing_but_scores() {
    let mut w = World::new();
    let mut stats = GameStats::default();
    let events = vec![CollisionEvent {
        neutron_velocity: Vector2::new(100_000, 0),
        atom_position: Vector2::new(0, 0),
        num_neutrons: 6,
    }];
    w.collision_listener(&events, &mut stats);
    assert!(w.neutrons.is_empty());
    assert_eq!(stats.score, ENERGY_RELEASED);
}

#[test]
fn score_is_held_at_its_largest_value() {
    let mut w = World::new();
    let mut stats = GameStats { score: u64::MAX - 40, level: 2, simulation_speed: 500 };
    let e = CollisionEvent { neutron_velocity: Vector2::new(1, 0), atom_position: Vector2::new(0, 0), num_neutrons: 7 };
    w.collision_listener(&vec![e, e], &mut stats);
    assert_eq!(stats.score, u64::MAX);
}

#[test]
fn chain_reaction_end_to_end() {
    let mut w = World::new();
    let mut stats = GameStats::default();
    w.spawn_atom(Vector2::new(0, 0), 3);
    w.spawn_neutron(Vector2::new(-50_000, 0), Vector2::new(100_000, 0));
    let mut events = Vec::new();
    for _ in 0..1_000 {
        w.neutron_motion(16_667, stats.simulation_speed);
        events = w.atom_collision();
        if !events.is_empty() {
            break;
        }
    }
    assert_eq!(
        events,
        vec![CollisionEvent {
            neutron_velocity: Vector2::new(100_000, 0),
            atom_position: Vector2::new(0, 0),
            num_neutrons: 3,
        }]
    );
    assert!(w.atoms.is_empty());
    assert!(w.neutrons.is_empty());
    w.collision_listener(&events, &mut stats);
    assert_eq!(w.neutrons.len(), 3);
    let expected = [Vector2::new(50_000, 86_602), Vector2::new(100_000, 0), Vector2::new(50_000, -86_602)];
    for (n, v) in w.neutrons.iter().zip(expected.iter()) {
        assert_eq!(n.position, Vector2::new(0, 0));
        assert_eq!(n.neutron.velocity, *v);
        let speed_sq = dist_sq(&n.neutron.velocity, &Vector2::new(0, 0));
        assert!(speed_sq <= 10_000_000_000 && speed_sq > 9_999_000_000);
    }
    assert_eq!(stats.score, 32);
}

#[test]
fn cleanup_empties_the_world_and_keeps_ids_fresh() {
    let mut w = World::new();
    w.spawn_atom(Vector2::new(0, 0), 3);
    w.spawn_neutron(Vector2::new(0, 0), Vector2::new(1, 0));
    w.cleanup();
    assert!(w.atoms.is_empty());
    assert!(w.neutrons.is_empty());
    assert_eq!(w.spawn_atom(Vector2::new(0, 0), 1), 2);
}

#[test]
fn despawn_removes_the_entity_of_that_id() {
    let mut w = World::new();
    w.spawn_atom(Vector2::new(0, 0), 3);
    w.spawn_neutron(Vector2::new(1, 0), Vector2::new(1, 0));
    w.spawn_atom(Vector2::new(2, 0), 1);
    assert!(w.despawn(1));
    assert!(w.neutrons.is_empty());
    assert_eq!(w.atoms.len(), 2);
    assert!(w.despawn(0));
    assert_eq!(w.atoms.len(), 1);
    assert_eq!(w.atoms[0].id, 2);
    assert!(!w.despawn(0));
    assert!(!w.despawn(7));
    assert_eq!(w.atoms.len(), 1);
}
