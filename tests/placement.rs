use nucleus::{
    LevelStats, PlacementState, Vector2, World, player_end_setup, player_place_neutrons, player_remove_neutron,
};

fn level_with(num_neutrons: i32) -> LevelStats {
    LevelStats { num_neutrons, s_score: 96 }
}

#[test]
fn remove_unarmed_neutron_restores_count() {
    let mut world = World::new();
    let mut stats = level_with(1);
    let mut state = PlacementState::NEUTRON;
    player_place_neutrons(&mut world, Vector2::new(10_000, 10_000), &mut stats, &mut state);
    assert_eq!(world.neutrons.len(), 1);
    assert_eq!(state, PlacementState::VELOCITY(world.neutrons[0].id));
    assert_eq!(world.neutrons[0].neutron.velocity, Vector2::new(0, 0));
    player_remove_neutron(&mut world, Vector2::new(10_000, 10_000), &mut stats, &mut state);
    assert_eq!(stats.num_neutrons, 1);
    assert!(world.neutrons.is_empty());
    assert_eq!(state, PlacementState::NEUTRON);
}

#[test]
fn placement_on_an_atom_is_refused() {
    let mut world = World::new();
    world.spawn_atom(Vector2::new(0, 0), 3);
    let mut stats = level_with(1);
    let mut state = PlacementState::NEUTRON;
    player_place_neutrons(&mut world, Vector2::new(32_499, 0), &mut stats, &mut state);
    assert!(world.neutrons.is_empty());
    assert_eq!(state, PlacementState::NEUTRON);
    player_place_neutrons(&mut world, Vector2::new(32_500, 0), &mut stats, &mut state);
    assert_eq!(world.neutrons.len(), 1);
}

#[test]
fn aiming_commits_velocity_and_uses_a_neutron() {
    let mut world = World::new();
    let mut stats = level_with(2);
    let mut state = PlacementState::NEUTRON;
    player_place_neutrons(&mut world, Vector2::new(40_000, 0), &mut stats, &mut state);
    player_place_neutrons(&mut world, Vector2::new(50_000, -2_000), &mut stats, &mut state);
    assert_eq!(world.neutrons[0].neutron.velocity, Vector2::new(75_000, -15_000));
    assert_eq!(world.neutrons[0].position, Vector2::new(40_000, 0));
    assert_eq!(stats.num_neutrons, 1);
    assert_eq!(state, PlacementState::NEUTRON);
}

#[test]
fn aim_speed_is_clamped() {
    let mut world = World::new();
    let mut stats = level_with(1);
    let mut state = PlacementState::NEUTRON;
    player_place_neutrons(&mut world, Vector2::new(0, 0), &mut stats, &mut state);
    player_place_neutrons(&mut world, Vector2::new(0, 1_000_000), &mut stats, &mut state);
    assert_eq!(world.neutrons[0].neutron.velocity, Vector2::new(0, 1_500_000));
    assert_eq!(stats.num_neutrons, 0);
    let mut world2 = World::new();
    let mut stats2 = level_with(1);
    let mut state2 = PlacementState::NEUTRON;
    player_place_neutrons(&mut world2, Vector2::new(0, 0), &mut stats2, &mut state2);
    player_place_neutrons(&mut world2, Vector2::new(-1, 0), &mut stats2, &mut state2);
    assert_eq!(world2.neutrons[0].neutron.velocity, Vector2::new(-100, 0));
}

#[test]
fn no_placement_without_neutrons_left() {
    let mut world = World::new();
    let mut stats = level_with(0);
    let mut state = PlacementState::NEUTRON;
    player_place_neutrons(&mut world, Vector2::new(0, 0), &mut stats, &mut state);
    assert!(world.neutrons.is_empty());
    assert_eq!(stats.num_neutrons, 0);
    assert_eq!(state, PlacementState::NEUTRON);
}

#[test]
fn removing_a_committed_neutron_gives_it_back() {
    let mut world = World::new();
    let mut stats = level_with(1);
    let mut state = PlacementState::NEUTRON;
    player_place_neutrons(&mut world, Vector2::new(0, 0), &mut stats, &mut state);
    player_place_neutrons(&mut world, Vector2::new(1_000, 0), &mut stats, &mut state);
    assert_eq!(stats.num_neutrons, 0);
    player_remove_neutron(&mut world, Vector2::new(7_000, 0), &mut stats, &mut state);
    assert!(world.neutrons.is_empty());
    assert_eq!(stats.num_neutrons, 1);
    assert_eq!(state, PlacementState::NEUTRON);
}

#[test]
fn removing_another_neutron_while_aiming() {
    let mut world = World::new();
    let mut stats = level_with(2);
    let mut state = PlacementState::NEUTRON;
    player_place_neutrons(&mut world, Vector2::new(0, 0), &mut stats, &mut state);
    player_place_neutrons(&mut world, Vector2::new(1_000, 0), &mut stats, &mut state);
    player_place_neutrons(&mut world, Vector2::new(100_000, 0), &mut stats, &mut state);
    let aimed = world.neutrons[1].id;
    assert_eq!(state, PlacementState::VELOCITY(aimed));
    assert_eq!(stats.num_neutrons, 1);
    player_remove_neutron(&mut world, Vector2::new(0, 0), &mut stats, &mut state);
    assert_eq!(world.neutrons.len(), 1);
    assert_eq!(world.neutrons[0].id, aimed);
    assert_eq!(stats.num_neutrons, 2);
    assert_eq!(state, PlacementState::VELOCITY(aimed));
}

#[test]
fn removal_misses_leave_everything() {
    let mut world = World::new();
    let mut stats = level_with(1);
    let mut state = PlacementState::NEUTRON;
    player_place_neutrons(&mut world, Vector2::new(0, 0), &mut stats, &mut state);
    player_remove_neutron(&mut world, Vector2::new(7_500, 0), &mut stats, &mut state);
    assert_eq!(world.neutrons.len(), 1);
    assert_eq!(stats.num_neutrons, 1);
    assert!(matches!(state, PlacementState::VELOCITY(_)));
}

#[test]
fn game_starts_only_when_not_aiming() {
    assert!(player_end_setup(true, &PlacementState::NEUTRON));
    assert!(!player_end_setup(false, &PlacementState::NEUTRON));
    assert!(!player_end_setup(true, &PlacementState::VELOCITY(3)));
}
