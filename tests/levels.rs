use nucleus::{
    GameStats, LevelStats, Vector2, World, calculate_grade, generate_atom_sphere, get_level, setup_level,
};

#[test]
fn first_level_layout() {
    let level = get_level(0).unwrap();
    assert_eq!(
        level.atoms,
        vec![
            (2, Vector2::new(0, 0)),
            (3, Vector2::new(-100_000, 100_000)),
            (3, Vector2::new(100_000, 100_000)),
        ]
    );
    assert_eq!(level.level_stats, LevelStats { num_neutrons: 1, s_score: 96 });
}

#[test]
fn level_sizes_and_scores() {
    let expected = [(1, 6usize, 192u64), (2, 14, 448), (3, 18, 544)];
    for (n, atoms, s_score) in expected {
        let level = get_level(n).unwrap();
        assert_eq!(level.atoms.len(), atoms);
        assert_eq!(level.level_stats.s_score, s_score);
        assert_eq!(level.level_stats.num_neutrons, 1);
        assert_eq!(level.atoms[0].1, Vector2::new(0, 0));
        assert_eq!(level.atoms[0].0, 5);
    }
}

#[test]
fn disc_level() {
    let level = get_level(4).unwrap();
    assert_eq!(level.atoms.len(), 35_727);
    assert_eq!(level.level_stats.s_score, 1_120_000);
    assert!(level.atoms.iter().all(|(n, _)| *n == 2));
    assert_eq!(level.atoms[0].1.x, -7_925_000);
}

#[test]
fn unknown_levels() {
    assert!(get_level(5).is_none());
    assert!(get_level(-1).is_none());
    assert!(get_level(i32::MAX).is_none());
}

#[test]
fn small_disc_of_atoms() {
    let atoms = generate_atom_sphere(100, 75, 2);
    assert_eq!(
        atoms,
        vec![
            (2, Vector2::new(-25_000, -25_000)),
            (2, Vector2::new(-25_000, 50_000)),
            (2, Vector2::new(50_000, -25_000)),
            (2, Vector2::new(50_000, 50_000)),
        ]
    );
    assert!(generate_atom_sphere(0, 1, 2).is_empty());
}

#[test]
fn grade_marks() {
    let stats = LevelStats { num_neutrons: 1, s_score: 96 };
    let cases = [
        (200, "S"),
        (96, "S"),
        (95, "A"),
        (80, "A"),
        (79, "B"),
        (72, "B"),
        (71, "C"),
        (68, "C"),
        (67, "D"),
        (64, "D"),
        (63, "F"),
        (0, "F"),
    ];
    for (score, letter) in cases {
        assert_eq!(calculate_grade(score, &stats), letter);
    }
}

#[test]
fn grade_at_threshold_and_zero() {
    for s_score in [1u64, 32, 96, 1_120_000, u64::MAX] {
        let stats = LevelStats { num_neutrons: 1, s_score };
        assert_eq!(calculate_grade(s_score, &stats), "S");
        assert_eq!(calculate_grade(0, &stats), "F");
    }
}

#[test]
fn default_game_stats() {
    let stats = GameStats::default();
    assert_eq!(stats, GameStats { score: 0, level: 0, simulation_speed: 500 });
}

#[test]
fn setup_loads_the_chosen_level() {
    let mut world = World::new();
    let mut stats = GameStats { score: 640, level: 1, simulation_speed: 500 };
    let level_stats = setup_level(&mut world, &mut stats).unwrap();
    assert_eq!(level_stats, LevelStats { num_neutrons: 1, s_score: 192 });
    assert_eq!(stats.score, 0);
    assert_eq!(world.atoms.len(), 6);
    assert_eq!(world.atoms[3].position, Vector2::new(-315_000, 200_000));
    assert_eq!(world.atoms[3].atom.num_neutrons, 2);
    assert_eq!(world.atoms[3].collider.radius, 22_500);
    assert_eq!(world.next_id, 6);
}

#[test]
fn setup_of_an_unknown_level_changes_nothing() {
    let mut world = World::new();
    let mut stats = GameStats { score: 640, level: 9, simulation_speed: 500 };
    assert!(setup_level(&mut world, &mut stats).is_none());
    assert_eq!(stats.score, 640);
    assert!(world.atoms.is_empty());
}
