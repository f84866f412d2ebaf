use nucleus::{SplitError, Vector2, calculate_split_trajectories};

fn norm_sq(v: &Vector2) -> i128 {
    (v.x as i128) * (v.x as i128) + (v.y as i128) * (v.y as i128)
}

#[test]
fn split_of_one_is_unchanged() {
    let v = Vector2::new(12_345, -6_789);
    assert_eq!(calculate_split_trajectories(v, 1), Ok(vec![v]));
}

#[test]
fn split_counts_and_speeds() {
    let velocities = [
        Vector2::new(100_000, 0),
        Vector2::new(-70_000, 33_000),
        Vector2::new(1_500_000, -2),
        Vector2::new(0, 1),
    ];
    for v in velocities {
        for n in 1..=5 {
            let out = calculate_split_trajectories(v, n).unwrap();
            assert_eq!(out.len(), n as usize);
            let speed = norm_sq(&v);
            for r in &out {
                let s = norm_sq(r);
                assert!(s <= speed);
                let slack = 3 * speed + 4_000_000 * ((v.x.abs() + v.y.abs()) as i128);
                assert!(1_000_000 * (speed - s) <= slack);
            }
        }
    }
}

#[test]
fn split_of_three_fans_at_sixty_degrees() {
    let v = Vector2::new(100_000, 0);
    let out = calculate_split_trajectories(v, 3).unwrap();
    assert_eq!(
        out,
        vec![Vector2::new(50_000, 86_602), Vector2::new(100_000, 0), Vector2::new(50_000, -86_602)]
    );
}

#[test]
fn split_of_two_fans_at_forty_five_degrees() {
    let v = Vector2::new(0, 1_000_000);
    let out = calculate_split_trajectories(v, 2).unwrap();
    assert_eq!(out, vec![Vector2::new(-707_106, 707_106), Vector2::new(707_106, 707_106)]);
}

#[test]
fn split_of_four_and_five() {
    let v = Vector2::new(1_000_000, 0);
    let four = calculate_split_trajectories(v, 4).unwrap();
    assert_eq!(
        four,
        vec![
            Vector2::new(500_000, 866_025),
            Vector2::new(866_025, 500_000),
            Vector2::new(866_025, -500_000),
            Vector2::new(500_000, -866_025),
        ]
    );
    let five = calculate_split_trajectories(v, 5).unwrap();
    assert_eq!(five[2], v);
    assert_eq!(five.len(), 5);
}

#[test]
fn split_rounds_toward_zero() {
    let v = Vector2::new(-100_000, 0);
    let out = calculate_split_trajectories(v, 3).unwrap();
    assert_eq!(out[0], Vector2::new(-50_000, -86_602));
    assert_eq!(out[2], Vector2::new(-50_000, 86_602));
}

#[test]
fn invalid_split_counts_fail() {
    let v = Vector2::new(100_000, 0);
    for n in [0, 6, 7, -1, i32::MIN, i32::MAX] {
        assert_eq!(calculate_split_trajectories(v, n), Err(SplitError::InvalidSplitCount));
    }
}
