use gravity_sim::nbody::interaction_pairs;

#[test]
fn pairs_of_three_bodies() {
    assert_eq!(
        interaction_pairs(3),
        vec![(0, 1), (0, 2), (1, 0), (1, 2), (2, 0), (2, 1)]
    );
}

#[test]
fn pairs_of_two_bodies() {
    assert_eq!(interaction_pairs(2), vec![(0, 1), (1, 0)]);
}

#[test]
fn lone_body_feels_nothing() {
    assert!(interaction_pairs(0).is_empty());
    assert!(interaction_pairs(1).is_empty());
}

#[test]
fn every_distinct_pair_once_at_its_position() {
    let n = 7;
    let pairs = interaction_pairs(n);
    assert_eq!(pairs.len(), n * (n - 1));
    for i in 0..n {
        for j in 0..n {
            let hits = pairs.iter().filter(|&&p| p == (i, j)).count();
            assert_eq!(hits, if i == j { 0 } else { 1 });
            if i != j {
                let pos = i * (n - 1) + if j < i { j } else { j - 1 };
                assert_eq!(pairs[pos], (i, j));
            }
        }
    }
}
