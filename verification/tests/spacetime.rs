use gravity_sim::spacetime::{SpacetimeUniform, MAX_BODIES};

#[test]
fn new_packs_bodies_in_order() {
    let bodies = vec![[0.0f32, 1.0, 0.0, 75.0], [3.0, 1.0, 3.0, 10.0]];
    let u = SpacetimeUniform::new(&bodies, [0.0; 4]);
    assert_eq!(u.count, 2);
    assert_eq!(u.bodies[0], [0.0, 1.0, 0.0, 75.0]);
    assert_eq!(u.bodies[1], [3.0, 1.0, 3.0, 10.0]);
    assert_eq!(u.bodies[2], [0.0; 4]);
    assert_eq!(u.bodies[3], [0.0; 4]);
}

#[test]
fn update_all_forgets_the_old_slots() {
    let mut u = SpacetimeUniform::new(&vec![1u32, 2, 3, 4], 0);
    assert_eq!(u.count, MAX_BODIES as u32);
    assert_eq!(u.bodies, [1, 2, 3, 4]);
    u.update_all(&vec![7], 0);
    assert_eq!(u.count, 1);
    assert_eq!(u.bodies, [7, 0, 0, 0]);
    let fresh = SpacetimeUniform::new(&vec![7], 0);
    assert_eq!(u.bodies, fresh.bodies);
    assert_eq!(u.count, fresh.count);
}

#[test]
fn no_bodies_leaves_every_slot_blank() {
    let u = SpacetimeUniform::new(&Vec::<i64>::new(), -1);
    assert_eq!(u.count, 0);
    assert_eq!(u.bodies, [-1; 4]);
}
