use creatura::layer::{ground_collision_groups, part_collision_groups, part_layer, Layer};

#[test]
fn default_layer_is_part() {
    assert_eq!(Layer::default(), Layer::Part);
}

#[test]
fn root_is_even_and_children_alternate() {
    assert_eq!(part_layer(0), Layer::PartEven);
    assert_eq!(part_layer(1), Layer::PartOdd);
    assert_eq!(part_layer(2), Layer::PartEven);
    assert_eq!(part_layer(7), Layer::PartOdd);
    assert_eq!(part_layer(usize::MAX), Layer::PartOdd);
}

#[test]
fn part_groups_by_parity() {
    let even = part_collision_groups(4);
    assert_eq!(even.memberships, vec![Layer::PartEven]);
    assert_eq!(even.filters, vec![Layer::Ground, Layer::PartEven]);
    let odd = part_collision_groups(3);
    assert_eq!(odd.memberships, vec![Layer::PartOdd]);
    assert_eq!(odd.filters, vec![Layer::Ground, Layer::PartOdd]);
}

#[test]
fn ground_groups_accept_all_parts() {
    let ground = ground_collision_groups();
    assert_eq!(ground.memberships, vec![Layer::Ground]);
    assert_eq!(ground.filters, vec![Layer::Part, Layer::PartEven, Layer::PartOdd]);
}

#[test]
fn jointed_parts_do_not_accept_each_other() {
    for depth in 0..10usize {
        let a = part_collision_groups(depth);
        let b = part_collision_groups(depth + 1);
        assert!(a.filters.iter().all(|l| !b.memberships.contains(l)));
        assert!(b.filters.iter().all(|l| !a.memberships.contains(l)));
        let c = part_collision_groups(depth + 2);
        assert!(a.filters.iter().any(|l| c.memberships.contains(l)));
    }
}
