use creatura::builder::BuildStack;

#[test]
fn new_stack_is_empty() {
    let stack = BuildStack::new();
    assert_eq!(stack.visited(), 0);
    assert_eq!(stack.len(), 0);
}

#[test]
fn root_has_no_parent() {
    let mut stack = BuildStack::new();
    assert_eq!(stack.enter(0), None);
    assert_eq!(stack.visited(), 1);
    assert_eq!(stack.len(), 1);
}

#[test]
fn parents_follow_the_walk() {
    // A root with a chain of two below it, then a second child of the root,
    // then a child of that second child.
    let mut stack = BuildStack::new();
    assert_eq!(stack.enter(0), None);
    assert_eq!(stack.enter(1), Some(0));
    assert_eq!(stack.enter(2), Some(1));
    assert_eq!(stack.enter(1), Some(0));
    assert_eq!(stack.len(), 2);
    assert_eq!(stack.enter(2), Some(3));
    assert_eq!(stack.visited(), 5);
    assert_eq!(stack.len(), 3);
}

#[test]
fn parent_is_latest_visit_one_level_up() {
    let depths = [0usize, 1, 2, 3, 2, 3, 1, 2, 3, 3, 1];
    let mut stack = BuildStack::new();
    for (k, &d) in depths.iter().enumerate() {
        let parent = stack.enter(d);
        if d == 0 {
            assert_eq!(parent, None);
        } else {
            let j = parent.unwrap();
            assert!(j < k);
            assert_eq!(depths[j] + 1, d);
            assert!(depths[j + 1..k].iter().all(|&m| m > depths[j]));
        }
    }
}

#[test]
fn second_body_starts_at_depth_zero() {
    let mut stack = BuildStack::new();
    assert_eq!(stack.enter(0), None);
    assert_eq!(stack.enter(1), Some(0));
    assert_eq!(stack.enter(0), None);
    assert_eq!(stack.enter(1), Some(2));
}
