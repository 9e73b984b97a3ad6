use photomosaic::breeding::{breeding_plan, Offspring};

#[test]
fn survivors_add_children_then_themselves() {
    let order = vec![4, 2, 0, 1, 3];
    let plan = breeding_plan(&order, 2, 2);
    assert_eq!(
        plan,
        vec![
            Offspring::Child(4),
            Offspring::Child(4),
            Offspring::Parent(4),
            Offspring::Child(2),
            Offspring::Child(2),
            Offspring::Parent(2),
        ]
    );
}

#[test]
fn plan_fills_the_generation() {
    let order: Vec<usize> = (0..500).rev().collect();
    let plan = breeding_plan(&order, 5, 99);
    assert_eq!(plan.len(), 500);
    let parents: Vec<usize> = plan
        .iter()
        .filter_map(|o| match o {
            Offspring::Parent(i) => Some(*i),
            Offspring::Child(_) => None,
        })
        .collect();
    assert_eq!(parents, vec![499, 498, 497, 496, 495]);
    assert_eq!(plan[99], Offspring::Parent(499));
    assert_eq!(plan[100], Offspring::Child(498));
}

#[test]
fn no_children_keeps_only_the_survivors() {
    let plan = breeding_plan(&vec![7, 8, 9], 3, 0);
    assert_eq!(plan, vec![Offspring::Parent(7), Offspring::Parent(8), Offspring::Parent(9)]);
    assert!(breeding_plan(&vec![7, 8, 9], 0, 3).is_empty());
}
