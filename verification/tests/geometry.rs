use neutron_sim::geometry::components::{
    parts_cache_needs_update, range_defining_parts, relevant_part_indices, select_highest_order_part,
    PartCandidate,
};

fn part(is_inside: bool, order: i32) -> PartCandidate {
    PartCandidate { is_inside, order }
}

#[test]
fn highest_order_part_that_contains_the_neutron_wins() {
    let parts = vec![part(true, 1), part(false, 9), part(true, 4), part(true, 2)];
    assert_eq!(select_highest_order_part(&parts), Some(2));
}

#[test]
fn first_part_wins_a_tie() {
    let parts = vec![part(true, 3), part(true, 5), part(true, 5)];
    assert_eq!(select_highest_order_part(&parts), Some(1));
}

#[test]
fn no_part_when_neutron_is_outside_all() {
    assert_eq!(select_highest_order_part(&vec![part(false, 1), part(false, 2)]), None);
    assert_eq!(select_highest_order_part(&vec![]), None);
}

#[test]
fn negative_orders_can_hold_but_lowest_order_never_does() {
    assert_eq!(select_highest_order_part(&vec![part(true, -5)]), Some(0));
    assert_eq!(select_highest_order_part(&vec![part(true, i32::MIN)]), None);
    assert_eq!(select_highest_order_part(&vec![part(true, i32::MIN), part(true, -1)]), Some(1));
}

#[test]
fn relevant_parts_are_the_flagged_in_order() {
    assert_eq!(relevant_part_indices(&vec![true, false, false, true, true]), vec![0, 3, 4]);
    assert_eq!(relevant_part_indices(&vec![false, false]), Vec::<usize>::new());
    assert_eq!(relevant_part_indices(&vec![]), Vec::<usize>::new());
}

#[test]
fn background_parts_do_not_define_the_range() {
    assert_eq!(range_defining_parts(&vec![0, -1, 3, -7, -0, i32::MIN, i32::MAX]), vec![0, 2, 4, 6]);
    assert_eq!(range_defining_parts(&vec![-1, -2]), Vec::<usize>::new());
}

#[test]
fn parts_cache_update_decision() {
    assert!(parts_cache_needs_update(true, true));
    assert!(parts_cache_needs_update(false, false));
    assert!(parts_cache_needs_update(true, false));
    assert!(!parts_cache_needs_update(false, true));
}
