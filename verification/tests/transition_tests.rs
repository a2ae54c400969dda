use musicpi_display::geom::Vec2;
use musicpi_display::transition::{advance_plan, approach, create_transition};

fn v(x: i32, y: i32) -> Vec2 {
    Vec2::new(x, y)
}

#[test]
fn mod_create_transition_equal_size() {
    let origin = vec![v(1, 4), v(2, 4), v(3, 4)];
    let target = vec![v(1, 10), v(2, 10), v(3, 10)];
    let result = create_transition(&origin, &target);
    assert_eq!(
        vec![(v(1, 4), v(1, 10)), (v(2, 4), v(2, 10)), (v(3, 4), v(3, 10))],
        result
    )
}

#[test]
fn mod_create_transition_smaller_size() {
    let origin = vec![v(1, 4), v(2, 4)];
    let target = vec![v(1, 10), v(2, 10), v(3, 10)];
    let result = create_transition(&origin, &target);
    assert_eq!(
        vec![(v(1, 4), v(1, 10)), (v(2, 4), v(2, 10)), (v(2, 4), v(3, 10))],
        result
    )
}

#[test]
fn mod_create_transition_bigger_size() {
    let origin = vec![v(1, 4), v(2, 4), v(3, 4)];
    let target = vec![v(1, 10), v(2, 10)];
    let result = create_transition(&origin, &target);
    assert_eq!(
        vec![(v(1, 4), v(1, 10)), (v(2, 4), v(2, 10)), (v(3, 4), v(2, 10))],
        result
    )
}

#[test]
fn mod_approach() {
    assert_eq!(6, approach(5, 9));
    assert_eq!(6, approach(7, 3));
    assert_eq!(6, approach(6, 6));
}

#[test]
fn tests_create_transition_equal_size() {
    let origin = vec![v(1, 4), v(2, 4), v(3, 4)];
    let target = vec![v(1, 10), v(2, 10), v(3, 10)];
    let result = create_transition(&origin, &target);
    assert_eq!(
        vec![(v(1, 4), v(1, 10)), (v(2, 4), v(2, 10)), (v(3, 4), v(3, 10))],
        result
    )
}

#[test]
fn tests_create_transition_smaller_size() {
    let origin = vec![v(1, 4), v(2, 4)];
    let target = vec![v(1, 10), v(2, 10), v(3, 10)];
    let result = create_transition(&origin, &target);
    assert_eq!(
        vec![(v(1, 4), v(1, 10)), (v(2, 4), v(2, 10)), (v(2, 4), v(3, 10))],
        result
    )
}

#[test]
fn tests_create_transition_bigger_size() {
    let origin = vec![v(1, 4), v(2, 4), v(3, 4)];
    let target = vec![v(1, 10), v(2, 10)];
    let result = create_transition(&origin, &target);
    assert_eq!(
        vec![(v(1, 4), v(1, 10)), (v(2, 4), v(2, 10)), (v(3, 4), v(2, 10))],
        result
    )
}

#[test]
fn tests_approach() {
    assert_eq!(6, approach(5, 9));
    assert_eq!(6, approach(7, 3));
    assert_eq!(6, approach(6, 6));
}

#[test]
fn empty_origin_pairs_targets_with_themselves() {
    let origin: Vec<Vec2> = vec![];
    let target = vec![v(3, 3), v(4, 4)];
    let result = create_transition(&origin, &target);
    assert_eq!(vec![(v(3, 3), v(3, 3)), (v(4, 4), v(4, 4))], result);
}

#[test]
fn empty_target_pairs_origins_with_sentinel() {
    let origin = vec![v(3, 3)];
    let target: Vec<Vec2> = vec![];
    let result = create_transition(&origin, &target);
    assert_eq!(vec![(v(3, 3), v(-1, -1))], result);
}

#[test]
fn nearest_tie_breaks_to_first_origin() {
    // Both origins are at distance 1 from the target; the first one wins.
    let origin = vec![v(0, 5), v(2, 5)];
    let target = vec![v(1, 5)];
    let result = create_transition(&origin, &target);
    assert_eq!(result[0], (v(0, 5), v(1, 5)));
}

#[test]
fn plan_converges_in_farthest_manhattan_distance_ticks() {
    // One pair 5 cells of travel away (3 across, 2 down), one already settled.
    let mut plan = vec![(v(0, 0), v(3, 2)), (v(7, 7), v(7, 7))];
    let mut ticks = 0u64;
    loop {
        let (next, changed) = advance_plan(&plan, ticks % 2 == 1);
        if !changed {
            break;
        }
        plan = next;
        ticks += 1;
        assert!(ticks <= 5, "the plan should settle within 5 ticks");
    }
    assert_eq!(5, ticks);
    assert_eq!(vec![(v(3, 2), v(3, 2)), (v(7, 7), v(7, 7))], plan);
    // A converged plan is a fixed point: one more tick moves nothing.
    let (again, changed) = advance_plan(&plan, false);
    assert!(!changed);
    assert_eq!(plan, again);
}

#[test]
fn one_axis_moves_per_tick_by_parity() {
    let plan = vec![(v(0, 0), v(2, 2))];
    let (even, _) = advance_plan(&plan, false);
    assert_eq!(vec![(v(1, 0), v(2, 2))], even);
    let (odd, _) = advance_plan(&plan, true);
    assert_eq!(vec![(v(0, 1), v(2, 2))], odd);
}
