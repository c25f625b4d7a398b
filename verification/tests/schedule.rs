use circle_game::schedule::{tick_plan, Step};

#[test]
fn no_bodies_leaves_only_the_player() {
    assert_eq!(tick_plan(0), vec![Step::IntegratePlayer]);
}

#[test]
fn one_body_is_advanced_then_tested_against_the_player() {
    assert_eq!(
        tick_plan(1),
        vec![Step::IntegratePlayer, Step::Integrate(0), Step::CollidePlayer(0)]
    );
}

#[test]
fn two_bodies_end_with_their_one_pair() {
    assert_eq!(
        tick_plan(2),
        vec![
            Step::IntegratePlayer,
            Step::Integrate(0),
            Step::CollidePlayer(0),
            Step::Integrate(1),
            Step::CollidePlayer(1),
            Step::CollidePair(0, 1),
        ]
    );
}

#[test]
fn four_bodies_in_full() {
    assert_eq!(
        tick_plan(4),
        vec![
            Step::IntegratePlayer,
            Step::Integrate(0),
            Step::CollidePlayer(0),
            Step::Integrate(1),
            Step::CollidePlayer(1),
            Step::Integrate(2),
            Step::CollidePlayer(2),
            Step::Integrate(3),
            Step::CollidePlayer(3),
            Step::CollidePair(0, 1),
            Step::CollidePair(0, 2),
            Step::CollidePair(0, 3),
            Step::CollidePair(1, 2),
            Step::CollidePair(1, 3),
            Step::CollidePair(2, 3),
        ]
    );
}

#[test]
fn ten_bodies_take_sixty_six_steps() {
    assert_eq!(tick_plan(10).len(), 1 + 2 * 10 + 45);
}

#[test]
fn step_count_follows_the_formula() {
    for n in 0..40usize {
        assert_eq!(2 * tick_plan(n).len(), 2 + 4 * n + n * n.saturating_sub(1));
    }
}

#[test]
fn every_pair_is_tested_exactly_once() {
    let n = 10;
    let plan = tick_plan(n);
    for i in 0..n {
        for j in (i + 1)..n {
            let hits = plan.iter().filter(|s| **s == Step::CollidePair(i, j)).count();
            assert_eq!(hits, 1, "pair ({}, {})", i, j);
        }
    }
    let pairs = plan.iter().filter(|s| matches!(s, Step::CollidePair(_, _))).count();
    assert_eq!(pairs, 45);
}

#[test]
fn pairs_stand_where_the_rows_put_them() {
    let n = 7;
    let plan = tick_plan(n);
    let mut at = 1 + 2 * n;
    for i in 0..n {
        for j in (i + 1)..n {
            assert_eq!(plan[at], Step::CollidePair(i, j));
            at += 1;
        }
    }
    assert_eq!(at, plan.len());
}

#[test]
fn pairs_follow_the_order_of_the_collection() {
    let plan = tick_plan(9);
    let pairs: Vec<(usize, usize)> = plan
        .iter()
        .filter_map(|s| match s {
            Step::CollidePair(i, j) => Some((*i, *j)),
            _ => None,
        })
        .collect();
    for w in pairs.windows(2) {
        assert!(w[0] < w[1], "{:?} before {:?}", w[0], w[1]);
    }
}

#[test]
fn no_step_names_a_missing_body() {
    let n = 6;
    for step in tick_plan(n) {
        match step {
            Step::IntegratePlayer => {}
            Step::Integrate(i) | Step::CollidePlayer(i) => assert!(i < n),
            Step::CollidePair(i, j) => assert!(i < j && j < n),
        }
    }
}

#[test]
fn a_body_is_advanced_before_anything_hits_it() {
    let n = 8;
    let plan = tick_plan(n);
    assert_eq!(plan[0], Step::IntegratePlayer);
    assert_eq!(plan.iter().filter(|s| **s == Step::IntegratePlayer).count(), 1);
    for i in 0..n {
        let advanced: Vec<usize> =
            (0..plan.len()).filter(|k| plan[*k] == Step::Integrate(i)).collect();
        assert_eq!(advanced, vec![1 + 2 * i]);
        assert_eq!(plan[2 + 2 * i], Step::CollidePlayer(i));
        for (k, step) in plan.iter().enumerate() {
            let touches = match step {
                Step::CollidePlayer(a) => *a == i,
                Step::CollidePair(a, b) => *a == i || *b == i,
                _ => false,
            };
            if touches {
                assert!(k > 1 + 2 * i);
            }
        }
    }
}

#[test]
fn all_bodies_are_advanced_before_the_first_pair() {
    let n = 5;
    let plan = tick_plan(n);
    let first_pair = plan.iter().position(|s| matches!(s, Step::CollidePair(_, _))).unwrap();
    assert_eq!(first_pair, 1 + 2 * n);
}
