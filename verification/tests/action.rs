use npuzzle::npuzzle::Action;

#[test]
fn up_moves_one_row_up() {
    assert_eq!(Action::Up.impact_x(), 0);
    assert_eq!(Action::Up.impact_y(), -1);
}

#[test]
fn down_moves_one_row_down() {
    assert_eq!(Action::Down.impact_x(), 0);
    assert_eq!(Action::Down.impact_y(), 1);
}

#[test]
fn left_moves_one_column_left() {
    assert_eq!(Action::Left.impact_x(), -1);
    assert_eq!(Action::Left.impact_y(), 0);
}

#[test]
fn right_moves_one_column_right() {
    assert_eq!(Action::Right.impact_x(), 1);
    assert_eq!(Action::Right.impact_y(), 0);
}

#[test]
fn no_action_moves_nothing() {
    assert_eq!(Action::No.impact_x(), 0);
    assert_eq!(Action::No.impact_y(), 0);
}

#[test]
fn impact_is_stable_across_calls() {
    let all = [Action::Up, Action::Down, Action::Left, Action::Right, Action::No];
    for action in all.iter() {
        assert_eq!(action.impact_x(), action.impact_x());
        assert_eq!(action.impact_y(), action.impact_y());
        let copy = action.clone();
        assert_eq!(copy.impact_x(), action.impact_x());
        assert_eq!(copy.impact_y(), action.impact_y());
    }
}

#[test]
fn displacements_are_pairwise_distinct() {
    let all = [Action::Up, Action::Down, Action::Left, Action::Right, Action::No];
    for (i, a) in all.iter().enumerate() {
        for (j, b) in all.iter().enumerate() {
            let same = a.impact_x() == b.impact_x() && a.impact_y() == b.impact_y();
            assert_eq!(same, i == j);
        }
    }
}

#[test]
fn a_step_stays_on_a_grid_of_side_three_only_from_inside() {
    let size: i32 = 3;
    let x: i32 = 2;
    let y: i32 = 0;
    let inside = |a: Action| {
        let nx = x + a.impact_x();
        let ny = y + a.impact_y();
        0 <= nx && nx < size && 0 <= ny && ny < size
    };
    assert!(!inside(Action::Up));
    assert!(inside(Action::Down));
    assert!(inside(Action::Left));
    assert!(!inside(Action::Right));
    assert!(inside(Action::No));
}
