use violet::render::{computed_visibility, draw_order, tree_visibility};
use violet::tweens::Tweens;

#[test]
fn stopping_tweens_keeps_the_others_in_order() {
    let mut t = Tweens::new();
    t.add_tween(1, 'a');
    t.add_tween(2, 'b');
    t.add_tween(1, 'c');
    t.add_tween(3, 'd');
    t.stop_tweens(1);
    assert_eq!(t.active, vec![(2, 'b'), (3, 'd')]);
    t.stop_tweens(7);
    assert_eq!(t.active, vec![(2, 'b'), (3, 'd')]);
}

#[test]
fn finished_tweens_are_dropped() {
    let mut t = Tweens::new();
    t.add_tween(1, 'a');
    t.add_tween(2, 'b');
    t.add_tween(3, 'c');
    t.retain_running(&vec![true, false, true]);
    assert_eq!(t.active, vec![(1, 'a'), (3, 'c')]);
    t.retain_running(&vec![false, false]);
    assert!(t.active.is_empty());
}

#[test]
fn hidden_parents_hide_their_children() {
    let children = vec![vec![1, 2], vec![3], vec![], vec![], vec![]];
    let order = draw_order(&vec![0], &children);
    assert_eq!(order, vec![0, 1, 2, 3]);
    let visible = vec![true, false, true, true, true];
    let current = vec![true, true, true, true, false];
    assert_eq!(
        computed_visibility(0, &order, &children, &visible, &current),
        vec![true, false, true, false, false]
    );
    let all_hidden = vec![false, true, true, true, true];
    assert_eq!(
        computed_visibility(0, &order, &children, &all_hidden, &current),
        vec![false, false, false, false, false]
    );
}

#[test]
fn tree_visibility_walks_the_whole_tree() {
    use_tree_visibility();
}

fn use_tree_visibility() {
    let children = vec![vec![2], vec![], vec![3, 4], vec![], vec![]];
    let visible = vec![true, true, false, true, true];
    let current = vec![false, true, false, false, false];
    let (order, out) = tree_visibility(0, &children, &visible, &current);
    assert_eq!(order, vec![0, 2, 3, 4]);
    assert_eq!(out, vec![true, true, false, false, false]);
}
