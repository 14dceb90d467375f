use fractal_show::rotation::{next_index, plan_switch, switch_materials};

#[test]
fn first_cycle_hides_all_but_first() {
    let plan = plan_switch(&vec![], &vec![10, 11, 12, 13, 14, 15], Some(0));
    assert_eq!(plan.pick, Some(0));
    assert_eq!(plan.enable, None);
    assert_eq!(plan.disable, vec![11, 12, 13, 14, 15]);
}

#[test]
fn nothing_at_all() {
    let plan = plan_switch(&vec![], &vec![], Some(0));
    assert_eq!(plan.enable, None);
    assert!(plan.disable.is_empty());
}

#[test]
fn later_cycle_shows_drawn_hidden_one() {
    let plan = plan_switch(&vec![20, 21, 22, 23, 24], &vec![10], Some(2));
    assert_eq!(plan.pick, Some(2));
    assert_eq!(plan.enable, Some(22));
    assert_eq!(plan.disable, vec![10]);
}

#[test]
fn later_cycle_position_zero() {
    let plan = plan_switch(&vec![20, 21], &vec![10, 11], Some(0));
    assert_eq!(plan.enable, Some(20));
    assert_eq!(plan.disable, vec![10, 11]);
}

#[test]
fn out_of_range_position_falls_back_to_first_hidden() {
    let plan = plan_switch(&vec![20, 21, 22], &vec![10], Some(7));
    assert_eq!(plan.enable, Some(20));
    assert_eq!(plan.disable, vec![10]);
}

#[test]
fn next_index_without_hidden_is_zero() {
    let mut rng = rand::rng();
    assert_eq!(next_index(0, &mut rng), Some(0));
}

#[test]
fn next_index_with_one_hidden_is_none() {
    let mut rng = rand::rng();
    assert_eq!(next_index(1, &mut rng), None);
}

#[test]
fn next_index_with_two_hidden_is_zero() {
    let mut rng = rand::rng();
    assert_eq!(next_index(2, &mut rng), Some(0));
}

#[test]
fn next_index_never_draws_the_last_hidden() {
    let mut rng = rand::rng();
    let mut seen = [false; 4];
    for _ in 0..2000 {
        let i = next_index(5, &mut rng).unwrap();
        assert!(i < 4);
        seen[i] = true;
    }
    assert!(seen.iter().all(|s| *s));
}

#[test]
fn switch_shows_exactly_one() {
    let hidden = vec![20, 21, 22, 23, 24];
    let shown = vec![10];
    for _ in 0..200 {
        let plan = switch_materials(&hidden, &shown);
        let i = plan.pick.unwrap();
        assert!(i < 4);
        assert_eq!(plan.enable, Some(hidden[i]));
        assert_eq!(plan.disable, vec![10]);
        let remaining = shown.len() - plan.disable.len() + plan.enable.iter().count();
        assert_eq!(remaining, 1);
    }
}

#[test]
fn switch_on_first_cycle() {
    let plan = switch_materials(&vec![], &vec![1, 2, 3]);
    assert_eq!(plan.pick, Some(0));
    assert_eq!(plan.enable, None);
    assert_eq!(plan.disable, vec![2, 3]);
}

#[test]
fn switch_conserves_fractals() {
    let hidden = vec![5, 6, 7];
    let shown = vec![1, 2];
    let plan = switch_materials(&hidden, &shown);
    let mut after_shown: Vec<u64> = shown.iter().copied().filter(|x| !plan.disable.contains(x)).collect();
    after_shown.extend(plan.enable);
    let mut after_hidden: Vec<u64> = hidden.iter().copied().filter(|x| Some(*x) != plan.enable).collect();
    after_hidden.extend(plan.disable.iter().copied());
    let mut all: Vec<u64> = after_shown.iter().chain(after_hidden.iter()).copied().collect();
    all.sort();
    assert_eq!(all, vec![1, 2, 5, 6, 7]);
    assert_eq!(after_shown.len(), 1);
}
