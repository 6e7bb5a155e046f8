use point_sim::config::{
    bool_setting, point_count_setting, ConfigSearch, SearchAction, SettingError, SettingValue,
};
use point_sim::ping_pong::{slice_binding_plan, swap_all, BufferCopy, FrontBack};

fn run_search(found: &[bool]) -> (SearchAction, Vec<usize>) {
    let (mut search, mut action) = ConfigSearch::new(found.len());
    let mut checked = Vec::new();
    while let SearchAction::Check(i) = action {
        checked.push(i);
        action = search.report(found[i]);
    }
    (action, checked)
}

#[test]
fn search_loads_from_first_directory_with_the_file() {
    assert_eq!(run_search(&[true, true]), (SearchAction::Load(0), vec![0]));
    assert_eq!(run_search(&[false, true]), (SearchAction::Load(1), vec![0, 1]));
}

#[test]
fn search_falls_back_to_defaults() {
    assert_eq!(run_search(&[false, false]), (SearchAction::UseDefaults, vec![0, 1]));
    assert_eq!(run_search(&[]), (SearchAction::UseDefaults, vec![]));
}

#[test]
fn point_count_must_be_a_non_negative_integer() {
    let v = |n: i64| Some(SettingValue::Integer(n));
    assert_eq!(point_count_setting(7, None), Ok(7));
    assert_eq!(point_count_setting(7, v(1_000_000)), Ok(1_000_000));
    assert_eq!(point_count_setting(7, v(0)), Ok(0));
    assert_eq!(point_count_setting(7, v(-1)), Err(SettingError::Negative));
    assert_eq!(point_count_setting(7, v(i64::MAX)), Ok(i64::MAX as u64));
    assert_eq!(point_count_setting(7, v(i64::MIN)), Err(SettingError::Negative));
    assert_eq!(point_count_setting(7, Some(SettingValue::Bool(true))), Err(SettingError::WrongType));
    assert_eq!(point_count_setting(7, Some(SettingValue::Other)), Err(SettingError::WrongType));
}

#[test]
fn bool_settings_keep_default_or_take_the_file_value() {
    assert_eq!(bool_setting(true, None), Ok(true));
    assert_eq!(bool_setting(false, None), Ok(false));
    assert_eq!(bool_setting(true, Some(SettingValue::Bool(false))), Ok(false));
    assert_eq!(bool_setting(false, Some(SettingValue::Bool(true))), Ok(true));
    assert_eq!(bool_setting(true, Some(SettingValue::Integer(1))), Err(SettingError::WrongType));
    assert_eq!(bool_setting(true, Some(SettingValue::Other)), Err(SettingError::WrongType));
}

#[test]
fn swap_all_trades_every_pair_and_twice_restores() {
    let mut pairs = vec![FrontBack::new(1, 2), FrontBack::new(3, 4), FrontBack::new(5, 6)];
    swap_all(&mut pairs);
    let fronts: Vec<i32> = pairs.iter().map(|p| p.front).collect();
    let backs: Vec<i32> = pairs.iter().map(|p| p.back).collect();
    assert_eq!(fronts, vec![2, 4, 6]);
    assert_eq!(backs, vec![1, 3, 5]);
    swap_all(&mut pairs);
    let fronts: Vec<i32> = pairs.iter().map(|p| p.front).collect();
    assert_eq!(fronts, vec![1, 3, 5]);
    let mut empty: Vec<FrontBack<u8>> = Vec::new();
    swap_all(&mut empty);
    assert!(empty.is_empty());
}

#[test]
fn front_back_alternate() {
    let mut pair = FrontBack::new("a", "b");
    assert_eq!(*pair.current(), "a");
    pair.swap_buffers();
    assert_eq!(*pair.current(), "b");
    assert_eq!(pair.back, "a");
    pair.swap_buffers();
    assert_eq!(*pair.current(), "a");
    assert_eq!(pair.back, "b");
}

#[test]
fn slice_bindings_alternate_between_copies() {
    let mut plan = slice_binding_plan();
    // the first update reads the initial positions and draws from them
    assert_eq!(plan.front.simulation_reads, BufferCopy::Second);
    assert_eq!(plan.front.simulation_writes, BufferCopy::First);
    assert_eq!(plan.front.geometry_reads, BufferCopy::Second);
    for _ in 0..4 {
        let written = plan.front.simulation_writes;
        plan.swap_buffers();
        assert_eq!(plan.front.simulation_reads, written);
        assert_eq!(plan.front.geometry_reads, written);
        assert_ne!(plan.front.simulation_writes, written);
    }
}
