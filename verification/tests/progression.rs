use hacksim::state::GameState;

#[test]
fn test_game_state() {
    let mut state = GameState::new();
    assert_eq!(state.level(), 1);
    assert_eq!(state.experience(), 0);
    assert_eq!(state.money(), 1000);
    assert_eq!(state.detection(), 0);
    assert_eq!(state.stealth_mode(), false);
    state.add_experience(1500);
    assert_eq!(state.level(), 2);
    assert_eq!(state.experience(), 0);
    state.add_money(500);
    assert_eq!(state.money(), 1500);
    state.set_detection(110);
    assert_eq!(state.detection(), 100);
    state.toggle_stealth_mode();
    assert!(state.stealth_mode());
    state.toggle_stealth_mode();
    assert!(!state.stealth_mode());
}

#[test]
fn test_stealth_mode() {
    let mut state = GameState::new();
    state.toggle_stealth_mode();
    assert!(state.stealth_mode());
    state.toggle_stealth_mode();
    assert!(!state.stealth_mode());
}

#[test]
fn set_detection_clamps_to_100() {
    let mut state = GameState::new();
    state.set_detection(0);
    assert_eq!(state.detection(), 0);
    state.set_detection(100);
    assert_eq!(state.detection(), 100);
    state.set_detection(101);
    assert_eq!(state.detection(), 100);
    state.set_detection(42);
    assert_eq!(state.detection(), 42);
}

#[test]
fn add_experience_below_threshold_keeps_level() {
    let mut state = GameState::new();
    let leveled = state.add_experience(999);
    assert!(!leveled);
    assert_eq!(state.level(), 1);
    assert_eq!(state.experience(), 999);
}

#[test]
fn add_experience_at_threshold_levels_up_once() {
    let mut state = GameState::new();
    let leveled = state.add_experience(1000);
    assert!(leveled);
    assert_eq!(state.level(), 2);
    assert_eq!(state.experience(), 0);
}

#[test]
fn add_experience_carries_no_partial_credit() {
    let mut state = GameState::new();
    state.add_experience(2500);
    assert_eq!(state.level(), 2);
    assert_eq!(state.experience(), 0);
    state.add_experience(600);
    state.add_experience(400);
    assert_eq!(state.level(), 3);
    assert_eq!(state.experience(), 0);
}

#[test]
fn add_money_accumulates() {
    let mut state = GameState::new();
    state.add_money(0);
    assert_eq!(state.money(), 1000);
    state.add_money(250);
    assert_eq!(state.money(), 1250);
}
