use smart_garland::light::{LightState, StartUpBehavior};

#[test]
fn new_light_is_off_with_no_power_on_default() {
    let state = LightState::new();
    assert!(!state.is_on());
    assert_eq!(state.start_up_behavior(), None);
}

#[test]
fn set_on_is_seen_by_the_next_read() {
    let mut state = LightState::new();
    state.set_on(true);
    assert!(state.is_on());
    state.set_on(false);
    assert!(!state.is_on());
}

#[test]
fn last_write_wins() {
    let mut state = LightState::new();
    state.set_on(true);
    state.set_on(false);
    state.set_on(true);
    assert!(state.is_on());
    state.set_on(true);
    assert!(state.is_on());
}

#[test]
fn power_on_default_can_be_set_and_cleared() {
    let mut state = LightState::new();
    state.set_start_up_behavior(Some(StartUpBehavior::On));
    assert_eq!(state.start_up_behavior(), Some(StartUpBehavior::On));
    state.set_start_up_behavior(Some(StartUpBehavior::Off));
    assert_eq!(state.start_up_behavior(), Some(StartUpBehavior::Off));
    state.set_start_up_behavior(Some(StartUpBehavior::Toggle));
    assert_eq!(state.start_up_behavior(), Some(StartUpBehavior::Toggle));
    state.set_start_up_behavior(None);
    assert_eq!(state.start_up_behavior(), None);
}

#[test]
fn the_two_attributes_do_not_disturb_each_other() {
    let mut state = LightState::new();
    state.set_on(true);
    state.set_start_up_behavior(Some(StartUpBehavior::Off));
    assert!(state.is_on());
    state.set_on(false);
    assert_eq!(state.start_up_behavior(), Some(StartUpBehavior::Off));
    state.set_start_up_behavior(Some(StartUpBehavior::On));
    assert!(!state.is_on());
}
