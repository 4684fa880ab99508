use backend_supervisor::shutdown::{ShutdownState, ShutdownStep, Trigger};

#[test]
fn first_trigger_runs_the_shutdown() {
    let mut state = ShutdownState::new();
    assert_eq!(state, ShutdownState::Idle);
    let steps = state.on_trigger(Trigger::ExitRequested, None);
    assert_eq!(
        steps,
        vec![
            ShutdownStep::DeferDefault(Trigger::ExitRequested),
            ShutdownStep::StopWorker,
            ShutdownStep::ExitHost { code: 0 },
        ]
    );
    assert_eq!(state, ShutdownState::Closing);
}

#[test]
fn grace_delay_lies_between_stop_and_exit() {
    let mut state = ShutdownState::new();
    assert_eq!(
        state.on_trigger(Trigger::WindowClose, Some(250)),
        vec![
            ShutdownStep::DeferDefault(Trigger::WindowClose),
            ShutdownStep::StopWorker,
            ShutdownStep::Wait { millis: 250 },
            ShutdownStep::ExitHost { code: 0 },
        ]
    );
}

#[test]
fn later_triggers_do_nothing() {
    let mut state = ShutdownState::new();
    let mut stops = 0;
    for trigger in [
        Trigger::Interrupt,
        Trigger::WindowClose,
        Trigger::ExitRequested,
        Trigger::Interrupt,
        Trigger::ExitRequested,
    ] {
        let steps = state.on_trigger(trigger, Some(100));
        stops += steps.iter().filter(|s| **s == ShutdownStep::StopWorker).count();
        assert_eq!(state, ShutdownState::Closing);
    }
    assert_eq!(stops, 1);
    assert!(state.on_trigger(Trigger::ExitRequested, None).is_empty());
}

#[test]
fn test_and_set_is_won_once() {
    let mut state = ShutdownState::new();
    assert!(state.test_and_set());
    assert!(!state.test_and_set());
    assert!(!state.test_and_set());
    assert_eq!(state, ShutdownState::Closing);
}

#[test]
fn state_of_a_flag() {
    assert_eq!(ShutdownState::from_flag(false), ShutdownState::Idle);
    assert_eq!(ShutdownState::from_flag(true), ShutdownState::Closing);
    let mut seen = ShutdownState::from_flag(true);
    assert!(seen.on_trigger(Trigger::ExitRequested, None).is_empty());
}
