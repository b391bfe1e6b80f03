use taskbar_twitch::config::{equal, Channel, OpenStreamUsing, State};
use taskbar_twitch::twitch::{
    idle_wait_over, on_poll_result, refresh_step, PollAction, PollerState, MAX_RETRIES,
    UPDATE_CHANNELS_TIME,
};

fn state_with(client: &str, channel_names: Vec<&str>) -> State {
    State {
        client: client.to_string(),
        secret: "sec".to_string(),
        player: OpenStreamUsing::Browser,
        session_player: None,
        config_file: "config.json".to_string(),
        channels: channel_names
            .into_iter()
            .map(|n| Channel::from(n.to_string()))
            .collect(),
        notify_title_changed: vec![],
    }
}

#[test]
fn consecutive_failures_never_crash_the_loop() {
    // MAX_RETRIES failures count the budget down; the next failure
    // skips the cycle, restores the budget, and the loop continues.
    let mut poller = PollerState::new();
    for used in 0..MAX_RETRIES {
        let action = on_poll_result(&mut poller, false);
        assert_eq!(action, PollAction::RetryAfterDelay);
        assert_eq!(poller.retries_left, MAX_RETRIES - used - 1);
    }
    let action = on_poll_result(&mut poller, false);
    assert_eq!(action, PollAction::SkipCycle);
    assert_eq!(poller.retries_left, MAX_RETRIES);
    // The state stays bounded however long the outage lasts.
    for _ in 0..50 {
        on_poll_result(&mut poller, false);
        assert!(poller.retries_left <= MAX_RETRIES);
    }
}

#[test]
fn success_restores_the_retry_budget() {
    let mut poller = PollerState::new();
    on_poll_result(&mut poller, false);
    assert_eq!(poller.retries_left, MAX_RETRIES - 1);
    let action = on_poll_result(&mut poller, true);
    assert_eq!(action, PollAction::Proceed);
    assert_eq!(poller.retries_left, MAX_RETRIES);
}

#[test]
fn idle_wait_ends_on_wake_or_elapsed_interval() {
    assert!(!idle_wait_over(0, false));
    assert!(!idle_wait_over(UPDATE_CHANNELS_TIME - 1, false));
    assert!(idle_wait_over(UPDATE_CHANNELS_TIME, false));
    assert!(idle_wait_over(UPDATE_CHANNELS_TIME + 5, false));
    assert!(idle_wait_over(0, true));
}

#[test]
fn refresh_step_skips_unreadable_configuration() {
    let mut state = state_with("id", vec!["alice"]);
    let changed = refresh_step(&mut state, None);
    assert!(!changed);
    assert_eq!(state.channels.len(), 1);
    assert_eq!(state.client, "id");
}

#[test]
fn refresh_step_ignores_structurally_equal_candidate() {
    let mut state = state_with("id", vec!["alice"]);
    state.channels[0].is_online = true;
    state.channels[0].title = Some("T".to_string());
    let candidate = state_with("id", vec!["alice"]);
    let changed = refresh_step(&mut state, Some(candidate));
    assert!(!changed);
    // The live data was not disturbed by the unchanged candidate.
    assert!(state.channels[0].is_online);
    assert_eq!(state.channels[0].title.as_deref(), Some("T"));
}

#[test]
fn refresh_step_merges_changed_candidate_and_asks_for_wake() {
    let mut state = state_with("id", vec!["alice", "carol"]);
    state.channels[0].is_online = true;
    state.channels[0].title = Some("X".to_string());
    state.channels[0].viewers = Some(10);
    let candidate = state_with("id", vec!["alice", "dave"]);
    let changed = refresh_step(&mut state, Some(candidate.clone()));
    assert!(changed);
    assert!(equal(&state, &candidate));
    assert!(state.channels[0].is_online);
    assert_eq!(state.channels[0].title.as_deref(), Some("X"));
    assert_eq!(state.channels[0].viewers, Some(10));
    assert_eq!(state.channels[1].name, "dave");
    assert!(!state.channels[1].is_online);
}
