use taskbar_twitch::config::{
    apply_overrides, channels_from_names, equal, migrate, Channel, OpenStreamUsing, Overrides,
    State,
};

fn ch(name: &str, online: bool, title: Option<&str>, viewers: Option<u64>) -> Channel {
    Channel {
        name: name.to_string(),
        is_online: online,
        title: title.map(|t| t.to_string()),
        viewers,
    }
}

fn state_with(channels: Vec<Channel>) -> State {
    State {
        client: "id".to_string(),
        secret: "sec".to_string(),
        player: OpenStreamUsing::Browser,
        session_player: None,
        config_file: "config.json".to_string(),
        channels,
        notify_title_changed: vec![],
    }
}

#[test]
fn migrate_preserves_live_data() {
    let mut state = state_with(vec![ch("alice", true, Some("Chatting"), Some(10))]);
    let candidate = state_with(vec![ch("alice", false, None, None)]);
    migrate(&mut state, candidate);
    assert_eq!(state.channels.len(), 1);
    assert_eq!(state.channels[0], ch("alice", true, Some("Chatting"), Some(10)));
}

#[test]
fn migrate_fresh_channel_starts_with_defaults() {
    let mut state = state_with(vec![ch("alice", true, Some("X"), Some(3))]);
    let candidate = state_with(vec![ch("alice", false, None, None), ch("dave", false, None, None)]);
    migrate(&mut state, candidate);
    assert_eq!(state.channels.len(), 2);
    assert_eq!(state.channels[1], ch("dave", false, None, None));
}

#[test]
fn migrate_drops_names_absent_from_new_config() {
    let mut state = state_with(vec![ch("alice", false, None, None), ch("carol", true, Some("T"), Some(7))]);
    let candidate = state_with(vec![ch("alice", false, None, None)]);
    migrate(&mut state, candidate);
    assert_eq!(state.channels.len(), 1);
    assert_eq!(state.channels[0].name, "alice");
    assert!(state.channels.iter().all(|c| c.name != "carol"));
}

#[test]
fn scenario_merge_preserves_and_resets() {
    // Old state: alice live with data, carol offline. New config: alice, dave.
    let mut state = state_with(vec![
        ch("alice", true, Some("X"), Some(10)),
        ch("carol", false, None, None),
    ]);
    let candidate = state_with(vec![ch("alice", false, None, None), ch("dave", false, None, None)]);
    migrate(&mut state, candidate);
    assert_eq!(state.channels.len(), 2);
    assert_eq!(state.channels[0], ch("alice", true, Some("X"), Some(10)));
    assert_eq!(state.channels[1], ch("dave", false, None, None));
    assert!(state.channels.iter().all(|c| c.name != "carol"));
}

#[test]
fn migrate_replaces_structural_fields_keeps_session_player() {
    let mut state = state_with(vec![]);
    state.session_player = Some(OpenStreamUsing::Mpv);
    let mut candidate = state_with(vec![]);
    candidate.client = "new-id".to_string();
    candidate.secret = "new-sec".to_string();
    candidate.player = OpenStreamUsing::Streamlink;
    candidate.session_player = Some(OpenStreamUsing::Browser);
    candidate.config_file = "other.json".to_string();
    candidate.notify_title_changed = vec!["alice".to_string()];
    migrate(&mut state, candidate);
    assert_eq!(state.client, "new-id");
    assert_eq!(state.secret, "new-sec");
    assert_eq!(state.player, OpenStreamUsing::Streamlink);
    assert_eq!(state.session_player, Some(OpenStreamUsing::Mpv));
    assert_eq!(state.config_file, "other.json");
    assert_eq!(state.notify_title_changed, vec!["alice".to_string()]);
}

#[test]
fn equal_ignores_volatile_fields_and_session_player() {
    let a = state_with(vec![ch("alice", true, Some("X"), Some(10))]);
    let mut b = state_with(vec![ch("alice", false, None, None)]);
    b.session_player = Some(OpenStreamUsing::Mpv);
    assert!(equal(&a, &b));
}

#[test]
fn equal_detects_structural_changes() {
    let base = state_with(vec![ch("alice", false, None, None)]);

    let mut other = state_with(vec![ch("alice", false, None, None)]);
    other.client = "changed".to_string();
    assert!(!equal(&base, &other));

    let mut other = state_with(vec![ch("alice", false, None, None)]);
    other.secret = "changed".to_string();
    assert!(!equal(&base, &other));

    let other = state_with(vec![ch("bob", false, None, None)]);
    assert!(!equal(&base, &other));

    let other = state_with(vec![]);
    assert!(!equal(&base, &other));

    let mut other = state_with(vec![ch("alice", false, None, None)]);
    other.player = OpenStreamUsing::Mpv;
    assert!(!equal(&base, &other));

    let mut other = state_with(vec![ch("alice", false, None, None)]);
    other.notify_title_changed = vec!["alice".to_string()];
    assert!(!equal(&base, &other));
}

#[test]
fn equal_is_order_sensitive_on_channel_names() {
    let a = state_with(vec![ch("alice", false, None, None), ch("bob", false, None, None)]);
    let b = state_with(vec![ch("bob", false, None, None), ch("alice", false, None, None)]);
    assert!(!equal(&a, &b));
}

#[test]
fn channels_from_names_first_occurrence_wins() {
    let names = vec!["alice".to_string(), "bob".to_string(), "alice".to_string()];
    let chs = channels_from_names(&names);
    assert_eq!(chs.len(), 2);
    assert_eq!(chs[0], ch("alice", false, None, None));
    assert_eq!(chs[1], ch("bob", false, None, None));
}

#[test]
fn overrides_take_precedence_field_by_field() {
    let config = state_with(vec![ch("alice", false, None, None)]);
    let args = Overrides {
        client: Some("cli-id".to_string()),
        secret: None,
        player: Some(OpenStreamUsing::Mpv),
        config_file: None,
        channels: Some(vec!["bob".to_string(), "carol".to_string(), "bob".to_string()]),
        notify_title_changed: None,
    };
    let merged = apply_overrides(config, args);
    assert_eq!(merged.client, "cli-id");
    assert_eq!(merged.secret, "sec");
    assert_eq!(merged.player, OpenStreamUsing::Mpv);
    assert_eq!(merged.session_player, None);
    assert_eq!(merged.config_file, "config.json");
    assert_eq!(merged.channels.len(), 2);
    assert_eq!(merged.channels[0], ch("bob", false, None, None));
    assert_eq!(merged.channels[1], ch("carol", false, None, None));
    assert!(merged.notify_title_changed.is_empty());
}

#[test]
fn channel_from_starts_offline() {
    let c = Channel::from("alice".to_string());
    assert_eq!(c, ch("alice", false, None, None));
}

#[test]
fn snapshot_is_a_faithful_copy() {
    let mut state = state_with(vec![ch("alice", true, Some("X"), Some(10))]);
    state.notify_title_changed = vec!["alice".to_string()];
    let snapshot = state.clone();
    assert_eq!(snapshot.client, state.client);
    assert_eq!(snapshot.channels, state.channels);
    assert_eq!(snapshot.notify_title_changed, state.notify_title_changed);
    assert!(equal(&snapshot, &state));
}
