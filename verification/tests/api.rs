use taskbar_twitch::config::{parse_state_body, Channel, ConfigError, OpenStreamUsing, State};
use taskbar_twitch::twitch::{
    auth_header, interpret_auth_body, normalize_entries, parse_status_body, reconcile, streams_url,
    token_url, ApiError, AuthOutcome, StreamEvent,
};

#[test]
fn status_body_with_data_parses() {
    let body = r#"{"data":[{"user_login":"alice","title":"Chatting","viewer_count":120}]}"#;
    let entries = parse_status_body(body).unwrap();
    assert_eq!(entries.len(), 1);
    assert_eq!(entries[0].user_login.as_deref(), Some("alice"));
    assert_eq!(entries[0].title.as_deref(), Some("Chatting"));
    assert_eq!(entries[0].viewer_count, Some(120));
}

#[test]
fn status_body_keeps_missing_fields_absent() {
    let body = r#"{"data":[{"user_login":"alice"},{"viewer_count":3,"title":7}]}"#;
    let entries = parse_status_body(body).unwrap();
    assert_eq!(entries.len(), 2);
    assert_eq!(entries[0].user_login.as_deref(), Some("alice"));
    assert_eq!(entries[0].viewer_count, None);
    assert_eq!(entries[1].user_login, None);
    assert_eq!(entries[1].title, None);
    assert_eq!(entries[1].viewer_count, Some(3));
}

#[test]
fn status_body_with_error_key_is_invalid() {
    let body = r#"{"error":"Unauthorized","data":[]}"#;
    assert_eq!(parse_status_body(body).unwrap_err(), ApiError::ErrorField);
}

#[test]
fn status_body_without_data_is_invalid() {
    assert_eq!(parse_status_body(r#"{}"#).unwrap_err(), ApiError::MissingData);
    assert_eq!(parse_status_body(r#"{"data":5}"#).unwrap_err(), ApiError::MissingData);
}

#[test]
fn status_body_that_is_no_object_is_invalid() {
    assert_eq!(parse_status_body(r#"[1,2]"#).unwrap_err(), ApiError::NotAnObject);
    assert_eq!(parse_status_body("not json").unwrap_err(), ApiError::NotAnObject);
    assert_eq!(
        parse_status_body("not json").unwrap_err().message(),
        "unknown response: not an object"
    );
}

#[test]
fn status_pipeline_reconciles_from_raw_body() {
    let mut state = State {
        client: "id".to_string(),
        secret: "sec".to_string(),
        player: OpenStreamUsing::Browser,
        session_player: None,
        config_file: "config.json".to_string(),
        channels: vec![
            Channel::from("alice".to_string()),
            Channel::from("bob".to_string()),
        ],
        notify_title_changed: vec![],
    };
    let body = r#"{"data":[{"user_login":"ALICE","title":" Chatting ","viewer_count":120}]}"#;
    let entries = normalize_entries(&parse_status_body(body).unwrap());
    let events = reconcile(&mut state, &entries);
    assert!(state.channels[0].is_online);
    assert_eq!(state.channels[0].title.as_deref(), Some("Chatting"));
    assert_eq!(state.channels[0].viewers, Some(120));
    assert!(!state.channels[1].is_online);
    assert_eq!(
        events,
        vec![StreamEvent::WentLive("alice".to_string()), StreamEvent::StateChanged]
    );
}

#[test]
fn auth_body_with_token_yields_header() {
    let body = r#"{"access_token":"abc123","expires_in":5011271}"#;
    assert_eq!(
        interpret_auth_body(body),
        AuthOutcome::Token("Bearer abc123".to_string())
    );
}

#[test]
fn auth_body_with_message_is_a_rejection() {
    let body = r#"{"status":403,"message":"invalid client secret"}"#;
    assert_eq!(interpret_auth_body(body), AuthOutcome::Rejected);
}

#[test]
fn auth_body_with_neither_is_unknown() {
    assert_eq!(interpret_auth_body(r#"{}"#), AuthOutcome::Unknown);
    assert_eq!(interpret_auth_body(r#"[]"#), AuthOutcome::Unknown);
    assert_eq!(interpret_auth_body("garbage"), AuthOutcome::Unknown);
    assert_eq!(interpret_auth_body(r#"{"access_token":5}"#), AuthOutcome::Unknown);
}

#[test]
fn auth_header_carries_the_bearer_token() {
    assert_eq!(auth_header("tok"), "Bearer tok");
}

#[test]
fn token_url_carries_the_credentials() {
    assert_eq!(
        token_url("my-id", "my-secret"),
        "https://id.twitch.tv/oauth2/token?client_id=my-id&client_secret=my-secret&grant_type=client_credentials"
    );
}

#[test]
fn streams_url_filters_on_every_tracked_channel() {
    let channels = vec![
        Channel::from("alice".to_string()),
        Channel::from("bob".to_string()),
    ];
    assert_eq!(
        streams_url(&channels),
        "https://api.twitch.tv/helix/streams?user_login=alice&user_login=bob&"
    );
    let none: Vec<Channel> = vec![];
    assert_eq!(streams_url(&none), "https://api.twitch.tv/helix/streams?");
}

#[test]
fn config_document_parses_into_a_fresh_state() {
    let body = r#"{
        "client": "my-id",
        "secret": "my-secret",
        "player": "mpv",
        "channels": ["alice", "bob", "alice"],
        "notify_title_changed": ["alice"]
    }"#;
    let state = parse_state_body(body, "config.json").unwrap();
    assert_eq!(state.client, "my-id");
    assert_eq!(state.secret, "my-secret");
    assert_eq!(state.player, OpenStreamUsing::Mpv);
    assert_eq!(state.session_player, None);
    assert_eq!(state.config_file, "config.json");
    assert_eq!(state.channels.len(), 2);
    assert_eq!(state.channels[0], Channel::from("alice".to_string()));
    assert_eq!(state.channels[1], Channel::from("bob".to_string()));
    assert_eq!(state.notify_title_changed, vec!["alice".to_string()]);
}

#[test]
fn config_document_notify_list_defaults_to_empty() {
    let body = r#"{"client":"c","secret":"s","player":"browser","channels":[]}"#;
    let state = parse_state_body(body, "config.json").unwrap();
    assert!(state.notify_title_changed.is_empty());
    assert!(state.channels.is_empty());
}

#[test]
fn config_document_rejections() {
    let path = "config.json";
    assert_eq!(parse_state_body("nonsense", path).unwrap_err(), ConfigError::NotAnObject);
    assert_eq!(parse_state_body(r#"[true]"#, path).unwrap_err(), ConfigError::NotAnObject);
    assert_eq!(parse_state_body(r#"{"secret":"s","player":"mpv","channels":[]}"#, path).unwrap_err(), ConfigError::MissingClient);
    assert_eq!(parse_state_body(r#"{"client":7,"secret":"s","player":"mpv","channels":[]}"#, path).unwrap_err(), ConfigError::MissingClient);
    assert_eq!(parse_state_body(r#"{"client":"c","player":"mpv","channels":[]}"#, path).unwrap_err(), ConfigError::MissingSecret);
    assert_eq!(parse_state_body(r#"{"client":"c","secret":"s","channels":[]}"#, path).unwrap_err(), ConfigError::MissingPlayer);
    assert_eq!(parse_state_body(r#"{"client":"c","secret":"s","player":"vlc","channels":[]}"#, path).unwrap_err(), ConfigError::UnknownPlayer);
    assert_eq!(parse_state_body(r#"{"client":"c","secret":"s","player":"mpv"}"#, path).unwrap_err(), ConfigError::MissingChannels);
    assert_eq!(parse_state_body(r#"{"client":"c","secret":"s","player":"mpv","channels":3}"#, path).unwrap_err(), ConfigError::MissingChannels);
    assert_eq!(parse_state_body(
            r#"{"client":"c","secret":"s","player":"mpv","channels":["a",5]}"#,
            path,
        ).unwrap_err(), ConfigError::BadChannelName);
    assert_eq!(parse_state_body(
            r#"{"client":"c","secret":"s","player":"mpv","channels":[],"notify_title_changed":[3]}"#,
            path,
        ).unwrap_err(), ConfigError::BadNotifyList);
    assert_eq!(
        parse_state_body("nonsense", path).unwrap_err().message(),
        "config is not a JSON object"
    );
}
