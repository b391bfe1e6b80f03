use taskbar_twitch::config::{label_parse_round_trip, Channel, OpenStreamUsing, State};
use taskbar_twitch::present::{
    channel_label, current_player, open_command, remove_extended_path_prefix,
};
use taskbar_twitch::text::lowercase;

fn ch(name: &str, online: bool, title: Option<&str>, viewers: Option<u64>) -> Channel {
    Channel {
        name: name.to_string(),
        is_online: online,
        title: title.map(|t| t.to_string()),
        viewers,
    }
}

#[test]
fn label_shows_title_and_viewers_while_online() {
    let c = ch("alice", true, Some("Chatting"), Some(120));
    assert_eq!(channel_label(&c), "alice - Chatting (120 viewers)");
}

#[test]
fn label_is_the_bare_name_while_offline() {
    let c = ch("alice", false, Some("Chatting"), Some(120));
    assert_eq!(channel_label(&c), "alice");
}

#[test]
fn label_handles_missing_title_or_viewers() {
    assert_eq!(channel_label(&ch("alice", true, None, Some(3))), "alice (3 viewers)");
    assert_eq!(channel_label(&ch("alice", true, Some("T"), None)), "alice - T");
    assert_eq!(channel_label(&ch("alice", true, None, None)), "alice");
}

#[test]
fn player_parse_accepts_known_spellings_only() {
    assert_eq!(OpenStreamUsing::parse("browser"), Some(OpenStreamUsing::Browser));
    assert_eq!(OpenStreamUsing::parse("mpv"), Some(OpenStreamUsing::Mpv));
    assert_eq!(OpenStreamUsing::parse("streamlink"), Some(OpenStreamUsing::Streamlink));
    assert_eq!(OpenStreamUsing::parse("Browser"), None);
    assert_eq!(OpenStreamUsing::parse(""), None);
}

#[test]
fn player_labels() {
    assert_eq!(OpenStreamUsing::Browser.label(), "Browser");
    assert_eq!(OpenStreamUsing::Mpv.label(), "Mpv");
    assert_eq!(OpenStreamUsing::Streamlink.label(), "Streamlink");
}

#[test]
fn folded_label_parses_back_to_the_player() {
    for p in [OpenStreamUsing::Browser, OpenStreamUsing::Mpv, OpenStreamUsing::Streamlink] {
        assert_eq!(label_parse_round_trip(p), Some(p));
        assert_eq!(OpenStreamUsing::parse(&p.label().to_lowercase()), Some(p));
    }
}

#[test]
fn ascii_strings_fold_characterwise() {
    assert_eq!(lowercase("AbC"), "abc");
    assert_eq!(lowercase("alice"), "alice");
    assert_eq!(lowercase("A-Z 0_9!"), "a-z 0_9!");
}

#[test]
fn session_player_overrides_configured_player() {
    let mut state = State {
        client: "id".to_string(),
        secret: "sec".to_string(),
        player: OpenStreamUsing::Browser,
        session_player: None,
        config_file: "config.json".to_string(),
        channels: vec![],
        notify_title_changed: vec![],
    };
    assert_eq!(current_player(&state), OpenStreamUsing::Browser);
    state.session_player = Some(OpenStreamUsing::Streamlink);
    assert_eq!(current_player(&state), OpenStreamUsing::Streamlink);
}

#[test]
fn open_commands_per_player() {
    let browser = open_command(OpenStreamUsing::Browser, "alice");
    assert_eq!(browser.target, "https://twitch.tv/alice");
    assert_eq!(browser.program, None);

    let mpv = open_command(OpenStreamUsing::Mpv, "alice");
    assert_eq!(mpv.target, "https://twitch.tv/alice --ytdl-format=best");
    assert_eq!(mpv.program.as_deref(), Some("mpv"));

    let streamlink = open_command(OpenStreamUsing::Streamlink, "alice");
    assert_eq!(streamlink.target, "twitch.tv/alice best");
    assert_eq!(streamlink.program.as_deref(), Some("streamlink"));
}

#[test]
fn extended_path_prefix_is_stripped() {
    assert_eq!(
        remove_extended_path_prefix("\\\\?\\C:\\icons\\twitch.ico"),
        "C:\\icons\\twitch.ico"
    );
    assert_eq!(
        remove_extended_path_prefix("C:\\icons\\twitch.ico"),
        "C:\\icons\\twitch.ico"
    );
    assert_eq!(remove_extended_path_prefix(""), "");
}
