use status_core::client::{
    build_payload, hostname, idle_seconds, music_eq, music_tick, resolve_config, should_truncate_log,
    status_label, ClientMusicState, Config, ConfigFile, MusicState,
};
use status_core::clock::{chrono_like_ts, now_ts};

fn empty_sources() -> ConfigFile {
    ConfigFile {
        endpoint: None,
        token: None,
        device_id: None,
        device_name: None,
        idle_timeout_secs: None,
        heartbeat_interval_secs: None,
        music_poll_interval_secs: None,
        music_push_min_interval_secs: None,
        log_file: None,
        log_max_bytes: None,
    }
}

fn test_config() -> Config {
    let env = ConfigFile {
        device_id: Some("dev".to_string()),
        idle_timeout_secs: Some(300),
        ..empty_sources()
    };
    resolve_config(env, empty_sources())
}

fn music(playing: bool, title: &str) -> MusicState {
    MusicState {
        playing,
        title: Some(title.to_string()),
        artist: None,
        source: None,
    }
}

#[test]
fn config_defaults_apply_when_no_source_speaks() {
    let cfg = resolve_config(empty_sources(), empty_sources());
    assert_eq!(cfg.endpoint, "http://xxx.com:7999/heartbeat");
    assert_eq!(cfg.token, "you_token");
    assert_eq!(cfg.idle_timeout_secs, 300);
    assert_eq!(cfg.heartbeat_interval_secs, 60);
    assert_eq!(cfg.music_poll_interval_secs, 5);
    assert_eq!(cfg.music_push_min_interval_secs, 6);
    assert_eq!(cfg.log_file, "status-client.log");
    assert_eq!(cfg.log_max_bytes, 2 * 1024 * 1024);
    // the device id fell back to the hostname, and the name to the id
    assert_eq!(cfg.device_name, cfg.device_id);
}

#[test]
fn environment_wins_over_file_key_by_key() {
    let env = ConfigFile {
        endpoint: Some("http://env/heartbeat".to_string()),
        idle_timeout_secs: Some(120),
        ..empty_sources()
    };
    let file = ConfigFile {
        endpoint: Some("http://file/heartbeat".to_string()),
        token: Some("file-token".to_string()),
        idle_timeout_secs: Some(999),
        heartbeat_interval_secs: Some(30),
        ..empty_sources()
    };
    let cfg = resolve_config(env, file);
    assert_eq!(cfg.endpoint, "http://env/heartbeat");
    assert_eq!(cfg.token, "file-token");
    assert_eq!(cfg.idle_timeout_secs, 120);
    assert_eq!(cfg.heartbeat_interval_secs, 30);
}

#[test]
fn device_name_defaults_to_device_id() {
    let env = ConfigFile { device_id: Some("laptop".to_string()), ..empty_sources() };
    let cfg = resolve_config(env, empty_sources());
    assert_eq!(cfg.device_id, "laptop");
    assert_eq!(cfg.device_name, "laptop");
}

#[test]
fn payload_online_is_local_idle_judgement() {
    let cfg = test_config();
    assert!(build_payload(&cfg, Some(100), None).online);
    assert!(!build_payload(&cfg, Some(300), None).online);
    assert!(!build_payload(&cfg, Some(301), None).online);
    // a failed idle probe reports optimistically online
    assert!(build_payload(&cfg, None, None).online);
}

#[test]
fn payload_carries_media_snapshot() {
    let cfg = test_config();
    let hb = build_payload(&cfg, Some(5), Some(music(true, "Song")));
    assert_eq!(hb.device_id, "dev");
    assert_eq!(hb.idle_seconds, Some(5));
    assert!(hb.music_playing);
    assert_eq!(hb.music_title.as_deref(), Some("Song"));
    let silent = build_payload(&cfg, Some(5), None);
    assert!(!silent.music_playing);
    assert_eq!(silent.music_title, None);
}

#[test]
fn idle_millis_become_whole_seconds() {
    assert_eq!(idle_seconds(Some(5500)), Some(5));
    assert_eq!(idle_seconds(Some(999)), Some(0));
    assert_eq!(idle_seconds(None), None);
}

#[test]
fn first_observation_pushes_immediately() {
    let mut st = ClientMusicState { last_pushed: None, last_push_at: None };
    assert!(music_tick(&mut st, 1000, music(true, "A"), 6));
    assert_eq!(st.last_push_at, Some(1000));
}

#[test]
fn throttle_holds_back_rapid_changes_then_releases() {
    // two changes inside the window: one push; a change after it: pushes
    let mut st = ClientMusicState { last_pushed: None, last_push_at: None };
    assert!(music_tick(&mut st, 1000, music(true, "A"), 6));
    assert!(!music_tick(&mut st, 1003, music(true, "B"), 6));
    assert_eq!(st.last_push_at, Some(1000), "a held-back change must not advance the clock");
    assert!(music_tick(&mut st, 1006, music(true, "B"), 6));
    assert_eq!(st.last_push_at, Some(1006));
}

#[test]
fn unchanged_state_never_pushes() {
    let mut st = ClientMusicState { last_pushed: None, last_push_at: None };
    assert!(music_tick(&mut st, 1000, music(true, "A"), 6));
    assert!(!music_tick(&mut st, 2000, music(true, "A"), 6));
    assert_eq!(st.last_push_at, Some(1000));
}

#[test]
fn change_is_measured_against_last_pushed_state() {
    // A pushed; B observed but throttled; B again after the window: it still
    // differs from the pushed A, so it goes out.
    let mut st = ClientMusicState { last_pushed: None, last_push_at: None };
    assert!(music_tick(&mut st, 0, music(true, "A"), 10));
    assert!(!music_tick(&mut st, 5, music(true, "B"), 10));
    assert!(music_tick(&mut st, 10, music(true, "B"), 10));
}

#[test]
fn music_equality_is_over_all_four_fields() {
    let a = MusicState {
        playing: true,
        title: Some("t".to_string()),
        artist: Some("a".to_string()),
        source: Some("s".to_string()),
    };
    let same = MusicState {
        playing: true,
        title: Some("t".to_string()),
        artist: Some("a".to_string()),
        source: Some("s".to_string()),
    };
    assert!(music_eq(&a, &same));
    let paused = MusicState { playing: false, ..same };
    assert!(!music_eq(&a, &paused));
    let other_artist = MusicState {
        playing: true,
        title: Some("t".to_string()),
        artist: None,
        source: Some("s".to_string()),
    };
    assert!(!music_eq(&a, &other_artist));
}

#[test]
fn status_flag_reads_error_unless_the_push_succeeded() {
    assert_eq!(status_label(Some(true)), "online");
    assert_eq!(status_label(Some(false)), "error");
    assert_eq!(status_label(None), "error");
}

#[test]
fn log_truncation_gate() {
    assert!(!should_truncate_log(5_000_000, 0));
    assert!(should_truncate_log(5, 4));
    assert!(!should_truncate_log(4, 4));
}

#[test]
fn clock_readings_are_sane() {
    let t = now_ts();
    assert!(t >= 0);
    let u = chrono_like_ts();
    assert!(u as i64 >= t - 1);
}

#[test]
fn hostname_returns_some_name() {
    // either the machine's own name or the fixed fallback
    let _ = hostname();
}
