use status_core::presence::{
    apply_status_update, authorized, compute_status, ingest, remove_device, set_global_manual,
    DeleteOutcome, DeviceRecord, GlobalControl, Heartbeat, IngestOutcome, MediaSnapshot,
    PresenceStore, StatusUpdate, UpdateOutcome,
};

const TOKEN: &str = "secret-token";

fn empty_store() -> PresenceStore {
    PresenceStore {
        devices: Vec::new(),
        global: GlobalControl { manual_offline: false, updated_at: 0 },
    }
}

fn hb(device_id: &str, online: bool) -> Heartbeat {
    Heartbeat {
        device_id: device_id.to_string(),
        device_name: device_id.to_string(),
        online,
        idle_seconds: Some(12),
        music_playing: false,
        music_title: None,
        music_artist: None,
        music_source: None,
    }
}

fn blank_update(device_id: &str) -> StatusUpdate {
    StatusUpdate {
        device_id: device_id.to_string(),
        device_name: None,
        online: None,
        manual_offline: None,
        music_playing: None,
        music_title: None,
        music_artist: None,
        music_source: None,
    }
}

#[test]
fn heartbeat_creates_row_and_status_reports_online() {
    let mut store = empty_store();
    let r = ingest(&mut store, TOKEN, Some(TOKEN), None, 100, hb("device-1", true));
    assert_eq!(r, IngestOutcome::Accepted);
    let view = compute_status(110, &store);
    assert_eq!(view.len(), 1);
    assert_eq!(view[0].device_id, "device-1");
    assert!(view[0].online);
    assert_eq!(view[0].last_seen, 100);
    assert_eq!(view[0].idle_seconds, Some(12));
    assert!(!view[0].manual_offline);
    assert!(!view[0].global_manual_offline);
}

#[test]
fn bad_token_is_rejected_without_state_change() {
    let mut store = empty_store();
    let r = ingest(&mut store, TOKEN, Some("wrong"), None, 100, hb("device-1", true));
    assert_eq!(r, IngestOutcome::Unauthorized);
    assert_eq!(store.devices.len(), 0);
}

#[test]
fn global_override_scenario() {
    // device-1 is known, then the global override goes on: a live
    // online=true heartbeat is swallowed and the status view shows the
    // device offline with the raw global flag surfaced.
    let mut store = empty_store();
    assert_eq!(
        ingest(&mut store, TOKEN, Some(TOKEN), None, 50, hb("device-1", true)),
        IngestOutcome::Accepted
    );
    assert_eq!(
        set_global_manual(&mut store, TOKEN, Some(TOKEN), None, 60, true),
        UpdateOutcome::Applied
    );
    assert_eq!(
        ingest(&mut store, TOKEN, Some(TOKEN), None, 70, hb("device-1", true)),
        IngestOutcome::Suppressed
    );
    // the suppressed heartbeat wrote nothing
    assert_eq!(store.devices[0].last_seen, 50);
    let view = compute_status(80, &store);
    assert_eq!(view.len(), 1);
    assert_eq!(view[0].device_id, "device-1");
    assert!(!view[0].online);
    assert!(view[0].global_manual_offline);
    assert!(!view[0].manual_offline);
    assert!(view[0].device_name == "device-1");
}

#[test]
fn staleness_scenario() {
    // heartbeat at t=0, nothing since: at t=400 the device is offline for
    // staleness while last_seen still reads 0.
    let mut store = empty_store();
    assert_eq!(
        ingest(&mut store, TOKEN, Some(TOKEN), None, 0, hb("device-1", true)),
        IngestOutcome::Accepted
    );
    let at_300 = compute_status(300, &store);
    assert!(at_300[0].online, "exactly the staleness window is still fresh");
    let view = compute_status(400, &store);
    assert!(!view[0].online);
    assert_eq!(view[0].last_seen, 0);
}

#[test]
fn manual_offline_scenario() {
    // a status update sets only manual_offline; a later online=true
    // heartbeat still yields an offline verdict, and never clears the flag.
    let mut store = empty_store();
    let upd = StatusUpdate { manual_offline: Some(true), ..blank_update("device-1") };
    assert_eq!(
        apply_status_update(&mut store, TOKEN, Some(TOKEN), None, 10, upd),
        UpdateOutcome::Applied
    );
    assert_eq!(
        ingest(&mut store, TOKEN, Some(TOKEN), None, 20, hb("device-1", true)),
        IngestOutcome::Accepted
    );
    assert!(store.devices[0].manual_offline, "heartbeat must not clear the override");
    assert!(store.devices[0].reported_online);
    let view = compute_status(25, &store);
    assert!(!view[0].online);
    assert!(view[0].manual_offline);
    assert!(!view[0].global_manual_offline);
}

#[test]
fn update_with_override_omitted_keeps_stored_value() {
    let mut store = empty_store();
    let set = StatusUpdate { manual_offline: Some(true), ..blank_update("device-1") };
    apply_status_update(&mut store, TOKEN, Some(TOKEN), None, 10, set);
    let other = StatusUpdate { device_name: Some("desk".to_string()), ..blank_update("device-1") };
    apply_status_update(&mut store, TOKEN, Some(TOKEN), None, 20, other);
    assert!(store.devices[0].manual_offline);
    assert_eq!(store.devices[0].device_name, "desk");
}

#[test]
fn update_online_resets_last_seen_and_clears_idle() {
    let mut store = empty_store();
    ingest(&mut store, TOKEN, Some(TOKEN), None, 10, hb("device-1", true));
    assert_eq!(store.devices[0].idle_seconds, Some(12));
    let upd = StatusUpdate { online: Some(false), ..blank_update("device-1") };
    apply_status_update(&mut store, TOKEN, Some(TOKEN), None, 42, upd);
    assert_eq!(store.devices[0].last_seen, 42);
    assert_eq!(store.devices[0].idle_seconds, None);
    assert!(!store.devices[0].reported_online);
}

#[test]
fn update_without_online_keeps_last_seen_and_idle() {
    let mut store = empty_store();
    ingest(&mut store, TOKEN, Some(TOKEN), None, 10, hb("device-1", true));
    let upd = StatusUpdate { device_name: Some("desk".to_string()), ..blank_update("device-1") };
    apply_status_update(&mut store, TOKEN, Some(TOKEN), None, 42, upd);
    assert_eq!(store.devices[0].last_seen, 10);
    assert_eq!(store.devices[0].idle_seconds, Some(12));
}

#[test]
fn media_updated_at_advances_only_with_music_fields() {
    let mut store = empty_store();
    ingest(&mut store, TOKEN, Some(TOKEN), None, 10, hb("device-1", true));
    assert_eq!(store.devices[0].media.updated_at, Some(10));
    let no_music = StatusUpdate { device_name: Some("desk".to_string()), ..blank_update("device-1") };
    apply_status_update(&mut store, TOKEN, Some(TOKEN), None, 20, no_music);
    assert_eq!(store.devices[0].media.updated_at, Some(10));
    let music = StatusUpdate {
        music_title: Some("Song".to_string()),
        ..blank_update("device-1")
    };
    apply_status_update(&mut store, TOKEN, Some(TOKEN), None, 30, music);
    assert_eq!(store.devices[0].media.updated_at, Some(30));
    assert_eq!(store.devices[0].media.title.as_deref(), Some("Song"));
}

#[test]
fn heartbeat_overwrites_reported_fields() {
    let mut store = empty_store();
    ingest(&mut store, TOKEN, Some(TOKEN), None, 10, hb("device-1", true));
    let mut second = hb("device-1", false);
    second.device_name = "new-name".to_string();
    second.idle_seconds = None;
    second.music_playing = true;
    second.music_title = Some("Track".to_string());
    ingest(&mut store, TOKEN, Some(TOKEN), None, 15, second);
    assert_eq!(store.devices.len(), 1);
    let d = &store.devices[0];
    assert_eq!(d.device_name, "new-name");
    assert!(!d.reported_online);
    assert_eq!(d.last_seen, 15);
    assert_eq!(d.idle_seconds, None);
    assert!(d.media.playing);
    assert_eq!(d.media.title.as_deref(), Some("Track"));
    assert_eq!(d.media.updated_at, Some(15));
}

#[test]
fn status_view_is_ordered_by_device_id() {
    let mut store = empty_store();
    for id in ["bravo", "alpha", "charlie"] {
        ingest(&mut store, TOKEN, Some(TOKEN), None, 10, hb(id, true));
    }
    let view = compute_status(11, &store);
    let ids: Vec<&str> = view.iter().map(|v| v.device_id.as_str()).collect();
    assert_eq!(ids, vec!["alpha", "bravo", "charlie"]);
}

#[test]
fn global_override_forces_every_device_offline() {
    let mut store = empty_store();
    ingest(&mut store, TOKEN, Some(TOKEN), None, 10, hb("a", true));
    ingest(&mut store, TOKEN, Some(TOKEN), None, 10, hb("b", true));
    set_global_manual(&mut store, TOKEN, Some(TOKEN), None, 11, true);
    for row in compute_status(12, &store) {
        assert!(!row.online);
        assert!(row.global_manual_offline);
    }
    // and clearing it brings them back
    set_global_manual(&mut store, TOKEN, Some(TOKEN), None, 13, false);
    for row in compute_status(14, &store) {
        assert!(row.online);
    }
}

#[test]
fn delete_device_honors_token_and_tolerates_unknown_ids() {
    let mut store = empty_store();
    ingest(&mut store, TOKEN, Some(TOKEN), None, 10, hb("device-1", true));
    assert_eq!(
        remove_device(&mut store, TOKEN, "wrong", "device-1"),
        DeleteOutcome::Unauthorized
    );
    assert_eq!(store.devices.len(), 1);
    assert_eq!(remove_device(&mut store, TOKEN, TOKEN, "nobody"), DeleteOutcome::Deleted);
    assert_eq!(store.devices.len(), 1);
    assert_eq!(remove_device(&mut store, TOKEN, TOKEN, "device-1"), DeleteOutcome::Deleted);
    assert_eq!(store.devices.len(), 0);
}

#[test]
fn set_global_requires_auth() {
    let mut store = empty_store();
    assert_eq!(
        set_global_manual(&mut store, TOKEN, None, None, 10, true),
        UpdateOutcome::Unauthorized
    );
    assert!(!store.global.manual_offline);
}

#[test]
fn authorized_accepts_either_header_shape() {
    assert!(authorized(Some(TOKEN), None, TOKEN));
    assert!(authorized(None, Some("Bearer secret-token"), TOKEN));
    assert!(authorized(Some("wrong"), Some("Bearer secret-token"), TOKEN));
    assert!(!authorized(None, None, TOKEN));
    assert!(!authorized(Some("wrong"), None, TOKEN));
    assert!(!authorized(None, Some("Bearer nope"), TOKEN));
    assert!(!authorized(None, Some("secret-token"), TOKEN));
    assert!(!authorized(None, Some("bearer secret-token"), TOKEN));
}

#[test]
fn stale_and_overridden_rows_surface_raw_flags() {
    // a viewer can tell "offline by override" from "offline by staleness"
    let mut store = empty_store();
    ingest(&mut store, TOKEN, Some(TOKEN), None, 0, hb("stale", true));
    ingest(&mut store, TOKEN, Some(TOKEN), None, 500, hb("muted", true));
    let upd = StatusUpdate { manual_offline: Some(true), ..blank_update("muted") };
    apply_status_update(&mut store, TOKEN, Some(TOKEN), None, 500, upd);
    let view = compute_status(500, &store);
    let stale = view.iter().find(|v| v.device_id == "stale").unwrap();
    let muted = view.iter().find(|v| v.device_id == "muted").unwrap();
    assert!(!stale.online && !stale.manual_offline);
    assert!(!muted.online && muted.manual_offline);
}

#[test]
fn fresh_update_row_defaults() {
    let mut store = empty_store();
    let upd = StatusUpdate { manual_offline: Some(true), ..blank_update("device-9") };
    apply_status_update(&mut store, TOKEN, Some(TOKEN), None, 33, upd);
    let d = &store.devices[0];
    assert_eq!(d.device_id, "device-9");
    assert_eq!(d.device_name, "device-9");
    assert!(!d.reported_online);
    assert_eq!(d.last_seen, 33);
    assert_eq!(d.idle_seconds, None);
    assert_eq!(d.media.updated_at, None);
}

#[test]
fn record_shape_survives_round_trip() {
    let store = PresenceStore {
        devices: vec![DeviceRecord {
            device_id: "x".to_string(),
            device_name: "X".to_string(),
            reported_online: true,
            last_seen: 5,
            idle_seconds: None,
            manual_offline: false,
            media: MediaSnapshot {
                playing: true,
                title: Some("t".to_string()),
                artist: Some("a".to_string()),
                source: Some("s".to_string()),
                updated_at: Some(5),
            },
        }],
        global: GlobalControl { manual_offline: false, updated_at: 0 },
    };
    let view = compute_status(6, &store);
    assert!(view[0].media.playing);
    assert_eq!(view[0].media.title.as_deref(), Some("t"));
    assert_eq!(view[0].media.artist.as_deref(), Some("a"));
    assert_eq!(view[0].media.source.as_deref(), Some("s"));
    assert_eq!(view[0].media.updated_at, Some(5));
}
