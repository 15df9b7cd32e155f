//! The client-side reporter: configuration resolution, payload building,
//! local online derivation, and the media-change push throttle.
//!
//! The probes that read idle time and now-playing metadata, and the network
//! push itself, are the caller's business; everything here is a pure step
//! from sampled values to a decision.

use vstd::prelude::*;
use vstd::string::*;

use crate::presence::Heartbeat;
use crate::text::opt_text;

verus! {

/// An observed media state, as the probe reports it.
#[derive(Debug)]
pub struct MusicState {
    pub playing: bool,
    pub title: Option<String>,
    pub artist: Option<String>,
    pub source: Option<String>,
}

/// Media states are the same when they show the same text and play flag.
pub open spec fn music_same(a: MusicState, b: MusicState) -> bool {
    &&& a.playing == b.playing
    &&& opt_text(a.title) == opt_text(b.title)
    &&& opt_text(a.artist) == opt_text(b.artist)
    &&& opt_text(a.source) == opt_text(b.source)
}

fn opt_string_eq(a: &Option<String>, b: &Option<String>) -> (r: bool)
    ensures
        r == (opt_text(*a) == opt_text(*b)),
{
    match (a, b) {
        (None, None) => true,
        (Some(x), Some(y)) => crate::text::str_eq(x.as_str(), y.as_str()),
        _ => false,
    }
}

/// Equality over playing/title/artist/source, the media loop's change test.
pub fn music_eq(a: &MusicState, b: &MusicState) -> (r: bool)
    ensures
        r == music_same(*a, *b),
{
    a.playing == b.playing && opt_string_eq(&a.title, &b.title) && opt_string_eq(
        &a.artist,
        &b.artist,
    ) && opt_string_eq(&a.source, &b.source)
}

/// The media loop's memory: the last state actually pushed, and when.
/// Created empty at process start; replaced only when a push goes out.
#[derive(Debug)]
pub struct ClientMusicState {
    pub last_pushed: Option<MusicState>,
    pub last_push_at: Option<u64>,
}

/// Whether the observed state differs from the last pushed one; everything
/// differs from a never-pushed state.
pub open spec fn music_changed(st: ClientMusicState, observed: MusicState) -> bool {
    match st.last_pushed {
        Some(p) => !music_same(p, observed),
        None => true,
    }
}

/// Whether the minimum interval since the last push has elapsed; a
/// never-pushed state bypasses the throttle.
pub open spec fn throttle_open(st: ClientMusicState, now: u64, min_push_interval: u64) -> bool {
    match st.last_push_at {
        Some(t) => now - t >= min_push_interval,
        None => true,
    }
}

/// The two-part push gate: a genuine change, and an open throttle window.
pub open spec fn should_push(
    st: ClientMusicState,
    now: u64,
    observed: MusicState,
    min_push_interval: u64,
) -> bool {
    music_changed(st, observed) && throttle_open(st, now, min_push_interval)
}

/// One tick of the media-change loop: decides whether this observation goes
/// out, and if so remembers it as pushed.  The memory is updated whether or
/// not the push later succeeds on the wire (the loop is optimistic); a
/// throttled change leaves the memory untouched, so the change is pushed
/// once the window opens.
pub fn music_tick(
    state: &mut ClientMusicState,
    now: u64,
    observed: MusicState,
    min_push_interval: u64,
) -> (push: bool)
    ensures
        push == should_push(*old(state), now, observed, min_push_interval),
        push ==> *final(state) == (ClientMusicState {
            last_pushed: Some(observed),
            last_push_at: Some(now),
        }),
        !push ==> *final(state) == *old(state),
{
    let changed = match &state.last_pushed {
        Some(p) => !music_eq(p, &observed),
        None => true,
    };
    if !changed {
        return false;
    }
    let open = match state.last_push_at {
        Some(t) => now >= t && now - t >= min_push_interval,
        None => true,
    };
    if !open {
        return false;
    }
    state.last_pushed = Some(observed);
    state.last_push_at = Some(now);
    true
}

/// Two observed changes inside one throttle window produce a single push:
/// after a push at `t1`, a further change before `t1 + min` is held back,
/// while a change once the window has elapsed always goes out.
pub proof fn lemma_push_throttle(
    st0: ClientMusicState,
    t1: u64,
    m1: MusicState,
    t2: u64,
    m2: MusicState,
    min_push_interval: u64,
)
    requires
        should_push(st0, t1, m1, min_push_interval),
        !music_same(m2, m1),
    ensures
        ({
            let st1 = ClientMusicState { last_pushed: Some(m1), last_push_at: Some(t1) };
            &&& (t2 - t1 < min_push_interval ==> !should_push(st1, t2, m2, min_push_interval))
            &&& (t2 - t1 >= min_push_interval ==> should_push(st1, t2, m2, min_push_interval))
        }),
{
}

/// Client configuration after merging every source.
#[derive(Debug)]
pub struct Config {
    pub endpoint: String,
    pub token: String,
    pub device_id: String,
    pub device_name: String,
    pub idle_timeout_secs: u64,
    pub heartbeat_interval_secs: u64,
    pub music_poll_interval_secs: u64,
    pub music_push_min_interval_secs: u64,
    pub log_file: String,
    pub log_max_bytes: u64,
}

/// One configuration source: each field optional, absent fields defer to the
/// next source.
#[derive(Debug)]
pub struct ConfigFile {
    pub endpoint: Option<String>,
    pub token: Option<String>,
    pub device_id: Option<String>,
    pub device_name: Option<String>,
    pub idle_timeout_secs: Option<u64>,
    pub heartbeat_interval_secs: Option<u64>,
    pub music_poll_interval_secs: Option<u64>,
    pub music_push_min_interval_secs: Option<u64>,
    pub log_file: Option<String>,
    pub log_max_bytes: Option<u64>,
}

/// The first present value: the environment wins over the config file.
pub open spec fn pick<T>(env: Option<T>, file: Option<T>) -> Option<T> {
    if env is Some {
        env
    } else {
        file
    }
}

/// The first present value, or the built-in default.
pub open spec fn pick_or(env: Option<u64>, file: Option<u64>, default: u64) -> u64 {
    if env is Some {
        env->0
    } else if file is Some {
        file->0
    } else {
        default
    }
}

fn take_or<T>(env: Option<T>, file: Option<T>) -> (r: Option<T>)
    ensures
        r == pick(env, file),
{
    match env {
        Some(v) => Some(v),
        None => file,
    }
}

fn take_u64(env: Option<u64>, file: Option<u64>, default: u64) -> (r: u64)
    ensures
        r == pick_or(env, file, default),
{
    match env {
        Some(v) => v,
        None => match file {
            Some(v) => v,
            None => default,
        },
    }
}

/// Relies on `hostname::get`: the machine's hostname, when it can be read
/// and is valid Unicode.  The value depends on the machine, so nothing is
/// promised of it.
#[verifier::external_body]
fn read_hostname() -> (r: Option<String>) {
    hostname::get().ok().and_then(|v| v.into_string().ok())
}

/// The machine's hostname, or a fixed fallback name when it cannot be read.
pub fn hostname() -> (r: String) {
    match read_hostname() {
        Some(h) => h,
        None => String::from_str("unknown-device"),
    }
}

/// Merges the environment overrides, the config file and the built-in
/// defaults, the environment taking precedence key by key.  A device id
/// given by neither source falls back to the machine's hostname, and the
/// device name falls back to the device id.
pub fn resolve_config(env: ConfigFile, file: ConfigFile) -> (cfg: Config)
    ensures
        pick(env.endpoint, file.endpoint) is Some ==> cfg.endpoint == pick(
            env.endpoint,
            file.endpoint,
        )->0,
        pick(env.endpoint, file.endpoint) is None ==> cfg.endpoint@
            == "http://xxx.com:7999/heartbeat"@,
        pick(env.token, file.token) is Some ==> cfg.token == pick(env.token, file.token)->0,
        pick(env.token, file.token) is None ==> cfg.token@ == "you_token"@,
        pick(env.device_id, file.device_id) is Some ==> cfg.device_id == pick(
            env.device_id,
            file.device_id,
        )->0,
        pick(env.device_name, file.device_name) is Some ==> cfg.device_name == pick(
            env.device_name,
            file.device_name,
        )->0,
        pick(env.device_name, file.device_name) is None ==> cfg.device_name@ == cfg.device_id@,
        cfg.idle_timeout_secs == pick_or(env.idle_timeout_secs, file.idle_timeout_secs, 300),
        cfg.heartbeat_interval_secs == pick_or(
            env.heartbeat_interval_secs,
            file.heartbeat_interval_secs,
            60,
        ),
        cfg.music_poll_interval_secs == pick_or(
            env.music_poll_interval_secs,
            file.music_poll_interval_secs,
            5,
        ),
        cfg.music_push_min_interval_secs == pick_or(
            env.music_push_min_interval_secs,
            file.music_push_min_interval_secs,
            6,
        ),
        pick(env.log_file, file.log_file) is Some ==> cfg.log_file == pick(
            env.log_file,
            file.log_file,
        )->0,
        pick(env.log_file, file.log_file) is None ==> cfg.log_file@ == "status-client.log"@,
        cfg.log_max_bytes == pick_or(env.log_max_bytes, file.log_max_bytes, 2097152),
{
    let endpoint = match take_or(env.endpoint, file.endpoint) {
        Some(v) => v,
        None => String::from_str("http://xxx.com:7999/heartbeat"),
    };
    let token = match take_or(env.token, file.token) {
        Some(v) => v,
        None => String::from_str("you_token"),
    };
    let device_id = match take_or(env.device_id, file.device_id) {
        Some(v) => v,
        None => hostname(),
    };
    let device_name = match take_or(env.device_name, file.device_name) {
        Some(v) => v,
        None => device_id.clone(),
    };
    let log_file = match take_or(env.log_file, file.log_file) {
        Some(v) => v,
        None => String::from_str("status-client.log"),
    };
    Config {
        endpoint,
        token,
        device_id,
        device_name,
        idle_timeout_secs: take_u64(env.idle_timeout_secs, file.idle_timeout_secs, 300),
        heartbeat_interval_secs: take_u64(
            env.heartbeat_interval_secs,
            file.heartbeat_interval_secs,
            60,
        ),
        music_poll_interval_secs: take_u64(
            env.music_poll_interval_secs,
            file.music_poll_interval_secs,
            5,
        ),
        music_push_min_interval_secs: take_u64(
            env.music_push_min_interval_secs,
            file.music_push_min_interval_secs,
            6,
        ),
        log_file,
        log_max_bytes: take_u64(env.log_max_bytes, file.log_max_bytes, 2097152),
    }
}

/// Builds one heartbeat payload from the sampled probe values.  `online` is
/// the local judgement alone — idle for less than the configured timeout, or
/// optimistically online when the idle probe gave nothing; the latest media
/// snapshot always rides along.
pub fn build_payload(cfg: &Config, idle: Option<u64>, music: Option<MusicState>) -> (hb: Heartbeat)
    ensures
        hb.device_id == cfg.device_id,
        hb.device_name == cfg.device_name,
        hb.online == (match idle {
            Some(v) => v < cfg.idle_timeout_secs,
            None => true,
        }),
        hb.idle_seconds == idle,
        match music {
            Some(m) => hb.music_playing == m.playing && hb.music_title == m.title
                && hb.music_artist == m.artist && hb.music_source == m.source,
            None => hb.music_playing == false && hb.music_title is None && hb.music_artist is None
                && hb.music_source is None,
        },
{
    let online = match idle {
        Some(v) => v < cfg.idle_timeout_secs,
        None => true,
    };
    match music {
        Some(m) => Heartbeat {
            device_id: cfg.device_id.clone(),
            device_name: cfg.device_name.clone(),
            online,
            idle_seconds: idle,
            music_playing: m.playing,
            music_title: m.title,
            music_artist: m.artist,
            music_source: m.source,
        },
        None => Heartbeat {
            device_id: cfg.device_id.clone(),
            device_name: cfg.device_name.clone(),
            online,
            idle_seconds: idle,
            music_playing: false,
            music_title: None,
            music_artist: None,
            music_source: None,
        },
    }
}

/// Turns a raw idle reading in milliseconds into whole seconds; a failed
/// probe stays unknown.
pub fn idle_seconds(probe_millis: Option<u64>) -> (r: Option<u64>)
    ensures
        r is Some <==> probe_millis is Some,
        probe_millis is Some ==> r->0 == probe_millis->0 / 1000,
{
    match probe_millis {
        Some(ms) => Some(ms / 1000),
        None => None,
    }
}

/// The shared status flag after a push: `online` only when the collector
/// answered with success; a transport error or failure status leaves
/// `error`.
pub fn status_label(response_ok: Option<bool>) -> (r: &'static str)
    ensures
        response_ok == Some(true) ==> r@ == "online"@,
        response_ok != Some(true) ==> r@ == "error"@,
{
    match response_ok {
        Some(true) => "online",
        _ => "error",
    }
}

/// Whether the log file is over its cap and due for truncation; a cap of
/// zero disables the check.
pub fn should_truncate_log(size: u64, max_bytes: u64) -> (r: bool)
    ensures
        r == (max_bytes != 0 && size > max_bytes),
{
    max_bytes != 0 && size > max_bytes
}

} // verus!
