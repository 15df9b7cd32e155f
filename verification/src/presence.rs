//! The server-side presence store and reconciliation rules.
//!
//! One record per device, kept sorted by device id, plus a single global
//! manual-offline switch.  Heartbeats upsert a device's row but never touch
//! its manual-offline flag; a separate partial status update may change any
//! field, including the override.  The effective online view is derived on
//! every read and never stored.

use vstd::pervasive::VecAdditionalExecFns;
use vstd::prelude::*;
use vstd::string::*;

use crate::STALE_WINDOW_SECS;
use crate::text::{lex_lt, lemma_lex_total, lemma_lex_trans, str_eq, str_lt};

verus! {

/// A device's last known media state, as the collector stores it.
#[derive(Debug)]
pub struct MediaSnapshot {
    pub playing: bool,
    pub title: Option<String>,
    pub artist: Option<String>,
    pub source: Option<String>,
    pub updated_at: Option<i64>,
}

/// One device's durable row.
#[derive(Debug)]
pub struct DeviceRecord {
    pub device_id: String,
    pub device_name: String,
    /// The last value the device itself claimed.
    pub reported_online: bool,
    /// Server receive time of the last accepted heartbeat or asserted state.
    pub last_seen: i64,
    pub idle_seconds: Option<u64>,
    /// Per-device override; persists across heartbeats.
    pub manual_offline: bool,
    pub media: MediaSnapshot,
}

/// The single global manual-offline switch.
#[derive(Debug, Clone, Copy, PartialEq, Eq, Structural)]
pub struct GlobalControl {
    pub manual_offline: bool,
    pub updated_at: i64,
}

/// A full heartbeat report, as a device sends it.
#[derive(Debug)]
pub struct Heartbeat {
    pub device_id: String,
    pub device_name: String,
    pub online: bool,
    pub idle_seconds: Option<u64>,
    pub music_playing: bool,
    pub music_title: Option<String>,
    pub music_artist: Option<String>,
    pub music_source: Option<String>,
}

/// A partial, field-by-field device update; absent fields keep their stored
/// value.
#[derive(Debug)]
pub struct StatusUpdate {
    pub device_id: String,
    pub device_name: Option<String>,
    pub online: Option<bool>,
    pub manual_offline: Option<bool>,
    pub music_playing: Option<bool>,
    pub music_title: Option<String>,
    pub music_artist: Option<String>,
    pub music_source: Option<String>,
}

/// The derived per-device view handed to status readers; never stored.
#[derive(Debug)]
pub struct EffectiveStatus {
    pub device_id: String,
    pub device_name: String,
    /// The reconciled online verdict.
    pub online: bool,
    pub last_seen: i64,
    pub idle_seconds: Option<u64>,
    /// The raw per-device override, surfaced verbatim.
    pub manual_offline: bool,
    /// The raw global override, surfaced verbatim.
    pub global_manual_offline: bool,
    pub media: MediaSnapshot,
}

/// The whole server-side state: the device rows and the global switch.
#[derive(Debug)]
pub struct PresenceStore {
    pub devices: Vec<DeviceRecord>,
    pub global: GlobalControl,
}

/// What ingesting a heartbeat came to.
#[derive(Debug, Clone, Copy, PartialEq, Eq, Structural)]
pub enum IngestOutcome {
    /// The row was upserted.
    Accepted,
    /// The token did not match; nothing changed.
    Unauthorized,
    /// The global switch is on: the heartbeat was read and discarded.
    Suppressed,
}

/// What a status update or global-switch write came to.
#[derive(Debug, Clone, Copy, PartialEq, Eq, Structural)]
pub enum UpdateOutcome {
    Applied,
    Unauthorized,
}

/// What a device delete came to.
#[derive(Debug, Clone, Copy, PartialEq, Eq, Structural)]
pub enum DeleteOutcome {
    /// The request was honored (deleting an unknown device is a no-op).
    Deleted,
    Unauthorized,
}

/// Rows strictly sorted by device id: ids are unique and every read comes
/// out in a deterministic order.
pub open spec fn devices_sorted(s: Seq<DeviceRecord>) -> bool {
    forall|i: int, j: int|
        0 <= i < j < s.len() ==> lex_lt(
            #[trigger] s[i].device_id@,
            #[trigger] s[j].device_id@,
        )
}

/// The store's invariant.
pub open spec fn store_wf(s: PresenceStore) -> bool {
    devices_sorted(s.devices@)
}

/// The index of the row with the given id, or -1.
pub open spec fn spec_find(s: Seq<DeviceRecord>, k: Seq<char>) -> int
    decreases s.len(),
{
    if s.len() == 0 {
        -1
    } else if s[0].device_id@ == k {
        0
    } else {
        let r = spec_find(s.skip(1), k);
        if r < 0 {
            -1
        } else {
            r + 1
        }
    }
}

pub proof fn lemma_spec_find_at(s: Seq<DeviceRecord>, k: Seq<char>, i: int)
    requires
        0 <= i < s.len(),
        s[i].device_id@ == k,
        forall|j: int| 0 <= j < i ==> (#[trigger] s[j].device_id@) != k,
    ensures
        spec_find(s, k) == i,
    decreases i,
{
    if i > 0 {
        lemma_spec_find_at(s.skip(1), k, i - 1);
    }
}

proof fn lemma_lex_irrefl(a: Seq<char>)
    ensures
        !lex_lt(a, a),
    decreases a.len(),
{
    if a.len() > 0 {
        lemma_lex_irrefl(a.skip(1));
    }
}

/// In a well-formed store every row is found at its own index.
pub proof fn lemma_find_self(s: PresenceStore, i: int)
    requires
        store_wf(s),
        0 <= i < s.devices@.len(),
    ensures
        spec_find(s.devices@, s.devices@[i].device_id@) == i,
{
    let k = s.devices@[i].device_id@;
    assert forall|j: int| 0 <= j < i implies (#[trigger] s.devices@[j].device_id@) != k by {
        lemma_lex_irrefl(k);
    }
    lemma_spec_find_at(s.devices@, k, i);
}

proof fn lemma_find_self_all(s: PresenceStore)
    requires
        store_wf(s),
    ensures
        forall|j: int|
            0 <= j < s.devices@.len() ==> #[trigger] spec_find(
                s.devices@,
                s.devices@[j].device_id@,
            ) == j,
{
    assert forall|j: int| 0 <= j < s.devices@.len() implies #[trigger] spec_find(
        s.devices@,
        s.devices@[j].device_id@,
    ) == j by {
        lemma_find_self(s, j);
    }
}

/// The reconciliation rule itself: online only when no override is set, the
/// device said so, and the report is fresh.
pub open spec fn effective_online(now: i64, global_manual_offline: bool, d: DeviceRecord) -> bool {
    &&& !global_manual_offline
    &&& !d.manual_offline
    &&& d.reported_online
    &&& now - d.last_seen <= STALE_WINDOW_SECS
}

/// The status row derived for one device.
pub open spec fn effective_view(now: i64, g: GlobalControl, d: DeviceRecord) -> EffectiveStatus {
    EffectiveStatus {
        device_id: d.device_id,
        device_name: d.device_name,
        online: effective_online(now, g.manual_offline, d),
        last_seen: d.last_seen,
        idle_seconds: d.idle_seconds,
        manual_offline: d.manual_offline,
        global_manual_offline: g.manual_offline,
        media: d.media,
    }
}

/// The global override forces every device offline, whatever its own fields
/// say.
pub proof fn lemma_global_override_forces_offline(now: i64, g: GlobalControl, d: DeviceRecord)
    requires
        g.manual_offline,
    ensures
        !effective_view(now, g, d).online,
{
}

/// A device's own manual-offline flag forces it offline, even while it
/// reports online and was seen this instant.
pub proof fn lemma_device_override_forces_offline(now: i64, g: GlobalControl, d: DeviceRecord)
    requires
        d.manual_offline,
    ensures
        !effective_view(now, g, d).online,
{
}

/// A report older than the staleness window forces the device offline, even
/// while it reports online.
pub proof fn lemma_staleness_forces_offline(now: i64, g: GlobalControl, d: DeviceRecord)
    requires
        now - d.last_seen > STALE_WINDOW_SECS,
    ensures
        !effective_view(now, g, d).online,
{
}

fn clone_opt_string(o: &Option<String>) -> (r: Option<String>)
    ensures
        r == *o,
{
    match o {
        None => None,
        Some(s) => Some(s.clone()),
    }
}

fn clone_media(m: &MediaSnapshot) -> (r: MediaSnapshot)
    ensures
        r == *m,
{
    MediaSnapshot {
        playing: m.playing,
        title: clone_opt_string(&m.title),
        artist: clone_opt_string(&m.artist),
        source: clone_opt_string(&m.source),
        updated_at: m.updated_at,
    }
}

/// Computes the effective status of every device, in store order (ascending
/// device id).  Pure: recomputed on every read, never cached.
pub fn compute_status(now: i64, store: &PresenceStore) -> (r: Vec<EffectiveStatus>)
    requires
        store_wf(*store),
    ensures
        r@.len() == store.devices@.len(),
        forall|i: int|
            0 <= i < r@.len() ==> r@[i] == effective_view(now, store.global, store.devices@[i]),
        forall|i: int, j: int|
            0 <= i < j < r@.len() ==> lex_lt(
                #[trigger] r@[i].device_id@,
                #[trigger] r@[j].device_id@,
            ),
{
    let n = store.devices.len();
    let mut r: Vec<EffectiveStatus> = Vec::new();
    let mut i: usize = 0;
    while i < n
        invariant
            i <= n,
            n == store.devices@.len(),
            r@.len() == i,
            forall|k: int|
                0 <= k < i ==> r@[k] == effective_view(now, store.global, store.devices@[k]),
        decreases n - i,
    {
        let d = &store.devices[i];
        let fresh = (now as i128) - (d.last_seen as i128) <= STALE_WINDOW_SECS as i128;
        let online = !store.global.manual_offline && !d.manual_offline && d.reported_online
            && fresh;
        let row = EffectiveStatus {
            device_id: d.device_id.clone(),
            device_name: d.device_name.clone(),
            online,
            last_seen: d.last_seen,
            idle_seconds: d.idle_seconds,
            manual_offline: d.manual_offline,
            global_manual_offline: store.global.manual_offline,
            media: clone_media(&d.media),
        };
        r.push(row);
        i = i + 1;
    }
    r
}

/// Whether the presented credentials match the expected token: either the
/// dedicated token header, or a bearer-style authorization header.
pub open spec fn spec_authorized(
    x_token: Option<Seq<char>>,
    authorization: Option<Seq<char>>,
    token: Seq<char>,
) -> bool {
    if x_token is Some && x_token->0 == token {
        true
    } else {
        match authorization {
            Some(h) => h.len() >= 7 && h.take(7) == "Bearer "@ && h.skip(7) == token,
            None => false,
        }
    }
}

/// The view of an optional borrowed string.
pub open spec fn opt_str_text(o: Option<&str>) -> Option<Seq<char>> {
    match o {
        Some(s) => Some(s@),
        None => None,
    }
}

/// The row a heartbeat leaves behind: every reported field overwritten, the
/// stored manual-offline flag carried over untouched.
pub open spec fn heartbeat_record(hb: Heartbeat, prev_manual_offline: bool, now: i64) -> DeviceRecord {
    DeviceRecord {
        device_id: hb.device_id,
        device_name: hb.device_name,
        reported_online: hb.online,
        last_seen: now,
        idle_seconds: hb.idle_seconds,
        manual_offline: prev_manual_offline,
        media: MediaSnapshot {
            playing: hb.music_playing,
            title: hb.music_title,
            artist: hb.music_artist,
            source: hb.music_source,
            updated_at: Some(now),
        },
    }
}

/// Whether a partial update carries any music field at all.
pub open spec fn has_music_field(u: StatusUpdate) -> bool {
    ||| u.music_playing is Some
    ||| u.music_title is Some
    ||| u.music_artist is Some
    ||| u.music_source is Some
}

/// The row a partial update leaves behind: present fields overwrite, absent
/// fields keep the prior value.  Asserting `online` resets `last_seen` and
/// clears the idle sample; media's `updated_at` only advances when at least
/// one music field was present.
pub open spec fn update_merge(prev: DeviceRecord, u: StatusUpdate, now: i64) -> DeviceRecord {
    DeviceRecord {
        device_id: prev.device_id,
        device_name: if u.device_name is Some {
            u.device_name->0
        } else {
            prev.device_name
        },
        reported_online: if u.online is Some {
            u.online->0
        } else {
            prev.reported_online
        },
        last_seen: if u.online is Some {
            now
        } else {
            prev.last_seen
        },
        idle_seconds: if u.online is Some {
            None
        } else {
            prev.idle_seconds
        },
        manual_offline: if u.manual_offline is Some {
            u.manual_offline->0
        } else {
            prev.manual_offline
        },
        media: MediaSnapshot {
            playing: if u.music_playing is Some {
                u.music_playing->0
            } else {
                prev.media.playing
            },
            title: if u.music_title is Some {
                u.music_title
            } else {
                prev.media.title
            },
            artist: if u.music_artist is Some {
                u.music_artist
            } else {
                prev.media.artist
            },
            source: if u.music_source is Some {
                u.music_source
            } else {
                prev.media.source
            },
            updated_at: if has_music_field(u) {
                Some(now)
            } else {
                prev.media.updated_at
            },
        },
    }
}

/// The row a partial update creates for a device never seen before.
pub open spec fn fresh_record(device_id: String, now: i64) -> DeviceRecord {
    DeviceRecord {
        device_id: device_id,
        device_name: device_id,
        reported_online: false,
        last_seen: now,
        idle_seconds: None,
        manual_offline: false,
        media: MediaSnapshot {
            playing: false,
            title: None,
            artist: None,
            source: None,
            updated_at: None,
        },
    }
}

proof fn lemma_spec_find_none(s: Seq<DeviceRecord>, k: Seq<char>)
    requires
        forall|j: int| 0 <= j < s.len() ==> (#[trigger] s[j].device_id@) != k,
    ensures
        spec_find(s, k) == -1,
    decreases s.len(),
{
    if s.len() > 0 {
        assert forall|j: int| 0 <= j < s.skip(1).len() implies (#[trigger] s.skip(
            1,
        )[j].device_id@) != k by {
            assert(s.skip(1)[j] == s[j + 1]);
        }
        lemma_spec_find_none(s.skip(1), k);
    }
}

proof fn lemma_insert_sorted(s: Seq<DeviceRecord>, rec: DeviceRecord, i: int)
    requires
        devices_sorted(s),
        0 <= i <= s.len(),
        forall|j: int| 0 <= j < i ==> lex_lt((#[trigger] s[j].device_id@), rec.device_id@),
        i < s.len() ==> lex_lt(rec.device_id@, s[i].device_id@),
    ensures
        devices_sorted(s.insert(i, rec)),
{
    let t = s.insert(i, rec);
    assert forall|p: int, q: int| 0 <= p < q < t.len() implies lex_lt(
        (#[trigger] t[p].device_id@),
        (#[trigger] t[q].device_id@),
    ) by {
        if p < i {
            assert(t[p] == s[p]);
        } else if p == i {
            assert(t[p] == rec);
        } else {
            assert(t[p] == s[p - 1]);
        }
        if q < i {
            assert(t[q] == s[q]);
        } else if q == i {
            assert(t[q] == rec);
        } else {
            assert(t[q] == s[q - 1]);
        }
        if p == i && q > i && q - 1 > i {
            lemma_lex_trans(rec.device_id@, s[i].device_id@, s[q - 1].device_id@);
        }
    }
}

proof fn lemma_update_same_key_sorted(s: Seq<DeviceRecord>, i: int, rec: DeviceRecord)
    requires
        devices_sorted(s),
        0 <= i < s.len(),
        rec.device_id@ == s[i].device_id@,
    ensures
        devices_sorted(s.update(i, rec)),
{
    let t = s.update(i, rec);
    assert forall|p: int, q: int| 0 <= p < q < t.len() implies lex_lt(
        (#[trigger] t[p].device_id@),
        (#[trigger] t[q].device_id@),
    ) by {
        assert(t[p].device_id@ == s[p].device_id@);
        assert(t[q].device_id@ == s[q].device_id@);
    }
}

proof fn lemma_remove_sorted(s: Seq<DeviceRecord>, i: int)
    requires
        devices_sorted(s),
        0 <= i < s.len(),
    ensures
        devices_sorted(s.remove(i)),
{
    let t = s.remove(i);
    assert forall|p: int, q: int| 0 <= p < q < t.len() implies lex_lt(
        (#[trigger] t[p].device_id@),
        (#[trigger] t[q].device_id@),
    ) by {
        if p < i {
            assert(t[p] == s[p]);
        } else {
            assert(t[p] == s[p + 1]);
        }
        if q < i {
            assert(t[q] == s[q]);
        } else {
            assert(t[q] == s[q + 1]);
        }
    }
}

/// Finds the slot of a device id in the sorted rows: either its index, or
/// the insertion point that keeps the rows sorted.
fn find_slot(devices: &Vec<DeviceRecord>, key: &str) -> (r: (usize, bool))
    requires
        devices_sorted(devices@),
    ensures
        r.0 <= devices@.len(),
        r.1 ==> r.0 < devices@.len() && devices@[r.0 as int].device_id@ == key@ && spec_find(
            devices@,
            key@,
        ) == r.0 as int,
        !r.1 ==> spec_find(devices@, key@) == -1 && (forall|j: int|
            0 <= j < r.0 ==> lex_lt((#[trigger] devices@[j].device_id@), key@)) && (r.0
            < devices@.len() ==> lex_lt(key@, devices@[r.0 as int].device_id@)),
{
    let n = devices.len();
    let mut i: usize = 0;
    while i < n && str_lt(devices[i].device_id.as_str(), key)
        invariant
            i <= n,
            n == devices@.len(),
            devices_sorted(devices@),
            forall|j: int| 0 <= j < i ==> lex_lt((#[trigger] devices@[j].device_id@), key@),
        decreases n - i,
    {
        i = i + 1;
    }
    if i < n && str_eq(devices[i].device_id.as_str(), key) {
        proof {
            assert forall|j: int| 0 <= j < i implies (#[trigger] devices@[j].device_id@)
                != key@ by {
                lemma_lex_irrefl(key@);
            }
            lemma_spec_find_at(devices@, key@, i as int);
        }
        (i, true)
    } else {
        proof {
            if i < n {
                lemma_lex_total(key@, devices@[i as int].device_id@);
                lemma_lex_irrefl(key@);
            }
            assert forall|j: int| 0 <= j < devices@.len() implies (
            #[trigger] devices@[j].device_id@) != key@ by {
                lemma_lex_irrefl(key@);
                if j >= i {
                    if j > i {
                        lemma_lex_trans(key@, devices@[i as int].device_id@, devices@[j].device_id@);
                    }
                }
            }
            lemma_spec_find_none(devices@, key@);
        }
        (i, false)
    }
}

/// Ingests one heartbeat: rejects a bad token, swallows the report whole
/// while the global switch is on, and otherwise upserts the device's row.
/// The stored manual-offline flag is never set by a heartbeat: an existing
/// row keeps its value and a new row starts with it clear.
pub fn ingest(
    store: &mut PresenceStore,
    expected_token: &str,
    x_token: Option<&str>,
    authorization: Option<&str>,
    now: i64,
    hb: Heartbeat,
) -> (r: IngestOutcome)
    requires
        store_wf(*old(store)),
    ensures
        store_wf(*final(store)),
        (r == IngestOutcome::Unauthorized) <==> !spec_authorized(
            opt_str_text(x_token),
            opt_str_text(authorization),
            expected_token@,
        ),
        (r == IngestOutcome::Suppressed) <==> (spec_authorized(
            opt_str_text(x_token),
            opt_str_text(authorization),
            expected_token@,
        ) && old(store).global.manual_offline),
        (r == IngestOutcome::Accepted) <==> (spec_authorized(
            opt_str_text(x_token),
            opt_str_text(authorization),
            expected_token@,
        ) && !old(store).global.manual_offline),
        r != IngestOutcome::Accepted ==> *final(store) == *old(store),
        r == IngestOutcome::Accepted ==> final(store).global == old(store).global && ({
            let fi = spec_find(old(store).devices@, hb.device_id@);
            if fi >= 0 {
                final(store).devices@ == old(store).devices@.update(
                    fi,
                    heartbeat_record(hb, old(store).devices@[fi].manual_offline, now),
                )
            } else {
                exists|i: int|
                    0 <= i <= old(store).devices@.len() && final(store).devices@ == old(
                        store,
                    ).devices@.insert(i, heartbeat_record(hb, false, now))
            }
        }),
        forall|j: int|
            0 <= j < final(store).devices@.len() ==> ({
                let fi = spec_find(
                    old(store).devices@,
                    (#[trigger] final(store).devices@[j]).device_id@,
                );
                &&& fi >= 0 ==> final(store).devices@[j].manual_offline == old(
                    store,
                ).devices@[fi].manual_offline
                &&& fi < 0 ==> final(store).devices@[j].manual_offline == false
            }),
{
    if !authorized(x_token, authorization, expected_token) {
        proof {
            lemma_find_self_all(*store);
        }
        return IngestOutcome::Unauthorized;
    }
    if store.global.manual_offline {
        proof {
            lemma_find_self_all(*store);
        }
        return IngestOutcome::Suppressed;
    }
    let (slot, found) = find_slot(&store.devices, hb.device_id.as_str());
    if found {
        let prev_manual = store.devices[slot].manual_offline;
        let ghost prev_seq = store.devices@;
        let rec = DeviceRecord {
            device_id: hb.device_id,
            device_name: hb.device_name,
            reported_online: hb.online,
            last_seen: now,
            idle_seconds: hb.idle_seconds,
            manual_offline: prev_manual,
            media: MediaSnapshot {
                playing: hb.music_playing,
                title: hb.music_title,
                artist: hb.music_artist,
                source: hb.music_source,
                updated_at: Some(now),
            },
        };
        proof {
            lemma_update_same_key_sorted(prev_seq, slot as int, rec);
        }
        store.devices.set(slot, rec);
        proof {
            lemma_find_self_all(*old(store));
        }
        IngestOutcome::Accepted
    } else {
        let ghost prev_seq = store.devices@;
        let rec = DeviceRecord {
            device_id: hb.device_id,
            device_name: hb.device_name,
            reported_online: hb.online,
            last_seen: now,
            idle_seconds: hb.idle_seconds,
            manual_offline: false,
            media: MediaSnapshot {
                playing: hb.music_playing,
                title: hb.music_title,
                artist: hb.music_artist,
                source: hb.music_source,
                updated_at: Some(now),
            },
        };
        proof {
            lemma_insert_sorted(prev_seq, rec, slot as int);
        }
        store.devices.insert(slot, rec);
        proof {
            lemma_find_self_all(*old(store));
            let t = store.devices@;
            assert(t == prev_seq.insert(slot as int, rec));
            assert forall|j: int| 0 <= j < t.len() implies ({
                let fi = spec_find(old(store).devices@, (#[trigger] t[j]).device_id@);
                &&& fi >= 0 ==> t[j].manual_offline == old(store).devices@[fi].manual_offline
                &&& fi < 0 ==> t[j].manual_offline == false
            }) by {
                if j < slot as int {
                    assert(t[j] == prev_seq[j]);
                } else if j == slot as int {
                    assert(t[j] == rec);
                } else {
                    assert(t[j] == prev_seq[j - 1]);
                }
            }
        }
        IngestOutcome::Accepted
    }
}

/// Applies a partial device update: present fields overwrite, absent fields
/// keep the stored value, and a device never seen before gets a fresh row.
/// An omitted manual-offline field never changes the stored flag.
pub fn apply_status_update(
    store: &mut PresenceStore,
    expected_token: &str,
    x_token: Option<&str>,
    authorization: Option<&str>,
    now: i64,
    upd: StatusUpdate,
) -> (r: UpdateOutcome)
    requires
        store_wf(*old(store)),
    ensures
        store_wf(*final(store)),
        (r == UpdateOutcome::Applied) <==> spec_authorized(
            opt_str_text(x_token),
            opt_str_text(authorization),
            expected_token@,
        ),
        r == UpdateOutcome::Unauthorized ==> *final(store) == *old(store),
        r == UpdateOutcome::Applied ==> final(store).global == old(store).global && ({
            let fi = spec_find(old(store).devices@, upd.device_id@);
            if fi >= 0 {
                final(store).devices@ == old(store).devices@.update(
                    fi,
                    update_merge(old(store).devices@[fi], upd, now),
                )
            } else {
                exists|i: int|
                    0 <= i <= old(store).devices@.len() && final(store).devices@ == old(
                        store,
                    ).devices@.insert(i, update_merge(fresh_record(upd.device_id, now), upd, now))
            }
        }),
        upd.manual_offline is None ==> forall|j: int|
            0 <= j < final(store).devices@.len() ==> ({
                let fi = spec_find(
                    old(store).devices@,
                    (#[trigger] final(store).devices@[j]).device_id@,
                );
                &&& fi >= 0 ==> final(store).devices@[j].manual_offline == old(
                    store,
                ).devices@[fi].manual_offline
                &&& fi < 0 ==> final(store).devices@[j].manual_offline == false
            }),
{
    if !authorized(x_token, authorization, expected_token) {
        proof {
            lemma_find_self_all(*store);
        }
        return UpdateOutcome::Unauthorized;
    }
    let any_music = upd.music_playing.is_some() || upd.music_title.is_some()
        || upd.music_artist.is_some() || upd.music_source.is_some();
    let (slot, found) = find_slot(&store.devices, upd.device_id.as_str());
    if found {
        let ghost prev_seq = store.devices@;
        let merged = {
            let prev = &store.devices[slot];
            DeviceRecord {
                device_id: prev.device_id.clone(),
                device_name: match upd.device_name {
                    Some(v) => v,
                    None => prev.device_name.clone(),
                },
                reported_online: match upd.online {
                    Some(b) => b,
                    None => prev.reported_online,
                },
                last_seen: if upd.online.is_some() {
                    now
                } else {
                    prev.last_seen
                },
                idle_seconds: if upd.online.is_some() {
                    None
                } else {
                    prev.idle_seconds
                },
                manual_offline: match upd.manual_offline {
                    Some(b) => b,
                    None => prev.manual_offline,
                },
                media: MediaSnapshot {
                    playing: match upd.music_playing {
                        Some(b) => b,
                        None => prev.media.playing,
                    },
                    title: match upd.music_title {
                        Some(v) => Some(v),
                        None => clone_opt_string(&prev.media.title),
                    },
                    artist: match upd.music_artist {
                        Some(v) => Some(v),
                        None => clone_opt_string(&prev.media.artist),
                    },
                    source: match upd.music_source {
                        Some(v) => Some(v),
                        None => clone_opt_string(&prev.media.source),
                    },
                    updated_at: if any_music {
                        Some(now)
                    } else {
                        prev.media.updated_at
                    },
                },
            }
        };
        proof {
            lemma_update_same_key_sorted(prev_seq, slot as int, merged);
        }
        store.devices.set(slot, merged);
        proof {
            lemma_find_self_all(*old(store));
        }
        UpdateOutcome::Applied
    } else {
        let ghost prev_seq = store.devices@;
        let merged = DeviceRecord {
            device_id: upd.device_id.clone(),
            device_name: match upd.device_name {
                Some(v) => v,
                None => upd.device_id,
            },
            reported_online: match upd.online {
                Some(b) => b,
                None => false,
            },
            last_seen: now,
            idle_seconds: None,
            manual_offline: match upd.manual_offline {
                Some(b) => b,
                None => false,
            },
            media: MediaSnapshot {
                playing: match upd.music_playing {
                    Some(b) => b,
                    None => false,
                },
                title: upd.music_title,
                artist: upd.music_artist,
                source: upd.music_source,
                updated_at: if any_music {
                    Some(now)
                } else {
                    None
                },
            },
        };
        proof {
            assert(merged == update_merge(fresh_record(upd.device_id, now), upd, now));
            lemma_insert_sorted(prev_seq, merged, slot as int);
        }
        store.devices.insert(slot, merged);
        proof {
            lemma_find_self_all(*old(store));
            let t = store.devices@;
            assert forall|j: int| 0 <= j < t.len() implies ({
                let fi = spec_find(old(store).devices@, (#[trigger] t[j]).device_id@);
                &&& fi >= 0 ==> (upd.manual_offline is None ==> t[j].manual_offline == old(
                    store,
                ).devices@[fi].manual_offline)
                &&& fi < 0 ==> (upd.manual_offline is None ==> t[j].manual_offline == false)
            }) by {
                if j < slot as int {
                    assert(t[j] == prev_seq[j]);
                } else if j == slot as int {
                    assert(t[j] == merged);
                } else {
                    assert(t[j] == prev_seq[j - 1]);
                }
            }
        }
        UpdateOutcome::Applied
    }
}

/// Sets or clears the global manual-offline switch.
pub fn set_global_manual(
    store: &mut PresenceStore,
    expected_token: &str,
    x_token: Option<&str>,
    authorization: Option<&str>,
    now: i64,
    value: bool,
) -> (r: UpdateOutcome)
    requires
        store_wf(*old(store)),
    ensures
        store_wf(*final(store)),
        (r == UpdateOutcome::Applied) <==> spec_authorized(
            opt_str_text(x_token),
            opt_str_text(authorization),
            expected_token@,
        ),
        r == UpdateOutcome::Unauthorized ==> *final(store) == *old(store),
        r == UpdateOutcome::Applied ==> final(store).devices == old(store).devices
            && final(store).global == (GlobalControl { manual_offline: value, updated_at: now }),
{
    if !authorized(x_token, authorization, expected_token) {
        return UpdateOutcome::Unauthorized;
    }
    store.global = GlobalControl { manual_offline: value, updated_at: now };
    UpdateOutcome::Applied
}

/// Deletes a device's row; deleting an unknown device is a no-op.  The token
/// here comes as a plain query parameter and is compared directly.
pub fn remove_device(
    store: &mut PresenceStore,
    expected_token: &str,
    token: &str,
    device_id: &str,
) -> (r: DeleteOutcome)
    requires
        store_wf(*old(store)),
    ensures
        store_wf(*final(store)),
        (r == DeleteOutcome::Deleted) <==> token@ == expected_token@,
        r == DeleteOutcome::Unauthorized ==> *final(store) == *old(store),
        r == DeleteOutcome::Deleted ==> final(store).global == old(store).global && ({
            let fi = spec_find(old(store).devices@, device_id@);
            if fi >= 0 {
                final(store).devices@ == old(store).devices@.remove(fi)
            } else {
                *final(store) == *old(store)
            }
        }),
{
    if !str_eq(token, expected_token) {
        return DeleteOutcome::Unauthorized;
    }
    let (slot, found) = find_slot(&store.devices, device_id);
    if found {
        proof {
            lemma_remove_sorted(store.devices@, slot as int);
        }
        store.devices.remove(slot);
    }
    DeleteOutcome::Deleted
}

/// Stateless per-request token check over the two accepted header shapes.
pub fn authorized(x_token: Option<&str>, authorization: Option<&str>, token: &str) -> (r: bool)
    ensures
        r == spec_authorized(opt_str_text(x_token), opt_str_text(authorization), token@),
{
    if let Some(x) = x_token {
        if str_eq(x, token) {
            return true;
        }
    }
    if let Some(h) = authorization {
        let n = h.unicode_len();
        if n >= 7 {
            let prefix = h.substring_char(0, 7);
            if str_eq(prefix, "Bearer ") {
                let rest = h.substring_char(7, n);
                proof {
                    assert(h@.subrange(0, 7) =~= h@.take(7));
                    assert(h@.subrange(7, n as int) =~= h@.skip(7));
                }
                return str_eq(rest, token);
            }
            proof {
                assert(h@.subrange(0, 7) =~= h@.take(7));
            }
        }
    }
    false
}

} // verus!
