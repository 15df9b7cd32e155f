//! Turns the media probe's raw text report into an observed media state.
//!
//! The probe prints one line per player, tab-separated:
//! `status<TAB>title<TAB>artist<TAB>player`.  The first playing line wins;
//! failing that, the first non-blank line; a blank report means no media.

use vstd::prelude::*;
use vstd::string::*;

use crate::client::MusicState;
use crate::text::{
    clean_text, eq_ignore_ascii_case, eq_ignore_ascii_case_spec, escape, escaped, opt_text, split,
    split_spec, str_views, trim, trim_spec,
};

verus! {

/// A media state reduced to what it shows: the play flag and the texts.
pub struct MusicView {
    pub playing: bool,
    pub title: Option<Seq<char>>,
    pub artist: Option<Seq<char>>,
    pub source: Option<Seq<char>>,
}

/// The view of an observed media state.
pub open spec fn music_view(m: MusicState) -> MusicView {
    MusicView {
        playing: m.playing,
        title: opt_text(m.title),
        artist: opt_text(m.artist),
        source: opt_text(m.source),
    }
}

pub open spec fn opt_music_view(m: Option<MusicState>) -> Option<MusicView> {
    match m {
        Some(v) => Some(music_view(v)),
        None => None,
    }
}

/// The cleaned text of the field at `i`: trimmed, and dropped entirely when
/// absent or blank.
pub open spec fn field_clean(fields: Seq<Seq<char>>, i: int) -> Option<Seq<char>> {
    if 0 <= i < fields.len() {
        if trim_spec(fields[i]).len() > 0 {
            Some(trim_spec(fields[i]))
        } else {
            None
        }
    } else {
        None
    }
}

/// What one (non-blank) report line says: the first tab-separated field is
/// the raw playback status, the rest are cleaned texts.
pub open spec fn line_music(line: Seq<char>) -> MusicView {
    let fields = split_spec(trim_spec(line), '\t');
    MusicView {
        playing: eq_ignore_ascii_case_spec(fields[0], "playing"@),
        title: field_clean(fields, 1),
        artist: field_clean(fields, 2),
        source: field_clean(fields, 3),
    }
}

/// Scans report lines in order: a playing line wins at once; otherwise the
/// first non-blank line is remembered and returned at the end.
pub open spec fn scan_lines(lines: Seq<Seq<char>>, first: Option<MusicView>) -> Option<MusicView>
    decreases lines.len(),
{
    if lines.len() == 0 {
        first
    } else if trim_spec(lines[0]).len() == 0 {
        scan_lines(lines.skip(1), first)
    } else {
        let mv = line_music(lines[0]);
        if mv.playing {
            Some(mv)
        } else {
            scan_lines(
                lines.skip(1),
                if first is Some {
                    first
                } else {
                    Some(mv)
                },
            )
        }
    }
}

/// What a whole probe report means.
pub open spec fn parse_music_report(s: Seq<char>) -> Option<MusicView> {
    scan_lines(split_spec(s, '\n'), None)
}

/// The text of an optional field as it goes into the report, absent fields
/// as empty.
pub open spec fn text_or_empty(o: Option<String>) -> Seq<char> {
    match o {
        Some(s) => s@,
        None => Seq::empty(),
    }
}

/// The one-line JSON report a standalone probe prints: a fixed no-session
/// shape, or the observed state with every text escaped for its place
/// between double quotes.
pub open spec fn probe_report_spec(m: Option<&MusicState>) -> Seq<char> {
    match m {
        None => "{\"ok\":false,\"reason\":\"no_session\"}"@,
        Some(s) => "{\"ok\":true,\"playing\":"@ + (if s.playing {
            "true"@
        } else {
            "false"@
        }) + ",\"title\":\""@ + escaped(text_or_empty(s.title)) + "\",\"artist\":\""@ + escaped(
            text_or_empty(s.artist),
        ) + "\",\"source\":\""@ + escaped(text_or_empty(s.source)) + "\"}"@,
    }
}

fn escape_or_empty(o: &Option<String>) -> (r: String)
    ensures
        r@ == escaped(text_or_empty(*o)),
{
    match o {
        Some(s) => escape(s.as_str()),
        None => {
            proof {
                assert(escaped(Seq::<char>::empty()) == Seq::<char>::empty());
            }
            String::new()
        },
    }
}

/// Renders the probe's one-line JSON report.
pub fn probe_report(m: Option<&MusicState>) -> (r: String)
    ensures
        r@ == probe_report_spec(m),
{
    match m {
        None => String::from_str("{\"ok\":false,\"reason\":\"no_session\"}"),
        Some(s) => {
            let mut out = String::from_str("{\"ok\":true,\"playing\":");
            out.append(if s.playing {
                "true"
            } else {
                "false"
            });
            out.append(",\"title\":\"");
            let title = escape_or_empty(&s.title);
            out.append(title.as_str());
            out.append("\",\"artist\":\"");
            let artist = escape_or_empty(&s.artist);
            out.append(artist.as_str());
            out.append("\",\"source\":\"");
            let source = escape_or_empty(&s.source);
            out.append(source.as_str());
            out.append("\"}");
            proof {
                assert(out@ =~= probe_report_spec(m));
            }
            out
        },
    }
}

fn clean_field(fields: &Vec<String>, i: usize) -> (r: Option<String>)
    ensures
        opt_text(r) == field_clean(str_views(fields@), i as int),
{
    if i < fields.len() {
        clean_text(Some(fields[i].as_str()))
    } else {
        None
    }
}

/// Reads the probe's report, if there was one, into the observed media
/// state: the first playing player, else the first player seen at all.
pub fn current_music(report: Option<&str>) -> (r: Option<MusicState>)
    ensures
        report is None ==> r is None,
        report is Some ==> opt_music_view(r) == parse_music_report(report->0@),
{
    let text = match report {
        Some(t) => t,
        None => {
            return None;
        },
    };
    let lines = split(text, '\n');
    let ghost line_views = str_views(lines@);
    let n = lines.len();
    let mut first: Option<MusicState> = None;
    let mut i: usize = 0;
    proof {
        assert(line_views.skip(0) =~= line_views);
    }
    while i < n
        invariant
            i <= n,
            n == lines@.len(),
            report is Some,
            text@ == report->0@,
            line_views == str_views(lines@),
            line_views == split_spec(text@, '\n'),
            parse_music_report(text@) == scan_lines(line_views.skip(i as int), opt_music_view(first)),
        decreases n - i,
    {
        proof {
            assert(line_views.skip(i as int)[0] == line_views[i as int]);
            assert(line_views.skip(i as int).skip(1) =~= line_views.skip(i as int + 1));
        }
        let t = trim(lines[i].as_str());
        if t.unicode_len() == 0 {
            i = i + 1;
        } else {
            let fields = split(t, '\t');
            proof {
                assert(str_views(fields@)[0] == fields@[0]@);
            }
            let playing = eq_ignore_ascii_case(fields[0].as_str(), "playing");
            let title = clean_field(&fields, 1);
            let artist = clean_field(&fields, 2);
            let source = clean_field(&fields, 3);
            let state = MusicState { playing, title, artist, source };
            proof {
                assert(music_view(state) == line_music(line_views[i as int]));
            }
            if playing {
                return Some(state);
            }
            if first.is_none() {
                first = Some(state);
            }
            i = i + 1;
        }
    }
    proof {
        assert(line_views.skip(n as int) =~= Seq::<Seq<char>>::empty());
    }
    first
}

} // verus!
