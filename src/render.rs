//! One repaint: a header, a separator and one labelled line per zone request,
//! all rendered from a single sampled instant.
use vstd::prelude::*;
use crate::alias::{resolve_alias, resolved, local_sentinel};

verus! {

/// Earliest instant handled: 0001-01-01T00:00:00Z, in seconds since the Unix epoch.
pub const EARLIEST_SECS: i64 = -62135596800;

/// Latest instant handled: 9999-12-31T23:59:59Z, in seconds since the Unix epoch.
pub const LATEST_SECS: i64 = 253402300799;

/// Width of the label column.
pub const LABEL_WIDTH: usize = 14;

/// A point on the UTC timeline, in whole seconds since the Unix epoch.
#[derive(Clone, Copy, Debug, PartialEq, Eq)]
pub struct Instant {
    pub secs: i64,
}

impl Instant {
    pub open spec fn wf(&self) -> bool {
        EARLIEST_SECS <= self.secs <= LATEST_SECS
    }

    /// The instant `secs` seconds after the Unix epoch, where it lies within
    /// the years 1 to 9999.
    pub fn from_unix_seconds(secs: i64) -> (r: Option<Instant>)
        ensures
            r is Some <==> EARLIEST_SECS <= secs <= LATEST_SECS,
            r matches Some(i) ==> i.secs == secs && i.wf(),
    {
        if EARLIEST_SECS <= secs && secs <= LATEST_SECS {
            Some(Instant { secs })
        } else {
            None
        }
    }
}

pub open spec fn pattern_24() -> Seq<char> {
    "%Y-%m-%d %H:%M:%S"@
}

pub open spec fn pattern_12() -> Seq<char> {
    "%Y-%m-%d %I:%M:%S %p"@
}

/// The strftime pattern of a format mode.
pub open spec fn pattern_of(format24: bool) -> Seq<char> {
    if format24 {
        pattern_24()
    } else {
        pattern_12()
    }
}

/// Whether the IANA time-zone database knows `name`.
pub uninterp spec fn zone_known(name: Seq<char>) -> bool;

/// Whether chrono-tz's database holds `name`; its table lists `UTC`.
pub open spec fn in_database(name: Seq<char>) -> bool {
    name == "UTC"@ || zone_known(name)
}

/// The instant `secs` rendered in zone `name` with strftime `pattern`.
pub uninterp spec fn zoned_text(name: Seq<char>, secs: int, pattern: Seq<char>) -> Seq<char>;

/// Relies on `chrono_tz::Tz::from_str` to look `name` up in the time-zone
/// database, then on chrono's `DateTime::from_timestamp`, `with_timezone` and
/// `format` to render the instant there. The instant lies within chrono's
/// range and the pattern holds only valid specifiers, so only the lookup can fail.
#[verifier::external_body]
fn zone_time_text(name: &str, secs: i64, pattern: &str) -> (r: Option<String>)
    requires
        EARLIEST_SECS <= secs <= LATEST_SECS,
        pattern@ == pattern_24() || pattern@ == pattern_12(),
    ensures
        r is Some <==> (name@ == "UTC"@ || zone_known(name@)),
        r matches Some(t) ==> t@ == zoned_text(name@, secs as int, pattern@),
{
    let tz: chrono_tz::Tz = name.parse().ok()?;
    let utc = chrono::DateTime::from_timestamp(secs, 0)?;
    Some(utc.with_timezone(&tz).format(pattern).to_string())
}

/// Relies on chrono's `DateTime::from_timestamp`, `with_timezone(&Local)` and
/// `format`: the instant rendered in the system-local zone. What it returns
/// depends on the machine's zone setting, so nothing is stated of it.
#[verifier::external_body]
fn local_time_text(secs: i64, pattern: &str) -> (r: String)
    requires
        EARLIEST_SECS <= secs <= LATEST_SECS,
        pattern@ == pattern_24() || pattern@ == pattern_12(),
{
    match chrono::DateTime::from_timestamp(secs, 0) {
        Some(utc) => utc.with_timezone(&chrono::Local).format(pattern).to_string(),
        None => String::new(),
    }
}

fn pattern(format24: bool) -> (r: &'static str)
    ensures
        r@ == pattern_of(format24),
{
    if format24 {
        "%Y-%m-%d %H:%M:%S"
    } else {
        "%Y-%m-%d %I:%M:%S %p"
    }
}

pub open spec fn spaces(n: nat) -> Seq<char> {
    Seq::new(n, |i: int| ' ')
}

/// `label` left-justified in the label column.
pub open spec fn padded(label: Seq<char>) -> Seq<char> {
    if label.len() >= LABEL_WIDTH {
        label
    } else {
        label + spaces((LABEL_WIDTH - label.len()) as nat)
    }
}

pub open spec fn time_line(label: Seq<char>, time: Seq<char>) -> Seq<char> {
    padded(label) + seq![' '] + time
}

pub open spec fn invalid_suffix() -> Seq<char> {
    " ❌ Invalid timezone"@
}

pub open spec fn invalid_line(label: Seq<char>) -> Seq<char> {
    padded(label) + invalid_suffix()
}

/// The line for one zone request, given the local rendering `local` of the
/// same instant.
pub open spec fn zone_line(request: Seq<char>, secs: int, format24: bool, local: Seq<char>) -> Seq<char> {
    let c = resolved(request);
    if c == local_sentinel() {
        time_line("Local"@, local)
    } else if in_database(c) {
        time_line(request, zoned_text(c, secs, pattern_of(format24)))
    } else {
        invalid_line(request)
    }
}

pub open spec fn header() -> Seq<char> {
    "🕒 Time Zones"@
}

pub open spec fn separator() -> Seq<char> {
    "────────────────────────"@
}

/// The whole block of one repaint.
pub open spec fn frame(zones: Seq<Seq<char>>, secs: int, format24: bool, local: Seq<char>) -> Seq<Seq<char>> {
    seq![header(), separator()] + Seq::new(zones.len(), |i: int| zone_line(zones[i], secs, format24, local))
}

pub open spec fn texts(v: Seq<String>) -> Seq<Seq<char>> {
    v.map_values(|s: String| s@)
}

/// `label` left-justified in a column of fourteen characters.
pub fn pad_label(label: &str) -> (r: String)
    ensures
        r@ == padded(label@),
{
    let n = label.unicode_len();
    let mut r = String::from_str(label);
    if n < LABEL_WIDTH {
        let mut k: usize = n;
        while k < LABEL_WIDTH
            invariant
                n <= k <= LABEL_WIDTH,
                r@ == label@ + spaces((k - n) as nat),
            decreases LABEL_WIDTH - k,
        {
            r.append(" ");
            proof {
                reveal_strlit(" ");
                assert(r@ =~= label@ + spaces((k + 1 - n) as nat));
            }
            k = k + 1;
        }
    }
    r
}

/// A valid line: the padded label, a space, then the rendered time.
pub fn format_time_line(label: &str, time: &str) -> (r: String)
    ensures
        r@ == time_line(label@, time@),
{
    let mut r = pad_label(label);
    r.append(" ");
    r.append(time);
    proof {
        reveal_strlit(" ");
        assert(r@ =~= time_line(label@, time@));
    }
    r
}

/// The invalid-zone marker line for `label`.
pub fn format_invalid_line(label: &str) -> (r: String)
    ensures
        r@ == invalid_line(label@),
{
    let mut r = pad_label(label);
    r.append(" ❌ Invalid timezone");
    r
}

/// The line for one zone request at `instant`: requests that resolve to the
/// local zone are labelled `Local` and show `local`; known zones are labelled
/// with the request as typed; others get the invalid marker.
pub fn render_zone(request: &str, instant: Instant, format24: bool, local: &str) -> (r: String)
    requires
        instant.wf(),
    ensures
        r@ == zone_line(request@, instant.secs as int, format24, local@),
{
    let canonical = resolve_alias(request);
    proof {
        reveal_strlit("Local");
    }
    if canonical == String::from_str("Local") {
        format_time_line("Local", local)
    } else {
        match zone_time_text(canonical.as_str(), instant.secs, pattern(format24)) {
            Some(t) => format_time_line(request, t.as_str()),
            None => format_invalid_line(request),
        }
    }
}

/// The lines of one repaint of `zones` at `instant`, in the order given;
/// every line is rendered from that one instant, and `local` is its
/// rendering in the system-local zone.
pub fn render_frame(zones: &Vec<String>, instant: Instant, format24: bool, local: &str) -> (r: Vec<String>)
    requires
        instant.wf(),
    ensures
        texts(r@) == frame(texts(zones@), instant.secs as int, format24, local@),
{
    let mut r: Vec<String> = Vec::new();
    r.push(String::from_str("🕒 Time Zones"));
    r.push(String::from_str("────────────────────────"));
    let ghost zs = texts(zones@);
    let mut i: usize = 0;
    while i < zones.len()
        invariant
            i <= zones@.len(),
            instant.wf(),
            zs == texts(zones@),
            texts(r@) =~= frame(zs.subrange(0, i as int), instant.secs as int, format24, local@),
        decreases zones@.len() - i,
    {
        let line = render_zone(zones[i].as_str(), instant, format24, local);
        let ghost before = r@;
        r.push(line);
        proof {
            assert(r@ =~= before.push(line));
            assert(zs[i as int] == zones@[i as int]@);
            let next = frame(zs.subrange(0, i + 1), instant.secs as int, format24, local@);
            assert(texts(before).len() == before.len());
            assert(before.len() == i + 2);
            assert(zs.subrange(0, i + 1).len() == i + 1);
            assert(next.len() == texts(r@).len());
            assert forall|j: int| 0 <= j < next.len() implies texts(r@)[j] == next[j] by {
                if j < before.len() {
                    assert(texts(r@)[j] == texts(before)[j]);
                }
            }
            assert(texts(r@) =~= next);
        }
        i = i + 1;
    }
    proof {
        assert(zs.subrange(0, zones@.len() as int) =~= zs);
    }
    r
}

/// Samples the local rendering of `instant` once, then renders the frame
/// with it: the lines are those of `render_frame` for that rendering.
pub fn render_frame_now(zones: &Vec<String>, instant: Instant, format24: bool) -> (r: Vec<String>)
    requires
        instant.wf(),
    ensures
        exists|local: Seq<char>|
            texts(r@) == #[trigger] frame(texts(zones@), instant.secs as int, format24, local),
{
    let local = local_time_text(instant.secs, pattern(format24));
    render_frame(zones, instant, format24, local.as_str())
}

} // verus!
