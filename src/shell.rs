//! What the command line and the configuration decide: the zone list, the
//! format mode, and one-shot or refresh mode.
use vstd::prelude::*;
use crate::alias::{resolved, local_sentinel, lemma_local_and_utc};
use crate::render::{
    texts, frame, header, separator, time_line, invalid_line, zone_line, zoned_text, pattern_of,
    in_database,
};

verus! {

/// The refresh interval used when `--watch` comes without a value: one second.
pub const DEFAULT_INTERVAL_NANOS: u64 = 1000000000;

/// The `--watch` option as given: absent, present without a value, or
/// present with an interval in nanoseconds (which may be zero or negative).
#[derive(Clone, Copy, Debug, PartialEq, Eq)]
pub enum WatchOption {
    Absent,
    DefaultInterval,
    Explicit(i64),
}

/// How the program runs: one emission, or repaints at an interval in nanoseconds.
#[derive(Clone, Copy, Debug, PartialEq, Eq)]
pub enum RunMode {
    OneShot,
    Refresh(u64),
}

pub open spec fn mode_of(watch: WatchOption) -> RunMode {
    match watch {
        WatchOption::Absent => RunMode::OneShot,
        WatchOption::DefaultInterval => RunMode::Refresh(DEFAULT_INTERVAL_NANOS),
        WatchOption::Explicit(n) => if n > 0 {
            RunMode::Refresh(n as u64)
        } else {
            RunMode::OneShot
        },
    }
}

/// Refresh mode with the given interval where it is strictly positive, one
/// second where `--watch` has no value, one-shot otherwise.
pub fn select_mode(watch: WatchOption) -> (r: RunMode)
    ensures
        r == mode_of(watch),
        r matches RunMode::Refresh(n) ==> n > 0,
{
    match watch {
        WatchOption::Absent => RunMode::OneShot,
        WatchOption::DefaultInterval => RunMode::Refresh(DEFAULT_INTERVAL_NANOS),
        WatchOption::Explicit(n) => {
            if n > 0 {
                RunMode::Refresh(n as u64)
            } else {
                RunMode::OneShot
            }
        },
    }
}

pub open spec fn default_zones() -> Seq<Seq<char>> {
    seq!["Local"@, "UTC"@]
}

pub open spec fn zones_of(args: Seq<Seq<char>>, config: Option<Seq<Seq<char>>>) -> Seq<Seq<char>> {
    if args.len() > 0 {
        args
    } else {
        match config {
            Some(z) => if z.len() > 0 {
                z
            } else {
                default_zones()
            },
            None => default_zones(),
        }
    }
}

/// The zone list: the positional arguments if there are any, else the
/// configuration's non-empty list, else `Local` and `UTC`.
pub fn select_zones(args: Vec<String>, config: Option<Vec<String>>) -> (r: Vec<String>)
    ensures
        texts(r@) == zones_of(texts(args@), match config {
            Some(z) => Some(texts(z@)),
            None => None,
        }),
{
    if args.len() > 0 {
        return args;
    }
    match config {
        Some(z) => {
            if z.len() > 0 {
                return z;
            }
        },
        None => {},
    }
    let mut r: Vec<String> = Vec::new();
    r.push(String::from_str("Local"));
    r.push(String::from_str("UTC"));
    proof {
        assert(texts(r@) =~= default_zones());
    }
    r
}

/// 24-hour format where the flag or the configuration asks for it.
pub fn select_format24(flag: bool, config: Option<bool>) -> (r: bool)
    ensures
        r == (flag || config == Some(true)),
{
    match config {
        Some(b) => flag || b,
        None => flag,
    }
}

/// With no zone arguments and no configured zones, a repaint holds exactly
/// the header, the separator, the line labelled `Local` and the line
/// labelled `UTC` with the time in UTC.
pub proof fn lemma_default_frame(config: Option<Seq<Seq<char>>>, secs: int, format24: bool, local: Seq<char>)
    requires
        config matches Some(z) ==> z.len() == 0,
    ensures
        frame(zones_of(seq![], config), secs, format24, local) == seq![
            header(),
            separator(),
            time_line("Local"@, local),
            time_line("UTC"@, zoned_text("UTC"@, secs, pattern_of(format24))),
        ],
{
    lemma_local_and_utc();
    reveal_strlit("UTC");
    reveal_strlit("Local");
    let z = zones_of(seq![], config);
    assert(z == default_zones());
    assert(in_database("UTC"@));
    assert("UTC"@ != local_sentinel());
    assert(zone_line(z[0], secs, format24, local) == time_line("Local"@, local));
    assert(zone_line(z[1], secs, format24, local)
        == time_line("UTC"@, zoned_text("UTC"@, secs, pattern_of(format24))));
    assert(frame(zones_of(seq![], config), secs, format24, local) =~= seq![
        header(),
        separator(),
        time_line("Local"@, local),
        time_line("UTC"@, zoned_text("UTC"@, secs, pattern_of(format24))),
    ]);
}

/// A request that is neither local nor in the database yields exactly one
/// line, the invalid marker, in its place; every other request keeps its own
/// line, and there is one line per request after the header and separator.
pub proof fn lemma_unknown_zone_line(zones: Seq<Seq<char>>, i: int, secs: int, format24: bool, local: Seq<char>)
    requires
        0 <= i < zones.len(),
        resolved(zones[i]) != local_sentinel(),
        !in_database(resolved(zones[i])),
    ensures
        frame(zones, secs, format24, local).len() == zones.len() + 2,
        frame(zones, secs, format24, local)[i + 2] == invalid_line(zones[i]),
        forall|j: int| 0 <= j < zones.len() && j != i
            ==> #[trigger] frame(zones, secs, format24, local)[j + 2] == zone_line(zones[j], secs, format24, local),
{
}

} // verus!
