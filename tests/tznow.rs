use tznow::alias::{resolve_alias, resolve_upper};
use tznow::config::parse_config;
use tznow::refresh::{step, Action, Event, Phase};
use tznow::render::{
    format_invalid_line, format_time_line, pad_label, render_frame, render_frame_now, render_zone,
    Instant,
};
use tznow::shell::{select_format24, select_mode, select_zones, RunMode, WatchOption};

const KEYS: [(&str, &str); 9] = [
    ("UTC", "UTC"),
    ("IST", "Asia/Kolkata"),
    ("PST", "America/Los_Angeles"),
    ("EST", "America/New_York"),
    ("EAT", "Africa/Addis_Ababa"),
    ("CET", "Africa/Algiers"),
    ("WAT", "Africa/Bangui"),
    ("CAT", "Africa/Blantyre"),
    ("SAST", "Africa/Johannesburg"),
];

/// 2024-01-02T03:04:05Z
fn sample_instant() -> Instant {
    Instant::from_unix_seconds(1704164645).unwrap()
}

fn strings(v: &[&str]) -> Vec<String> {
    v.iter().map(|s| s.to_string()).collect()
}

#[test]
fn aliases_map_to_their_identifiers() {
    for (k, v) in KEYS {
        assert_eq!(resolve_alias(k), v);
    }
}

#[test]
fn aliases_ignore_case() {
    for (k, v) in KEYS {
        assert_eq!(resolve_alias(&k.to_lowercase()), v);
        assert_eq!(resolve_alias(&k.to_lowercase()), resolve_alias(&k.to_uppercase()));
    }
    assert_eq!(resolve_alias("Ist"), "Asia/Kolkata");
}

#[test]
fn local_resolves_to_sentinel() {
    assert_eq!(resolve_alias("local"), "Local");
    assert_eq!(resolve_alias("LOCAL"), "Local");
    assert_eq!(resolve_alias("Local"), "Local");
}

#[test]
fn unknown_input_passes_through() {
    assert_eq!(resolve_alias("Foo/Bar"), "Foo/Bar");
    assert_eq!(resolve_alias("Europe/Berlin"), "Europe/Berlin");
    assert_eq!(resolve_alias(""), "");
}

#[test]
fn resolution_is_idempotent() {
    for z in ["ist", "PST", "local", "Foo/Bar", "utc", "Europe/Berlin", "sast", ""] {
        let once = resolve_alias(z);
        assert_eq!(resolve_alias(&once), once);
    }
}

#[test]
fn resolve_from_upper_form() {
    assert_eq!(resolve_upper("est", "EST"), "America/New_York");
    assert_eq!(resolve_upper("local", "LOCAL"), "Local");
    assert_eq!(resolve_upper("Asia/Tokyo", "ASIA/TOKYO"), "Asia/Tokyo");
}

#[test]
fn labels_are_padded_to_fourteen() {
    assert_eq!(pad_label("UTC"), "UTC           ");
    assert_eq!(pad_label(""), " ".repeat(14));
    assert_eq!(pad_label("America/New_York"), "America/New_York");
    assert_eq!(pad_label("exactly14chars"), "exactly14chars");
}

#[test]
fn line_shapes() {
    assert_eq!(format_time_line("UTC", "T"), "UTC            T");
    assert_eq!(format_invalid_line("Foo/Bar"), "Foo/Bar        ❌ Invalid timezone");
}

#[test]
fn utc_in_24_hour_format() {
    let line = render_zone("UTC", sample_instant(), true, "unused");
    assert_eq!(line, "UTC            2024-01-02 03:04:05");
}

#[test]
fn ist_in_12_hour_format() {
    let line = render_zone("IST", sample_instant(), false, "unused");
    assert_eq!(line, "IST            2024-01-02 08:34:05 AM");
}

#[test]
fn lowercase_aliases_keep_their_spelling() {
    let lines = render_frame(&strings(&["pst", "est"]), sample_instant(), false, "unused");
    assert_eq!(lines.len(), 4);
    assert_eq!(lines[2], "pst            2024-01-01 07:04:05 PM");
    assert_eq!(lines[3], "est            2024-01-01 10:04:05 PM");
}

#[test]
fn unknown_zone_does_not_suppress_others() {
    let lines = render_frame(&strings(&["Foo/Bar", "UTC"]), sample_instant(), true, "unused");
    assert_eq!(
        lines,
        vec![
            "🕒 Time Zones".to_string(),
            "────────────────────────".to_string(),
            "Foo/Bar        ❌ Invalid timezone".to_string(),
            "UTC            2024-01-02 03:04:05".to_string(),
        ]
    );
    let invalid = lines.iter().filter(|l| l.ends_with("❌ Invalid timezone")).count();
    assert_eq!(invalid, 1);
}

#[test]
fn empty_request_is_invalid() {
    let line = render_zone("", sample_instant(), true, "unused");
    assert_eq!(line, format!("{} ❌ Invalid timezone", " ".repeat(14)));
}

#[test]
fn local_line_uses_local_rendering() {
    let line = render_zone("local", sample_instant(), true, "LOCALTIME");
    assert_eq!(line, "Local          LOCALTIME");
}

#[test]
fn default_zones_give_local_and_utc() {
    let zones = select_zones(Vec::new(), None);
    assert_eq!(zones, strings(&["Local", "UTC"]));
    let lines = render_frame_now(&zones, sample_instant(), true);
    assert_eq!(lines.len(), 4);
    assert!(lines[2].starts_with("Local          "));
    assert!(lines[2].len() > 15);
    assert_eq!(lines[3], "UTC            2024-01-02 03:04:05");
}

#[test]
fn every_line_uses_one_instant() {
    let zones = strings(&["UTC", "utc", "Etc/UTC"]);
    let lines = render_frame(&zones, sample_instant(), true, "unused");
    assert_eq!(lines[2], "UTC            2024-01-02 03:04:05");
    assert_eq!(lines[3], "utc            2024-01-02 03:04:05");
    assert_eq!(lines[4], "Etc/UTC        2024-01-02 03:04:05");
}

#[test]
fn instant_range() {
    assert!(Instant::from_unix_seconds(0).is_some());
    assert!(Instant::from_unix_seconds(253402300799).is_some());
    assert!(Instant::from_unix_seconds(253402300800).is_none());
    assert!(Instant::from_unix_seconds(-62135596800).is_some());
    assert!(Instant::from_unix_seconds(-62135596801).is_none());
    assert_eq!(Instant::from_unix_seconds(5).unwrap().secs, 5);
}

#[test]
fn zone_list_precedence() {
    let args = strings(&["IST"]);
    let config = Some(strings(&["UTC"]));
    assert_eq!(select_zones(args.clone(), config.clone()), args);
    assert_eq!(select_zones(Vec::new(), config.clone()), strings(&["UTC"]));
    assert_eq!(select_zones(Vec::new(), Some(Vec::new())), strings(&["Local", "UTC"]));
}

#[test]
fn format_mode_is_either_source() {
    assert!(select_format24(true, None));
    assert!(select_format24(false, Some(true)));
    assert!(select_format24(true, Some(false)));
    assert!(!select_format24(false, Some(false)));
    assert!(!select_format24(false, None));
}

#[test]
fn config_zones_in_24_hour_format() {
    let zones = select_zones(Vec::new(), Some(strings(&["Local", "UTC", "IST"])));
    let format24 = select_format24(false, Some(true));
    let lines = render_frame(&zones, sample_instant(), format24, "2024-01-02 04:04:05");
    assert_eq!(lines.len(), 5);
    assert_eq!(lines[2], "Local          2024-01-02 04:04:05");
    assert_eq!(lines[3], "UTC            2024-01-02 03:04:05");
    assert_eq!(lines[4], "IST            2024-01-02 08:34:05");
}

#[test]
fn watch_zero_or_negative_is_one_shot() {
    assert_eq!(select_mode(WatchOption::Explicit(0)), RunMode::OneShot);
    assert_eq!(select_mode(WatchOption::Explicit(-1_000_000_000)), RunMode::OneShot);
    assert_eq!(select_mode(WatchOption::Absent), RunMode::OneShot);
}

#[test]
fn watch_without_value_is_one_second() {
    assert_eq!(select_mode(WatchOption::DefaultInterval), RunMode::Refresh(1_000_000_000));
    assert_eq!(select_mode(WatchOption::Explicit(100_000_000)), RunMode::Refresh(100_000_000));
}

fn run(events: &[Event]) -> Vec<Action> {
    let mut phase = Phase::Idle;
    let mut out = Vec::new();
    for e in events {
        let (next, a) = step(phase, *e);
        phase = next;
        out.push(a);
    }
    out
}

const OK: Event = Event { failed: false, stop_requested: false };
const STOP: Event = Event { failed: false, stop_requested: true };
const FAIL: Event = Event { failed: true, stop_requested: false };

#[test]
fn interrupt_after_one_frame() {
    let actions = run(&[OK, OK, OK, STOP, OK, OK]);
    assert_eq!(
        actions,
        vec![
            Action::AcquireTerminal,
            Action::Draw,
            Action::Sleep,
            Action::RestoreTerminal,
            Action::Finish { success: true },
            Action::Nothing,
        ]
    );
}

#[test]
fn interrupt_during_draw_completes_frame() {
    let actions = run(&[OK, OK, STOP, STOP, OK, OK]);
    assert_eq!(actions[2], Action::Sleep);
    assert_eq!(actions[3], Action::RestoreTerminal);
    let restores = actions.iter().filter(|a| **a == Action::RestoreTerminal).count();
    assert_eq!(restores, 1);
}

#[test]
fn failures_restore_once_and_fail() {
    let actions = run(&[OK, FAIL, OK, OK]);
    assert_eq!(
        actions,
        vec![
            Action::AcquireTerminal,
            Action::RestoreTerminal,
            Action::Finish { success: false },
            Action::Nothing,
        ]
    );
    let actions = run(&[OK, OK, OK, OK, FAIL, OK]);
    assert_eq!(actions[4], Action::RestoreTerminal);
    assert_eq!(actions[5], Action::Finish { success: false });
}

#[test]
fn loop_keeps_drawing_until_stopped() {
    let actions = run(&[OK, OK, OK, OK, OK, OK, OK]);
    assert_eq!(actions[3], Action::Draw);
    assert_eq!(actions[5], Action::Draw);
    assert!(!actions.contains(&Action::RestoreTerminal));
}

#[test]
fn config_with_zones_and_format24() {
    let c = parse_config("zones = [\"Local\",\"UTC\",\"IST\"]\nformat24 = true\n").unwrap();
    assert_eq!(c.zones, Some(strings(&["Local", "UTC", "IST"])));
    assert_eq!(c.format24, Some(true));
    let zones = select_zones(Vec::new(), c.zones);
    let format24 = select_format24(false, c.format24);
    let lines = render_frame(&zones, sample_instant(), format24, "L");
    assert_eq!(lines.len(), 5);
    assert_eq!(lines[2], "Local          L");
    assert_eq!(lines[3], "UTC            2024-01-02 03:04:05");
    assert_eq!(lines[4], "IST            2024-01-02 08:34:05");
}

#[test]
fn config_layout_is_lenient() {
    let text = "# my zones\r\n\n  zones   =  [ \"pst\" , \"Europe/Berlin\" ]  \r\nformat24=false\ncolor = \"red\"\n";
    let c = parse_config(text).unwrap();
    assert_eq!(c.zones, Some(strings(&["pst", "Europe/Berlin"])));
    assert_eq!(c.format24, Some(false));
}

#[test]
fn config_empty_and_partial() {
    let c = parse_config("").unwrap();
    assert_eq!(c.zones, None);
    assert_eq!(c.format24, None);
    let c = parse_config("zones = []").unwrap();
    assert_eq!(c.zones, Some(Vec::new()));
    let c = parse_config("format24 = true").unwrap();
    assert_eq!(c.zones, None);
    assert_eq!(c.format24, Some(true));
}

#[test]
fn config_rejections() {
    assert!(parse_config("zones = [\"UTC\"").is_none());
    assert!(parse_config("zones = [UTC]").is_none());
    assert!(parse_config("zones = [\"U\"TC\"]").is_none());
    assert!(parse_config("format24 = yes").is_none());
    assert!(parse_config("[section]").is_none());
    assert!(parse_config("format24 = true\nformat24 = false").is_none());
    assert!(parse_config("zones = [\"UTC\"]\nzones = [\"IST\"]").is_none());
}
