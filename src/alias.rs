//! Short zone names (`IST`, `pst`, `local`) and what they stand for.
use vstd::prelude::*;

verus! {

/// What `str::to_uppercase` returns for a string; it depends on the characters alone.
pub uninterp spec fn upper_of(s: Seq<char>) -> Seq<char>;

pub open spec fn is_ascii_char(c: char) -> bool {
    (c as u32) < 128
}

pub open spec fn is_ascii_text(s: Seq<char>) -> bool {
    forall|i: int| 0 <= i < s.len() ==> is_ascii_char(#[trigger] s[i])
}

pub open spec fn ascii_upper_char(c: char) -> char {
    if 'a' <= c && c <= 'z' {
        ((c as u32) - 32) as char
    } else {
        c
    }
}

pub open spec fn ascii_lower_char(c: char) -> char {
    if 'A' <= c && c <= 'Z' {
        ((c as u32) + 32) as char
    } else {
        c
    }
}

pub open spec fn ascii_upper(s: Seq<char>) -> Seq<char> {
    Seq::new(s.len(), |i: int| ascii_upper_char(s[i]))
}

pub open spec fn ascii_lower(s: Seq<char>) -> Seq<char> {
    Seq::new(s.len(), |i: int| ascii_lower_char(s[i]))
}

/// Unicode upper-casing: on ASCII text it maps `a`..`z` to `A`..`Z` and keeps
/// every other character.
pub open spec fn uppercase(s: Seq<char>) -> Seq<char> {
    if is_ascii_text(s) {
        ascii_upper(s)
    } else {
        upper_of(s)
    }
}

/// Relies on `str::to_uppercase`: the Unicode upper-case mapping of the
/// characters, which on ASCII text is the ASCII one.
#[verifier::external_body]
fn to_upper(s: &str) -> (r: String)
    ensures
        is_ascii_text(s@) ==> r@ == ascii_upper(s@),
        !is_ascii_text(s@) ==> r@ == upper_of(s@),
{
    s.to_uppercase()
}

/// The alias table: an upper-cased short name and the IANA identifier it maps to.
pub open spec fn alias_target(key: Seq<char>) -> Option<Seq<char>> {
    if key == "UTC"@ {
        Some("UTC"@)
    } else if key == "IST"@ {
        Some("Asia/Kolkata"@)
    } else if key == "PST"@ {
        Some("America/Los_Angeles"@)
    } else if key == "EST"@ {
        Some("America/New_York"@)
    } else if key == "EAT"@ {
        Some("Africa/Addis_Ababa"@)
    } else if key == "CET"@ {
        Some("Africa/Algiers"@)
    } else if key == "WAT"@ {
        Some("Africa/Bangui"@)
    } else if key == "CAT"@ {
        Some("Africa/Blantyre"@)
    } else if key == "SAST"@ {
        Some("Africa/Johannesburg"@)
    } else {
        None
    }
}

/// The sentinel that stands for the system-local zone.
pub open spec fn local_sentinel() -> Seq<char> {
    "Local"@
}

/// Resolution of `zone` given its upper-cased form `upper`.
pub open spec fn resolved_from(zone: Seq<char>, upper: Seq<char>) -> Seq<char> {
    match alias_target(upper) {
        Some(t) => t,
        None => if upper == "LOCAL"@ {
            local_sentinel()
        } else {
            zone
        },
    }
}

/// The canonical form of a zone request.
pub open spec fn resolved(zone: Seq<char>) -> Seq<char> {
    resolved_from(zone, uppercase(zone))
}

fn text_is(a: &str, b: &str) -> (r: bool)
    ensures
        r == (a@ == b@),
{
    String::from_str(a) == String::from_str(b)
}

/// Resolves `zone` from its already upper-cased form `upper`: a table alias
/// gives its IANA identifier, `LOCAL` gives `Local`, anything else is `zone`
/// unchanged.
pub fn resolve_upper(zone: &str, upper: &str) -> (r: String)
    ensures
        r@ == resolved_from(zone@, upper@),
{
    proof {
        reveal_strlit("UTC");
        reveal_strlit("IST");
        reveal_strlit("PST");
        reveal_strlit("EST");
        reveal_strlit("EAT");
        reveal_strlit("CET");
        reveal_strlit("WAT");
        reveal_strlit("CAT");
        reveal_strlit("SAST");
        reveal_strlit("LOCAL");
    }
    if text_is(upper, "UTC") {
        String::from_str("UTC")
    } else if text_is(upper, "IST") {
        String::from_str("Asia/Kolkata")
    } else if text_is(upper, "PST") {
        String::from_str("America/Los_Angeles")
    } else if text_is(upper, "EST") {
        String::from_str("America/New_York")
    } else if text_is(upper, "EAT") {
        String::from_str("Africa/Addis_Ababa")
    } else if text_is(upper, "CET") {
        String::from_str("Africa/Algiers")
    } else if text_is(upper, "WAT") {
        String::from_str("Africa/Bangui")
    } else if text_is(upper, "CAT") {
        String::from_str("Africa/Blantyre")
    } else if text_is(upper, "SAST") {
        String::from_str("Africa/Johannesburg")
    } else if text_is(upper, "LOCAL") {
        String::from_str("Local")
    } else {
        String::from_str(zone)
    }
}

/// Maps a zone request to its canonical form, comparing it upper-cased with
/// the alias table; unknown input comes back unchanged.
pub fn resolve_alias(zone: &str) -> (r: String)
    ensures
        r@ == resolved(zone@),
{
    let upper = to_upper(zone);
    resolve_upper(zone, upper.as_str())
}

proof fn lemma_key_lengths()
    ensures
        "UTC"@.len() == 3,
        "IST"@.len() == 3,
        "PST"@.len() == 3,
        "EST"@.len() == 3,
        "EAT"@.len() == 3,
        "CET"@.len() == 3,
        "WAT"@.len() == 3,
        "CAT"@.len() == 3,
        "SAST"@.len() == 4,
        "LOCAL"@.len() == 5,
{
    reveal_strlit("UTC");
    reveal_strlit("IST");
    reveal_strlit("PST");
    reveal_strlit("EST");
    reveal_strlit("EAT");
    reveal_strlit("CET");
    reveal_strlit("WAT");
    reveal_strlit("CAT");
    reveal_strlit("SAST");
    reveal_strlit("LOCAL");
}

/// ASCII text longer than any key resolves to itself.
proof fn lemma_long_ascii_is_canonical(t: Seq<char>)
    requires
        is_ascii_text(t),
        t.len() > 5,
    ensures
        resolved(t) == t,
{
    lemma_key_lengths();
    assert(uppercase(t).len() == t.len());
}

proof fn lemma_targets_are_canonical(t: Seq<char>)
    requires
        t == "Asia/Kolkata"@ || t == "America/Los_Angeles"@ || t == "America/New_York"@
            || t == "Africa/Addis_Ababa"@ || t == "Africa/Algiers"@ || t == "Africa/Bangui"@
            || t == "Africa/Blantyre"@ || t == "Africa/Johannesburg"@ || t == "Local"@,
    ensures
        resolved(t) == t,
{
    reveal_strlit("Asia/Kolkata");
    reveal_strlit("America/Los_Angeles");
    reveal_strlit("America/New_York");
    reveal_strlit("Africa/Addis_Ababa");
    reveal_strlit("Africa/Algiers");
    reveal_strlit("Africa/Bangui");
    reveal_strlit("Africa/Blantyre");
    reveal_strlit("Africa/Johannesburg");
    reveal_strlit("Local");
    reveal_strlit("LOCAL");
    lemma_key_lengths();
    assert(is_ascii_text(t));
    if t == "Local"@ {
        assert(uppercase(t) =~= "LOCAL"@);
    } else {
        lemma_long_ascii_is_canonical(t);
    }
}

/// Resolution is idempotent: resolving a canonical form yields it unchanged.
pub proof fn lemma_resolve_idempotent(zone: Seq<char>)
    ensures
        resolved(resolved(zone)) == resolved(zone),
{
    let up = uppercase(zone);
    reveal_strlit("UTC");
    lemma_key_lengths();
    match alias_target(up) {
        Some(t) => {
            if t == "UTC"@ {
                assert(is_ascii_text(t));
                assert(uppercase(t) =~= "UTC"@);
            } else {
                lemma_targets_are_canonical(t);
            }
        },
        None => {
            if up == "LOCAL"@ {
                lemma_targets_are_canonical("Local"@);
            }
        },
    }
}

proof fn lemma_upper_of_lower(k: Seq<char>)
    requires
        forall|i: int| 0 <= i < k.len() ==> 'A' <= #[trigger] k[i] && k[i] <= 'Z',
    ensures
        uppercase(ascii_lower(k)) == k,
        uppercase(k) == k,
{
    let l = ascii_lower(k);
    assert(is_ascii_text(l));
    assert(is_ascii_text(k));
    assert(ascii_upper(l) =~= k);
    assert(ascii_upper(k) =~= k);
}

/// Every key of the alias table resolves alike in lower and upper case, to
/// the identifier it maps to.
pub proof fn lemma_alias_case_insensitive(key: Seq<char>)
    requires
        alias_target(key) is Some,
    ensures
        resolved(ascii_lower(key)) == resolved(uppercase(key)),
        resolved(ascii_lower(key)) == alias_target(key).unwrap(),
{
    reveal_strlit("UTC");
    reveal_strlit("IST");
    reveal_strlit("PST");
    reveal_strlit("EST");
    reveal_strlit("EAT");
    reveal_strlit("CET");
    reveal_strlit("WAT");
    reveal_strlit("CAT");
    reveal_strlit("SAST");
    lemma_upper_of_lower(key);
}

/// `Local` names the local zone and `UTC` names itself.
pub(crate) proof fn lemma_local_and_utc()
    ensures
        resolved("Local"@) == local_sentinel(),
        resolved("UTC"@) == "UTC"@,
{
    reveal_strlit("UTC");
    lemma_key_lengths();
    lemma_targets_are_canonical("Local"@);
    assert(is_ascii_text("UTC"@));
    assert(uppercase("UTC"@) =~= "UTC"@);
}

} // verus!
