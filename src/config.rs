//! The optional configuration file: `zones = ["a", "b"]` and
//! `format24 = true` or `false`, one setting per line, with blank lines and
//! `#` comments. Other keys are ignored; any other line, a malformed value or
//! a repeated key rejects the whole file.
use vstd::prelude::*;
use crate::render::texts;

verus! {

pub open spec fn is_blank(c: char) -> bool {
    c == ' ' || c == '\t' || c == '\r'
}

pub open spec fn trim_start(s: Seq<char>) -> Seq<char>
    decreases s.len(),
{
    if s.len() > 0 && is_blank(s[0]) {
        trim_start(s.drop_first())
    } else {
        s
    }
}

pub open spec fn trim_end(s: Seq<char>) -> Seq<char>
    decreases s.len(),
{
    if s.len() > 0 && is_blank(s.last()) {
        trim_end(s.drop_last())
    } else {
        s
    }
}

/// `s` without leading and trailing spaces, tabs and carriage returns.
pub open spec fn trim(s: Seq<char>) -> Seq<char> {
    trim_end(trim_start(s))
}

/// The pieces of `s` between separators, read from the left: the finished
/// pieces and the one in progress.
pub open spec fn split_acc(s: Seq<char>, sep: char) -> (Seq<Seq<char>>, Seq<char>)
    decreases s.len(),
{
    if s.len() == 0 {
        (seq![], seq![])
    } else {
        let (done, cur) = split_acc(s.drop_last(), sep);
        if s.last() == sep {
            (done.push(cur), seq![])
        } else {
            (done, cur.push(s.last()))
        }
    }
}

/// The pieces of `s` between occurrences of `sep`; there is always at least one.
pub open spec fn split(s: Seq<char>, sep: char) -> Seq<Seq<char>> {
    split_acc(s, sep).0.push(split_acc(s, sep).1)
}

fn chars_of(s: &str) -> (r: Vec<char>)
    ensures
        r@ == s@,
{
    let n = s.unicode_len();
    let mut r: Vec<char> = Vec::new();
    let mut i: usize = 0;
    while i < n
        invariant
            n == s@.len(),
            i <= n,
            r@ == s@.subrange(0, i as int),
        decreases n - i,
    {
        r.push(s.get_char(i));
        i = i + 1;
        proof {
            assert(r@ =~= s@.subrange(0, i as int));
        }
    }
    r
}

/// The bounds of `v[lo..hi]` once trimmed.
fn trim_bounds(v: &Vec<char>, lo: usize, hi: usize) -> (r: (usize, usize))
    requires
        lo <= hi <= v@.len(),
    ensures
        lo <= r.0 <= r.1 <= hi,
        v@.subrange(r.0 as int, r.1 as int) == trim(v@.subrange(lo as int, hi as int)),
{
    let mut a: usize = lo;
    while a < hi && (v[a] == ' ' || v[a] == '\t' || v[a] == '\r')
        invariant
            lo <= a <= hi <= v@.len(),
            trim_start(v@.subrange(lo as int, hi as int)) == trim_start(v@.subrange(a as int, hi as int)),
        decreases hi - a,
    {
        assert(v@.subrange(a as int, hi as int).drop_first() =~= v@.subrange(a + 1, hi as int));
        a = a + 1;
    }
    let mut b: usize = hi;
    while b > a && (v[b - 1] == ' ' || v[b - 1] == '\t' || v[b - 1] == '\r')
        invariant
            lo <= a <= b <= hi <= v@.len(),
            trim_end(v@.subrange(a as int, hi as int)) == trim_end(v@.subrange(a as int, b as int)),
        decreases b - a,
    {
        assert(v@.subrange(a as int, b as int).drop_last() =~= v@.subrange(a as int, b - 1));
        b = b - 1;
    }
    (a, b)
}

pub open spec fn piece_texts(v: Seq<char>, r: Seq<(usize, usize)>) -> Seq<Seq<char>> {
    r.map_values(|p: (usize, usize)| v.subrange(p.0 as int, p.1 as int))
}

/// The bounds of the pieces of `v[lo..hi]` between occurrences of `sep`.
fn split_bounds(v: &Vec<char>, lo: usize, hi: usize, sep: char) -> (r: Vec<(usize, usize)>)
    requires
        lo <= hi <= v@.len(),
    ensures
        forall|k: int| 0 <= k < r@.len() ==> lo <= (#[trigger] r@[k]).0 <= r@[k].1 <= hi,
        piece_texts(v@, r@) == split(v@.subrange(lo as int, hi as int), sep),
{
    let mut r: Vec<(usize, usize)> = Vec::new();
    let mut start: usize = lo;
    let mut i: usize = lo;
    while i < hi
        invariant
            lo <= start <= i <= hi <= v@.len(),
            forall|k: int| 0 <= k < r@.len() ==> lo <= (#[trigger] r@[k]).0 <= r@[k].1 <= hi,
            piece_texts(v@, r@) == split_acc(v@.subrange(lo as int, i as int), sep).0,
            v@.subrange(start as int, i as int) == split_acc(v@.subrange(lo as int, i as int), sep).1,
        decreases hi - i,
    {
        let ghost prefix = v@.subrange(lo as int, i as int);
        assert(v@.subrange(lo as int, i + 1).drop_last() =~= prefix);
        if v[i] == sep {
            let ghost before = r@;
            r.push((start, i));
            assert(piece_texts(v@, r@) =~= piece_texts(v@, before).push(v@.subrange(start as int, i as int)));
            start = i + 1;
            assert(v@.subrange(start as int, i + 1) =~= Seq::<char>::empty());
        } else {
            assert(v@.subrange(start as int, i + 1) =~= v@.subrange(start as int, i as int).push(v[i as int]));
        }
        i = i + 1;
    }
    let ghost before = r@;
    r.push((start, hi));
    proof {
        assert(piece_texts(v@, r@) =~= piece_texts(v@, before).push(v@.subrange(start as int, hi as int)));
    }
    r
}

/// What one line of the file says.
pub enum Setting {
    Skip,
    Zones(Seq<Seq<char>>),
    Format24(bool),
    Bad,
}

/// The text inside a pair of double quotes, once trimmed; no quote inside.
pub open spec fn quoted(p: Seq<char>) -> Option<Seq<char>> {
    let t = trim(p);
    if t.len() >= 2 && t[0] == '"' && t.last() == '"' && (forall|j: int|
        1 <= j < t.len() - 1 ==> #[trigger] t[j] != '"') {
        Some(t.subrange(1, t.len() - 1))
    } else {
        None
    }
}

/// The strings of an array `["a", "b"]`.
pub open spec fn array_items(val: Seq<char>) -> Option<Seq<Seq<char>>> {
    if val.len() >= 2 && val[0] == '[' && val.last() == ']' {
        let inner = val.subrange(1, val.len() - 1);
        if trim(inner).len() == 0 {
            Some(seq![])
        } else {
            let ps = split(inner, ',');
            if forall|k: int| 0 <= k < ps.len() ==> (#[trigger] quoted(ps[k])) is Some {
                Some(Seq::new(ps.len(), |k: int| quoted(ps[k]).unwrap()))
            } else {
                None
            }
        }
    } else {
        None
    }
}

pub open spec fn value_setting(key: Seq<char>, val: Seq<char>) -> Setting {
    if key == "zones"@ {
        match array_items(val) {
            Some(z) => Setting::Zones(z),
            None => Setting::Bad,
        }
    } else if key == "format24"@ {
        if val == "true"@ {
            Setting::Format24(true)
        } else if val == "false"@ {
            Setting::Format24(false)
        } else {
            Setting::Bad
        }
    } else {
        Setting::Skip
    }
}

/// `k` is the first `=` of `t`.
pub open spec fn first_eq(t: Seq<char>, k: int) -> bool {
    0 <= k < t.len() && t[k] == '=' && forall|j: int| 0 <= j < k ==> #[trigger] t[j] != '='
}

pub open spec fn line_setting(line: Seq<char>) -> Setting {
    let t = trim(line);
    if t.len() == 0 || t[0] == '#' {
        Setting::Skip
    } else if exists|k: int| first_eq(t, k) {
        let k = choose|k: int| first_eq(t, k);
        value_setting(trim(t.subrange(0, k)), trim(t.subrange(k + 1, t.len() as int)))
    } else {
        Setting::Bad
    }
}

/// The settings read so far.
pub struct ConfigView {
    pub zones: Option<Seq<Seq<char>>>,
    pub format24: Option<bool>,
}

pub open spec fn apply_setting(c: Option<ConfigView>, s: Setting) -> Option<ConfigView> {
    match c {
        None => None,
        Some(cv) => match s {
            Setting::Skip => Some(cv),
            Setting::Bad => None,
            Setting::Zones(z) => if cv.zones is Some {
                None
            } else {
                Some(ConfigView { zones: Some(z), format24: cv.format24 })
            },
            Setting::Format24(b) => if cv.format24 is Some {
                None
            } else {
                Some(ConfigView { zones: cv.zones, format24: Some(b) })
            },
        },
    }
}

pub open spec fn settings_of(lines: Seq<Seq<char>>) -> Option<ConfigView>
    decreases lines.len(),
{
    if lines.len() == 0 {
        Some(ConfigView { zones: None, format24: None })
    } else {
        apply_setting(settings_of(lines.drop_last()), line_setting(lines.last()))
    }
}

/// What a configuration text says, or `None` where it is rejected.
pub open spec fn config_of(text: Seq<char>) -> Option<ConfigView> {
    settings_of(split(text, '\n'))
}

fn range_is(v: &Vec<char>, a: usize, b: usize, lit: &str) -> (r: bool)
    requires
        a <= b <= v@.len(),
    ensures
        r == (v@.subrange(a as int, b as int) == lit@),
{
    let n = lit.unicode_len();
    if b - a != n {
        return false;
    }
    let mut i: usize = 0;
    while i < n
        invariant
            n == lit@.len(),
            b - a == n,
            a <= b <= v@.len(),
            i <= n,
            forall|j: int| 0 <= j < i ==> v@[a + j] == lit@[j],
        decreases n - i,
    {
        if v[a + i] != lit.get_char(i) {
            assert(v@.subrange(a as int, b as int)[i as int] != lit@[i as int]);
            return false;
        }
        i = i + 1;
    }
    assert(v@.subrange(a as int, b as int) =~= lit@);
    true
}

/// The bounds of the text between the quotes of `v[a..b]`, where it is quoted.
fn quoted_bounds(v: &Vec<char>, a: usize, b: usize) -> (r: Option<(usize, usize)>)
    requires
        a <= b <= v@.len(),
    ensures
        r is Some <==> quoted(v@.subrange(a as int, b as int)) is Some,
        r matches Some(p) ==> a <= p.0 <= p.1 <= b
            && v@.subrange(p.0 as int, p.1 as int) == quoted(v@.subrange(a as int, b as int)).unwrap(),
{
    let (x, y) = trim_bounds(v, a, b);
    let ghost t = v@.subrange(x as int, y as int);
    if y - x >= 2 && v[x] == '"' && v[y - 1] == '"' {
        let mut j: usize = x + 1;
        while j < y - 1 && v[j] != '"'
            invariant
                x + 1 <= j <= y - 1,
                y <= v@.len(),
                forall|q: int| x + 1 <= q < j ==> v@[q] != '"',
            decreases y - j,
        {
            j = j + 1;
        }
        if j == y - 1 {
            assert forall|q: int| 1 <= q < t.len() - 1 implies #[trigger] t[q] != '"' by {
                assert(t[q] == v@[x + q]);
            }
            assert(t.subrange(1, t.len() - 1) =~= v@.subrange(x + 1, y - 1));
            Some((x + 1, y - 1))
        } else {
            assert(t[j - x] == '"');
            None
        }
    } else {
        None
    }
}

/// The strings of the array `v[a..b]`, where it is one.
fn parse_array(text: &str, v: &Vec<char>, a: usize, b: usize) -> (r: Option<Vec<String>>)
    requires
        v@ == text@,
        a <= b <= v@.len(),
    ensures
        match r {
            Some(z) => array_items(v@.subrange(a as int, b as int)) == Some(texts(z@)),
            None => array_items(v@.subrange(a as int, b as int)) is None,
        },
{
    let ghost val = v@.subrange(a as int, b as int);
    if b - a >= 2 && v[a] == '[' && v[b - 1] == ']' {
        assert(val.subrange(1, val.len() - 1) =~= v@.subrange(a + 1, b - 1));
        let (x, y) = trim_bounds(v, a + 1, b - 1);
        if x == y {
            let out: Vec<String> = Vec::new();
            assert(texts(out@) =~= seq![]);
            return Some(out);
        }
        assert(trim(val.subrange(1, val.len() - 1)).len() > 0);
        let ps = split_bounds(v, a + 1, b - 1, ',');
        let ghost pieces = split(v@.subrange(a + 1, b - 1), ',');
        let mut out: Vec<String> = Vec::new();
        let mut i: usize = 0;
        while i < ps.len()
            invariant
                v@ == text@,
                a + 1 <= b - 1 <= v@.len(),
                val == v@.subrange(a as int, b as int),
                val.len() >= 2,
                val[0] == '[',
                val.last() == ']',
                pieces == split(val.subrange(1, val.len() - 1), ','),
                trim(val.subrange(1, val.len() - 1)).len() > 0,
                i <= ps@.len(),
                pieces == piece_texts(v@, ps@),
                forall|k: int| 0 <= k < ps@.len() ==> a + 1 <= (#[trigger] ps@[k]).0 <= ps@[k].1 <= b - 1,
                forall|k: int| 0 <= k < i ==> (#[trigger] quoted(pieces[k])) is Some,
                texts(out@) =~= Seq::new(i as nat, |k: int| quoted(pieces[k]).unwrap()),
            decreases ps@.len() - i,
        {
            let (p, q) = ps[i];
            assert(pieces[i as int] == v@.subrange(p as int, q as int));
            match quoted_bounds(v, p, q) {
                None => {
                    assert(trim(val.subrange(1, val.len() - 1)).len() > 0);
                    assert(pieces.len() == ps@.len());
                    assert(!(quoted(pieces[i as int]) is Some));
                    return None;
                },
                Some((c, d)) => {
                    let ghost before = out@;
                    out.push(String::from_str(text.substring_char(c, d)));
                    assert(texts(out@) =~= texts(before).push(quoted(pieces[i as int]).unwrap()));
                },
            }
            i = i + 1;
        }
        assert(trim(val.subrange(1, val.len() - 1)).len() > 0);
        assert(pieces.len() == ps@.len());
        Some(out)
    } else {
        None
    }
}

/// What one line says, executably.
enum Entry {
    Skip,
    Zones(Vec<String>),
    Format24(bool),
    Bad,
}

spec fn entry_setting(e: Entry) -> Setting {
    match e {
        Entry::Skip => Setting::Skip,
        Entry::Zones(z) => Setting::Zones(texts(z@)),
        Entry::Format24(b) => Setting::Format24(b),
        Entry::Bad => Setting::Bad,
    }
}

fn parse_line(text: &str, v: &Vec<char>, a: usize, b: usize) -> (r: Entry)
    requires
        v@ == text@,
        a <= b <= v@.len(),
    ensures
        entry_setting(r) == line_setting(v@.subrange(a as int, b as int)),
{
    let (x, y) = trim_bounds(v, a, b);
    let ghost t = v@.subrange(x as int, y as int);
    if x == y || v[x] == '#' {
        return Entry::Skip;
    }
    let mut k: usize = x;
    while k < y && v[k] != '='
        invariant
            x <= k <= y <= v@.len(),
            forall|j: int| x <= j < k ==> v@[j] != '=',
        decreases y - k,
    {
        k = k + 1;
    }
    if k == y {
        assert forall|m: int| !first_eq(t, m) by {
            if 0 <= m < t.len() {
                assert(t[m] == v@[x + m]);
            }
        }
        return Entry::Bad;
    }
    let ghost km = k - x;
    assert(first_eq(t, km as int)) by {
        assert forall|j: int| 0 <= j < km implies #[trigger] t[j] != '=' by {
            assert(t[j] == v@[x + j]);
        }
    }
    assert forall|m: int| first_eq(t, m) implies m == km by {
        if m < km {
            assert(t[m] == v@[x + m]);
        } else if m > km {
            assert(t[km as int] == '=');
        }
    }
    assert(t.subrange(0, km as int) =~= v@.subrange(x as int, k as int));
    assert(t.subrange(km + 1, t.len() as int) =~= v@.subrange(k + 1, y as int));
    let (ka, kb) = trim_bounds(v, x, k);
    let (va, vb) = trim_bounds(v, k + 1, y);
    if range_is(v, ka, kb, "zones") {
        match parse_array(text, v, va, vb) {
            Some(z) => Entry::Zones(z),
            None => Entry::Bad,
        }
    } else if range_is(v, ka, kb, "format24") {
        if range_is(v, va, vb, "true") {
            Entry::Format24(true)
        } else if range_is(v, va, vb, "false") {
            Entry::Format24(false)
        } else {
            Entry::Bad
        }
    } else {
        Entry::Skip
    }
}

/// The settings of a configuration file.
pub struct Config {
    pub zones: Option<Vec<String>>,
    pub format24: Option<bool>,
}

pub open spec fn zones_view(z: Option<Vec<String>>) -> Option<Seq<Seq<char>>> {
    match z {
        Some(v) => Some(texts(v@)),
        None => None,
    }
}

proof fn lemma_rejection_persists(lines: Seq<Seq<char>>, m: int)
    requires
        0 <= m <= lines.len(),
        settings_of(lines.subrange(0, m)) is None,
    ensures
        settings_of(lines) is None,
    decreases lines.len() - m,
{
    if m == lines.len() {
        assert(lines.subrange(0, m) =~= lines);
    } else {
        assert(lines.subrange(0, m + 1).drop_last() =~= lines.subrange(0, m));
        lemma_rejection_persists(lines, m + 1);
    }
}

/// Reads a configuration text; `None` where it is rejected, so that the
/// defaults apply.
pub fn parse_config(text: &str) -> (r: Option<Config>)
    ensures
        match r {
            Some(c) => config_of(text@) == Some(ConfigView { zones: zones_view(c.zones), format24: c.format24 }),
            None => config_of(text@) is None,
        },
{
    let v = chars_of(text);
    let ls = split_bounds(&v, 0, v.len(), '\n');
    let ghost lines = split(v@.subrange(0, v@.len() as int), '\n');
    assert(v@.subrange(0, v@.len() as int) =~= text@);
    let mut zones: Option<Vec<String>> = None;
    let mut format24: Option<bool> = None;
    let mut i: usize = 0;
    while i < ls.len()
        invariant
            v@ == text@,
            lines == split(text@, '\n'),
            lines == piece_texts(v@, ls@),
            forall|k: int| 0 <= k < ls@.len() ==> 0 <= (#[trigger] ls@[k]).0 <= ls@[k].1 <= v@.len(),
            i <= ls@.len(),
            settings_of(lines.subrange(0, i as int))
                == Some(ConfigView { zones: zones_view(zones), format24 }),
        decreases ls@.len() - i,
    {
        let (p, q) = ls[i];
        assert(lines.subrange(0, i + 1).drop_last() =~= lines.subrange(0, i as int));
        assert(lines[i as int] == v@.subrange(p as int, q as int));
        match parse_line(text, &v, p, q) {
            Entry::Skip => {},
            Entry::Bad => {
                proof {
                    lemma_rejection_persists(lines, i + 1);
                }
                return None;
            },
            Entry::Zones(z) => {
                if zones.is_some() {
                    proof {
                        lemma_rejection_persists(lines, i + 1);
                    }
                    return None;
                }
                zones = Some(z);
            },
            Entry::Format24(b) => {
                if format24.is_some() {
                    proof {
                        lemma_rejection_persists(lines, i + 1);
                    }
                    return None;
                }
                format24 = Some(b);
            },
        }
        i = i + 1;
    }
    assert(lines.subrange(0, ls@.len() as int) =~= lines);
    Some(Config { zones, format24 })
}

} // verus!
