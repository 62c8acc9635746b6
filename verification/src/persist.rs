//! Where session states and terminal snapshots are kept on disk: the file
//! names under a store's directory, the sanitized names of named snapshots,
//! and the order in which named snapshots are listed.

use vstd::prelude::*;
use crate::codec::string_from_chars;
use crate::term::NamedSnapshot;
use crate::text::chars_of;

verus! {

/// `dir` joined with the relative or absolute path `name`, as
/// `Path::join` does it: an absolute `name` replaces `dir`, and one `/`
/// separates them unless `dir` is empty or already ends with one.
pub open spec fn joined(dir: Seq<char>, name: Seq<char>) -> Seq<char> {
    if name.len() > 0 && name[0] == '/' {
        name
    } else if dir.len() == 0 {
        name
    } else if dir.last() == '/' {
        dir + name
    } else {
        dir + seq!['/'] + name
    }
}

/// Whether Unicode counts `c` as alphabetic or numeric.
pub uninterp spec fn unicode_alphanumeric(c: char) -> bool;

/// What `DateTime::<Utc>::from_timestamp_millis(ms)` formatted with
/// `%Y%m%d%H%M%S` gives, or `None` when `ms` is out of chrono's range.
pub uninterp spec fn utc_compact_stamp(ms: i64) -> Option<Seq<char>>;

/// The year, month and day of the day `z` days after 1970-01-01 (for
/// `z >= 0`), in the proleptic Gregorian calendar.
pub open spec fn civil_from_days(z: int) -> (int, int, int) {
    let z2 = z + 719468;
    let era = z2 / 146097;
    let doe = z2 - era * 146097;
    let yoe = (doe - doe / 1460 + doe / 36524 - doe / 146096) / 365;
    let doy = doe - (365 * yoe + yoe / 4 - yoe / 100);
    let mp = (5 * doy + 2) / 153;
    let d = doy - (153 * mp + 2) / 5 + 1;
    let m = if mp < 10 { mp + 3 } else { mp - 9 };
    (yoe + era * 400 + if m <= 2 { 1int } else { 0int }, m, d)
}

/// The decimal digit `n` (0 to 9).
pub open spec fn digit(n: int) -> char {
    (48 + n) as char
}

/// The two decimal digits of `n` (0 to 99).
pub open spec fn two_digits(n: int) -> Seq<char> {
    seq![digit(n / 10), digit(n % 10)]
}

/// The UTC time `ms` milliseconds after the Unix epoch (for `ms >= 0`) as
/// `YYYYmmddHHMMSS`, the year in four digits.
pub open spec fn stamp_of_millis(ms: int) -> Seq<char> {
    let secs = (ms % 86_400_000) / 1000;
    let (y, m, d) = civil_from_days(ms / 86_400_000);
    seq![digit(y / 1000), digit(y / 100 % 10), digit(y / 10 % 10), digit(y % 10)] + two_digits(m) + two_digits(d)
        + two_digits(secs / 3600) + two_digits(secs / 60 % 60) + two_digits(secs % 60)
}

/// Whether `c` is an ASCII letter or digit.
pub open spec fn ascii_alphanumeric(c: char) -> bool {
    ('a' <= c <= 'z') || ('A' <= c <= 'Z') || ('0' <= c <= '9')
}

/// Calls `char::is_alphanumeric`: the named property, which for ASCII
/// characters holds exactly of letters and digits.
#[verifier::external_body]
fn is_alphanumeric(c: char) -> (r: bool)
    ensures
        r == unicode_alphanumeric(c),
        (c as u32) < 128 ==> (r <==> ascii_alphanumeric(c)),
{
    c.is_alphanumeric()
}

/// Calls `chrono::DateTime::<Utc>::from_timestamp_millis` and formats the
/// time with `%Y%m%d%H%M%S`: the result is the named stamp; from the epoch
/// up to the end of the year 9999 (where chrono writes the year in four
/// digits and every field zero-padded) it is the civil date and time.
#[verifier::external_body]
fn compact_stamp(ms: i64) -> (r: Option<Vec<char>>)
    ensures
        match utc_compact_stamp(ms) {
            None => r is None,
            Some(s) => r is Some && r->0@ == s,
        },
        0 <= ms < 253_402_300_800_000 ==> r is Some && r->0@ == stamp_of_millis(ms as int),
{
    match chrono::DateTime::<chrono::Utc>::from_timestamp_millis(ms) {
        Some(d) => Some(d.format("%Y%m%d%H%M%S").to_string().chars().collect()),
        None => None,
    }
}

/// A name made safe for a file name: letters, digits, `-` and `_` are kept,
/// every other character becomes `_`.
pub open spec fn safe_name_spec(name: Seq<char>) -> Seq<char> {
    name.map_values(|c: char| if unicode_alphanumeric(c) || c == '-' || c == '_' { c } else { '_' })
}

/// `s` followed by the characters of the literal `lit`.
fn append_chars(s: &mut Vec<char>, lit: &str)
    ensures
        final(s)@ == old(s)@ + lit@,
{
    let cs = chars_of(lit);
    let mut i: usize = 0;
    while i < cs.len()
        invariant
            i <= cs@.len(),
            cs@ == lit@,
            s@ == old(s)@ + cs@.take(i as int),
        decreases cs@.len() - i,
    {
        s.push(cs[i]);
        i += 1;
        assert(cs@.take(i as int) =~= cs@.take(i - 1).push(cs@[i - 1]));
    }
    assert(cs@.take(cs@.len() as int) =~= cs@);
}

/// `dir` joined with `name` (see `joined`).
pub fn join_path(dir: &str, name: &Vec<char>) -> (r: String)
    ensures
        r@ == joined(dir@, name@),
{
    let d = chars_of(dir);
    if name.len() > 0 && name[0] == '/' {
        return string_from_chars(name);
    }
    if d.len() == 0 {
        return string_from_chars(name);
    }
    let mut out = d;
    if out[out.len() - 1] != '/' {
        out.push('/');
    }
    let mut i: usize = 0;
    let ghost base = out@;
    while i < name.len()
        invariant
            i <= name@.len(),
            out@ == base + name@.take(i as int),
        decreases name@.len() - i,
    {
        out.push(name[i]);
        i += 1;
        assert(name@.take(i as int) =~= name@.take(i - 1).push(name@[i - 1]));
    }
    assert(name@.take(name@.len() as int) =~= name@);
    string_from_chars(&out)
}

/// The name with every character that is not a letter, digit, `-` or `_`
/// replaced by `_` (see `safe_name_spec`).
pub fn safe_name(name: &str) -> (r: Vec<char>)
    ensures
        r@ == safe_name_spec(name@),
{
    let cs = chars_of(name);
    let mut out: Vec<char> = Vec::new();
    let mut i: usize = 0;
    while i < cs.len()
        invariant
            i <= cs@.len(),
            cs@ == name@,
            out@ == safe_name_spec(cs@.take(i as int)),
        decreases cs@.len() - i,
    {
        let c = cs[i];
        let keep = is_alphanumeric(c) || c == '-' || c == '_';
        out.push(if keep { c } else { '_' });
        i += 1;
        assert(safe_name_spec(cs@.take(i as int)) =~= safe_name_spec(cs@.take(i - 1)).push(
            if keep { c } else { '_' },
        ));
    }
    assert(cs@.take(cs@.len() as int) =~= cs@);
    out
}

/// Saved session states, one JSON file per session under a directory.
pub struct SessionStore {
    dir: String,
}

/// Terminal snapshots and named snapshots of sessions, under a directory.
pub struct SnapshotStore {
    dir: String,
}

impl View for SessionStore {
    type V = Seq<char>;

    /// The store's directory.
    closed spec fn view(&self) -> Seq<char> {
        self.dir@
    }
}

impl View for SnapshotStore {
    type V = Seq<char>;

    /// The store's directory.
    closed spec fn view(&self) -> Seq<char> {
        self.dir@
    }
}

impl SessionStore {
    /// A store under `dir`.
    pub fn with_dir(dir: String) -> (s: SessionStore)
        ensures
            s@ == dir@,
    {
        SessionStore { dir }
    }

    /// The store's directory.
    pub fn dir(&self) -> (r: &str)
        ensures
            r@ == self@,
    {
        self.dir.as_str()
    }

    /// The file of the state of session `id`: `<id>.json` in the directory.
    pub fn state_path(&self, id: &str) -> (r: String)
        ensures
            r@ == joined(self@, id@ + ".json"@),
    {
        let mut name = chars_of(id);
        append_chars(&mut name, ".json");
        join_path(self.dir.as_str(), &name)
    }
}

impl SnapshotStore {
    /// A store under `dir`.
    pub fn with_dir(dir: String) -> (s: SnapshotStore)
        ensures
            s@ == dir@,
    {
        SnapshotStore { dir }
    }

    /// The store's directory.
    pub fn dir(&self) -> (r: &str)
        ensures
            r@ == self@,
    {
        self.dir.as_str()
    }

    /// The file of the snapshot of a session: `<id>.snapshot.json`.
    pub fn snapshot_path(&self, session_id: &str) -> (r: String)
        ensures
            r@ == joined(self@, session_id@ + ".snapshot.json"@),
    {
        let mut name = chars_of(session_id);
        append_chars(&mut name, ".snapshot.json");
        join_path(self.dir.as_str(), &name)
    }

    /// The directory of a session's named snapshots: `<id>.snapshots`.
    pub fn named_dir(&self, session_id: &str) -> (r: String)
        ensures
            r@ == joined(self@, session_id@ + ".snapshots"@),
    {
        let mut name = chars_of(session_id);
        append_chars(&mut name, ".snapshots");
        join_path(self.dir.as_str(), &name)
    }

    /// The file of a named snapshot: `<safe name>_<YYYYmmddHHMMSS>.json` in
    /// the session's named-snapshot directory, or `None` when its time is
    /// out of the calendar's range.
    pub fn named_snapshot_path(&self, session_id: &str, snapshot: &NamedSnapshot) -> (r: Option<String>)
        ensures
            match utc_compact_stamp(snapshot.created_at) {
                None => r is None,
                Some(stamp) => r is Some && r->0@ == joined(
                    joined(self@, session_id@ + ".snapshots"@),
                    safe_name_spec(snapshot.name@) + seq!['_'] + stamp + ".json"@,
                ),
            },
            0 <= snapshot.created_at < 253_402_300_800_000 ==> r is Some && r->0@ == joined(
                joined(self@, session_id@ + ".snapshots"@),
                safe_name_spec(snapshot.name@) + seq!['_'] + stamp_of_millis(snapshot.created_at as int) + ".json"@,
            ),
    {
        let stamp = match compact_stamp(snapshot.created_at) {
            None => {
                return None;
            },
            Some(s) => s,
        };
        let dir = self.named_dir(session_id);
        let mut name = safe_name(snapshot.name.as_str());
        name.push('_');
        let mut i: usize = 0;
        let ghost base = name@;
        while i < stamp.len()
            invariant
                i <= stamp@.len(),
                name@ == base + stamp@.take(i as int),
            decreases stamp@.len() - i,
        {
            name.push(stamp[i]);
            i += 1;
            assert(stamp@.take(i as int) =~= stamp@.take(i - 1).push(stamp@[i - 1]));
        }
        assert(stamp@.take(stamp@.len() as int) =~= stamp@);
        append_chars(&mut name, ".json");
        Some(join_path(dir.as_str(), &name))
    }
}

/// The number of leading snapshots of `s` taken at or before time `t`.
pub open spec fn leading_at_or_before(s: Seq<NamedSnapshot>, t: i64) -> int
    decreases s.len(),
{
    if s.len() == 0 {
        0
    } else if s[0].created_at <= t {
        1 + leading_at_or_before(s.skip(1), t)
    } else {
        0
    }
}

/// `x` put into `s` after the leading snapshots taken at or before it.
pub open spec fn insert_by_time(s: Seq<NamedSnapshot>, x: NamedSnapshot) -> Seq<NamedSnapshot> {
    s.insert(leading_at_or_before(s, x.created_at), x)
}

/// The snapshots ordered by creation time, oldest first; snapshots of the
/// same time keep their order (a stable sort).
pub open spec fn time_sorted(s: Seq<NamedSnapshot>) -> Seq<NamedSnapshot>
    decreases s.len(),
{
    if s.len() == 0 {
        s
    } else {
        insert_by_time(time_sorted(s.drop_last()), s.last())
    }
}

/// Whether `s` is ordered by creation time.
pub open spec fn by_time(s: Seq<NamedSnapshot>) -> bool {
    forall|i: int, j: int| 0 <= i < j < s.len() ==> s[i].created_at <= s[j].created_at
}

proof fn lemma_leading_bounds(s: Seq<NamedSnapshot>, t: i64)
    ensures
        0 <= leading_at_or_before(s, t) <= s.len(),
        forall|k: int| 0 <= k < leading_at_or_before(s, t) ==> s[k].created_at <= t,
        leading_at_or_before(s, t) < s.len() ==> s[leading_at_or_before(s, t)].created_at > t,
    decreases s.len(),
{
    if s.len() > 0 {
        lemma_leading_bounds(s.skip(1), t);
        if s[0].created_at <= t {
            assert forall|k: int| 0 <= k < leading_at_or_before(s, t) implies s[k].created_at <= t by {
                if k > 0 {
                    assert(s[k] == s.skip(1)[k - 1]);
                }
            }
        }
    }
}

proof fn lemma_insert_keeps_order(s: Seq<NamedSnapshot>, x: NamedSnapshot)
    requires
        by_time(s),
    ensures
        by_time(insert_by_time(s, x)),
        insert_by_time(s, x).len() == s.len() + 1,
        insert_by_time(s, x).to_multiset() == s.to_multiset().insert(x),
{
    lemma_leading_bounds(s, x.created_at);
    let p = leading_at_or_before(s, x.created_at);
    let r = insert_by_time(s, x);
    assert forall|i: int, j: int| 0 <= i < j < r.len() implies r[i].created_at <= r[j].created_at by {
        if j < p {
        } else if j == p {
        } else if i < p {
            assert(r[j] == s[j - 1]);
            assert(s[i].created_at <= s[j - 1].created_at);
        } else if i == p {
            assert(r[j] == s[j - 1]);
            assert(s[p].created_at <= s[j - 1].created_at);
        } else {
            assert(r[i] == s[i - 1] && r[j] == s[j - 1]);
        }
    }
    vstd::seq_lib::to_multiset_insert(s, p, x);
}

/// Named snapshots are listed oldest first: sorting gives back the same
/// snapshots, ordered by creation time.
pub proof fn law_named_snapshots_sorted(s: Seq<NamedSnapshot>)
    ensures
        by_time(time_sorted(s)),
        time_sorted(s).to_multiset() == s.to_multiset(),
    decreases s.len(),
{
    if s.len() > 0 {
        law_named_snapshots_sorted(s.drop_last());
        lemma_insert_keeps_order(time_sorted(s.drop_last()), s.last());
        assert(s =~= s.drop_last().push(s.last()));
        vstd::seq_lib::to_multiset_build(s.drop_last(), s.last());
    }
}

/// The number of leading snapshots of `v` taken at or before `t`.
fn count_at_or_before(v: &Vec<NamedSnapshot>, t: i64) -> (r: usize)
    ensures
        r == leading_at_or_before(v@, t),
{
    let ghost s = v@;
    assert(s.skip(0) =~= s);
    let mut i: usize = 0;
    while i < v.len()
        invariant
            i <= s.len(),
            s == v@,
            leading_at_or_before(s, t) == i + leading_at_or_before(s.skip(i as int), t),
        decreases s.len() - i,
    {
        assert(s.skip(i as int)[0] == s[i as int]);
        assert(s.skip(i as int).skip(1) =~= s.skip(i + 1));
        if v[i].created_at <= t {
            i += 1;
        } else {
            return i;
        }
    }
    i
}

/// The snapshots ordered by creation time, oldest first, ties kept in
/// order (see `time_sorted`).
pub fn sort_by_created(v: Vec<NamedSnapshot>) -> (r: Vec<NamedSnapshot>)
    ensures
        r@ == time_sorted(v@),
{
    let ghost s = v@;
    assert(s.len() == v.len());
    let mut rest = v;
    let mut out: Vec<NamedSnapshot> = Vec::new();
    let mut k: usize = 0;
    assert(s.take(0) =~= Seq::<NamedSnapshot>::empty());
    while rest.len() > 0
        invariant
            k <= s.len(),
            s.len() <= usize::MAX,
            rest@ == s.skip(k as int),
            out@ == time_sorted(s.take(k as int)),
        decreases rest@.len(),
    {
        let x = rest.remove(0);
        proof {
            lemma_leading_bounds(out@, x.created_at);
            assert(s.take(k + 1).drop_last() =~= s.take(k as int));
            assert(s.take(k + 1).last() == s[k as int]);
        }
        let p = count_at_or_before(&out, x.created_at);
        out.insert(p, x);
        k += 1;
        assert(rest@ =~= s.skip(k as int));
    }
    assert(s.take(k as int) =~= s);
    out
}

} // verus!
