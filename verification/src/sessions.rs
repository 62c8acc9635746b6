//! The daemon's table of sessions: the sessions whose PTY it owns, keyed by
//! session ID, and the sessions of other processes it only tracks, keyed
//! by pane ID. Spawning PTYs and signalling processes happen around it; the
//! table says which sessions exist and which processes an operation
//! concerns. The messages between connections and session tasks are here
//! too.

use vstd::prelude::*;
use std::collections::HashMap;
use crate::codec::string_from_chars;
use crate::term::now_millis;
use crate::text::chars_of;

verus! {

/// Whether `c` is a lower-case hexadecimal digit.
pub open spec fn lower_hex(c: char) -> bool {
    ('0' <= c <= '9') || ('a' <= c <= 'f')
}

/// Calls `uuid::Uuid::new_v4().to_string()`: a random UUID in its
/// hyphenated form, 36 characters, lower-case hex digits with hyphens at
/// 8, 13, 18 and 23. Which UUID comes out is not stated: it is random.
#[verifier::external_body]
fn new_session_id() -> (r: Vec<char>)
    ensures
        r@.len() == 36,
        forall|k: int|
            0 <= k < 36 ==> if k == 8 || k == 13 || k == 18 || k == 23 {
                r@[k] == '-'
            } else {
                lower_hex(#[trigger] r@[k])
            },
{
    uuid::Uuid::new_v4().to_string().chars().collect()
}

/// The state of a session that is saved and listed.
pub struct SessionState {
    pub id: String,
    pub name: String,
    pub shell: String,
    pub cwd: String,
    /// The environment the shell starts with, by variable name.
    pub env: HashMap<String, String>,
    pub cols: u16,
    pub rows: u16,
    /// When the session was created (milliseconds since the Unix epoch).
    pub created_at: i64,
    /// The shell's process ID, once it runs.
    pub pid: Option<i32>,
}

/// A session's state as plain values.
pub struct StateView {
    pub id: Seq<char>,
    pub name: Seq<char>,
    pub shell: Seq<char>,
    pub cwd: Seq<char>,
    pub env: Map<String, String>,
    pub cols: u16,
    pub rows: u16,
    pub created_at: i64,
    pub pid: Option<i32>,
}

impl SessionState {
    pub open spec fn view(&self) -> StateView {
        StateView {
            id: self.id@,
            name: self.name@,
            shell: self.shell@,
            cwd: self.cwd@,
            env: self.env@,
            cols: self.cols,
            rows: self.rows,
            created_at: self.created_at,
            pid: self.pid,
        }
    }

    /// A new session's state: a fresh random ID, the name `session-` and
    /// the ID's first eight characters, no process yet.
    pub fn new(shell: &str, cwd: &str, cols: u16, rows: u16, env: HashMap<String, String>) -> (s: SessionState)
        ensures
            s.id@.len() == 36,
            s.name@ == "session-"@ + s.id@.take(8),
            s.shell@ == shell@,
            s.cwd@ == cwd@,
            s.env@ == env@,
            s.cols == cols,
            s.rows == rows,
            s.pid is None,
    {
        let id = new_session_id();
        let mut name = chars_of("session-");
        let ghost base = name@;
        let mut i: usize = 0;
        while i < 8
            invariant
                i <= 8,
                id@.len() == 36,
                name@ == base + id@.take(i as int),
            decreases 8 - i,
        {
            name.push(id[i]);
            i += 1;
            assert(id@.take(i as int) =~= id@.take(i - 1).push(id@[i - 1]));
        }
        SessionState {
            id: string_from_chars(&id),
            name: string_from_chars(&name),
            shell: shell.to_owned(),
            cwd: cwd.to_owned(),
            env,
            cols,
            rows,
            created_at: now_millis(),
            pid: None,
        }
    }
}

/// The table: owned sessions in the order they were added, external
/// sessions with their pane IDs.
pub struct SessionTable {
    owned: Vec<SessionState>,
    external: Vec<(u64, SessionState)>,
}

/// The table as plain values.
pub struct TableView {
    pub owned: Seq<StateView>,
    pub external: Seq<(u64, StateView)>,
}

/// The index of the owned session with ID `id`, if any.
pub open spec fn owned_index(owned: Seq<StateView>, id: Seq<char>) -> Option<int> {
    if exists|i: int| 0 <= i < owned.len() && #[trigger] owned[i].id == id {
        Some(choose|i: int| 0 <= i < owned.len() && #[trigger] owned[i].id == id)
    } else {
        None
    }
}

/// The index of the external session of pane `pane_id`, if any.
pub open spec fn pane_index(external: Seq<(u64, StateView)>, pane_id: u64) -> Option<int> {
    if exists|i: int| 0 <= i < external.len() && #[trigger] external[i].0 == pane_id {
        Some(choose|i: int| 0 <= i < external.len() && #[trigger] external[i].0 == pane_id)
    } else {
        None
    }
}

/// The index of the first external session with ID `id`, if any.
pub open spec fn external_index_of_id(external: Seq<(u64, StateView)>, id: Seq<char>) -> Option<int> {
    if exists|i: int| 0 <= i < external.len() && #[trigger] external[i].1.id == id {
        Some(choose|i: int| 0 <= i < external.len() && #[trigger] external[i].1.id == id && forall|j: int| 0 <= j < i ==> external[j].1.id != id)
    } else {
        None
    }
}

/// No two sessions of `s` share an ID.
pub open spec fn unique_ids(s: Seq<StateView>) -> bool {
    forall|i: int, j: int| 0 <= i < s.len() && 0 <= j < s.len() && i != j ==> #[trigger] s[i].id != #[trigger] s[j].id
}

/// No two entries of `s` share a pane.
pub open spec fn unique_panes(s: Seq<(u64, StateView)>) -> bool {
    forall|i: int, j: int| 0 <= i < s.len() && 0 <= j < s.len() && i != j ==> #[trigger] s[i].0 != #[trigger] s[j].0
}

/// When some entry from `i` on has ID `id` and none before `i` has, there
/// is a first entry with that ID.
proof fn lemma_first_with_id(ext: Seq<(u64, StateView)>, id: Seq<char>, i: int)
    requires
        0 <= i <= ext.len(),
        forall|j: int| 0 <= j < i ==> ext[j].1.id != id,
        exists|k: int| i <= k < ext.len() && #[trigger] ext[k].1.id == id,
    ensures
        exists|k: int| 0 <= k < ext.len() && #[trigger] ext[k].1.id == id && forall|j: int| 0 <= j < k ==> ext[j].1.id != id,
    decreases ext.len() - i,
{
    if ext[i].1.id == id {
        assert(0 <= i < ext.len() && ext[i].1.id == id && forall|j: int| 0 <= j < i ==> ext[j].1.id != id);
    } else {
        let k = choose|k: int| i <= k < ext.len() && #[trigger] ext[k].1.id == id;
        assert(i + 1 <= k);
        lemma_first_with_id(ext, id, i + 1);
    }
}

/// The external session found by its ID is also the one found by its pane.
proof fn lemma_external_pane(ext: Seq<(u64, StateView)>, id: Seq<char>)
    requires
        unique_panes(ext),
        external_index_of_id(ext, id) is Some,
    ensures
        ({
            let k = external_index_of_id(ext, id)->0;
            &&& 0 <= k < ext.len()
            &&& pane_index(ext, ext[k].0) == Some(k)
        }),
{
    lemma_first_with_id(ext, id, 0);
    let k = external_index_of_id(ext, id)->0;
    assert(0 <= k < ext.len() && ext[k].1.id == id);
    let p = ext[k].0;
    assert(exists|i: int| 0 <= i < ext.len() && #[trigger] ext[i].0 == p);
    let c = choose|i: int| 0 <= i < ext.len() && #[trigger] ext[i].0 == p;
    if c != k {
        assert(ext[c].0 != ext[k].0);
    }
}

/// Where a session to exit lives.
#[derive(PartialEq, Eq, Structural)]
pub enum ExitTarget {
    /// An owned session and its shell's process.
    Owned { pid: Option<i32> },
    /// An external session, its pane and its process.
    External { pane_id: u64, pid: Option<i32> },
    /// No session has the ID.
    NotFound,
}

/// The signal that ends the process of an exited session.
#[derive(Debug, Clone, Copy, PartialEq, Eq, Structural)]
pub enum ExitSignal {
    /// SIGHUP: the shell is asked to hang up.
    Hangup,
    /// SIGKILL: the process is killed.
    Kill,
}

/// What exiting a session did.
pub enum ExitOutcome {
    /// The session left the table. `state` is what it was; its process, if
    /// it has one, is to get `signal` (an owned session's whole process
    /// group), and its saved state is to be removed.
    Exited { state: SessionState, owned: bool, signal: ExitSignal },
    /// The foreground process `process` runs in the session; it stays.
    Busy { process: String },
    /// No session has the ID.
    NotFound,
}

/// Whether session `s` with probe result `ok` is alive: it has a process
/// and probing it succeeded.
pub open spec fn alive(s: StateView, ok: bool) -> bool {
    s.pid is Some && ok
}

/// The owned sessions that are alive, in order.
pub open spec fn kept_owned(s: Seq<StateView>, probe: Seq<bool>) -> Seq<StateView>
    decreases s.len(),
{
    if s.len() == 0 {
        s
    } else if alive(s.last(), probe[s.len() - 1]) {
        kept_owned(s.drop_last(), probe.take(s.len() - 1)).push(s.last())
    } else {
        kept_owned(s.drop_last(), probe.take(s.len() - 1))
    }
}

/// The owned sessions that are gone, in order.
pub open spec fn dropped_owned(s: Seq<StateView>, probe: Seq<bool>) -> Seq<StateView>
    decreases s.len(),
{
    if s.len() == 0 {
        s
    } else if alive(s.last(), probe[s.len() - 1]) {
        dropped_owned(s.drop_last(), probe.take(s.len() - 1))
    } else {
        dropped_owned(s.drop_last(), probe.take(s.len() - 1)).push(s.last())
    }
}

/// The external entries that are alive, in order.
pub open spec fn kept_external(s: Seq<(u64, StateView)>, probe: Seq<bool>) -> Seq<(u64, StateView)>
    decreases s.len(),
{
    if s.len() == 0 {
        s
    } else if alive(s.last().1, probe[s.len() - 1]) {
        kept_external(s.drop_last(), probe.take(s.len() - 1)).push(s.last())
    } else {
        kept_external(s.drop_last(), probe.take(s.len() - 1))
    }
}

/// The external entries that are gone, in order.
pub open spec fn dropped_external(s: Seq<(u64, StateView)>, probe: Seq<bool>) -> Seq<(u64, StateView)>
    decreases s.len(),
{
    if s.len() == 0 {
        s
    } else if alive(s.last().1, probe[s.len() - 1]) {
        dropped_external(s.drop_last(), probe.take(s.len() - 1))
    } else {
        dropped_external(s.drop_last(), probe.take(s.len() - 1)).push(s.last())
    }
}

/// What is kept of `s` is a part of `s`: each kept session is one of `s`,
/// at increasing positions.
proof fn lemma_kept_owned_sub(s: Seq<StateView>, probe: Seq<bool>)
    requires
        probe.len() == s.len(),
    ensures
        kept_owned(s, probe).len() <= s.len(),
        forall|a: int| 0 <= a < kept_owned(s, probe).len() ==> exists|b: int| 0 <= b < s.len() && #[trigger] kept_owned(s, probe)[a] == s[b],
    decreases s.len(),
{
    if s.len() > 0 {
        lemma_kept_owned_sub(s.drop_last(), probe.take(s.len() - 1));
    }
}

proof fn lemma_kept_owned_unique(s: Seq<StateView>, probe: Seq<bool>)
    requires
        probe.len() == s.len(),
        unique_ids(s),
    ensures
        unique_ids(kept_owned(s, probe)),
    decreases s.len(),
{
    if s.len() > 0 {
        let p = probe.take(s.len() - 1);
        lemma_kept_owned_unique(s.drop_last(), p);
        lemma_kept_owned_sub(s.drop_last(), p);
        let k = kept_owned(s.drop_last(), p);
        if alive(s.last(), probe[s.len() - 1]) {
            assert forall|a: int| 0 <= a < k.len() implies #[trigger] k[a].id != s.last().id by {
                let b = choose|b: int| 0 <= b < s.drop_last().len() && k[a] == s.drop_last()[b];
                assert(s.drop_last()[b] == s[b]);
            }
            let kk = k.push(s.last());
            assert forall|a: int, b: int| 0 <= a < kk.len() && 0 <= b < kk.len() && a != b implies #[trigger] kk[a].id != #[trigger] kk[b].id by {
                if a < k.len() && b < k.len() {
                    assert(kk[a] == k[a] && kk[b] == k[b]);
                } else if a < k.len() {
                    assert(kk[a] == k[a]);
                } else if b < k.len() {
                    assert(kk[b] == k[b]);
                }
            }
        }
    }
}

proof fn lemma_kept_external_sub(s: Seq<(u64, StateView)>, probe: Seq<bool>)
    requires
        probe.len() == s.len(),
    ensures
        kept_external(s, probe).len() <= s.len(),
        forall|a: int| 0 <= a < kept_external(s, probe).len() ==> exists|b: int| 0 <= b < s.len() && #[trigger] kept_external(s, probe)[a] == s[b],
    decreases s.len(),
{
    if s.len() > 0 {
        lemma_kept_external_sub(s.drop_last(), probe.take(s.len() - 1));
    }
}

proof fn lemma_kept_external_unique(s: Seq<(u64, StateView)>, probe: Seq<bool>)
    requires
        probe.len() == s.len(),
        unique_panes(s),
    ensures
        unique_panes(kept_external(s, probe)),
    decreases s.len(),
{
    if s.len() > 0 {
        let p = probe.take(s.len() - 1);
        lemma_kept_external_unique(s.drop_last(), p);
        lemma_kept_external_sub(s.drop_last(), p);
        let k = kept_external(s.drop_last(), p);
        if alive(s.last().1, probe[s.len() - 1]) {
            assert forall|a: int| 0 <= a < k.len() implies #[trigger] k[a].0 != s.last().0 by {
                let b = choose|b: int| 0 <= b < s.drop_last().len() && k[a] == s.drop_last()[b];
                assert(s.drop_last()[b] == s[b]);
            }
            let kk = k.push(s.last());
            assert forall|a: int, b: int| 0 <= a < kk.len() && 0 <= b < kk.len() && a != b implies #[trigger] kk[a].0 != #[trigger] kk[b].0 by {
                if a < k.len() && b < k.len() {
                    assert(kk[a] == k[a] && kk[b] == k[b]);
                } else if a < k.len() {
                    assert(kk[a] == k[a]);
                } else if b < k.len() {
                    assert(kk[b] == k[b]);
                }
            }
        }
    }
}

impl SessionTable {
    pub closed spec fn view(&self) -> TableView {
        TableView {
            owned: self.owned@.map_values(|s: SessionState| s.view()),
            external: self.external@.map_values(|p: (u64, SessionState)| (p.0, p.1.view())),
        }
    }

    /// No two owned sessions share an ID, no two external sessions a pane.
    pub open spec fn wf(&self) -> bool {
        &&& unique_ids(self.view().owned)
        &&& unique_panes(self.view().external)
    }

    /// In a well-formed table the owned session with an ID is unique.
    proof fn lemma_owned_index(&self, i: int, id: Seq<char>)
        requires
            self.wf(),
            0 <= i < self.view().owned.len(),
            self.view().owned[i].id == id,
        ensures
            owned_index(self.view().owned, id) == Some(i),
    {
        let o = self.view().owned;
        let c = choose|k: int| 0 <= k < o.len() && #[trigger] o[k].id == id;
        assert(0 <= c < o.len() && o[c].id == id);
        if c < i {
            assert(o[c].id != o[i].id);
        } else if c > i {
            assert(o[i].id != o[c].id);
        }
    }

    /// In a well-formed table the external session of a pane is unique.
    proof fn lemma_pane_index(&self, i: int, pane_id: u64)
        requires
            self.wf(),
            0 <= i < self.view().external.len(),
            self.view().external[i].0 == pane_id,
        ensures
            pane_index(self.view().external, pane_id) == Some(i),
    {
        let t = self.view().external;
        let c = choose|k: int| 0 <= k < t.len() && #[trigger] t[k].0 == pane_id;
        assert(0 <= c < t.len() && t[c].0 == pane_id);
        if c < i {
            assert(t[c].0 != t[i].0);
        } else if c > i {
            assert(t[i].0 != t[c].0);
        }
    }

    /// An empty table.
    pub fn new() -> (t: SessionTable)
        ensures
            t.wf(),
            t.view().owned.len() == 0,
            t.view().external.len() == 0,
    {
        let t = SessionTable { owned: Vec::new(), external: Vec::new() };
        assert(t.view().owned =~= Seq::<StateView>::empty());
        t
    }

    /// The index of the owned session `id`.
    fn find_owned(&self, id: &str) -> (r: Option<usize>)
        ensures
            match r {
                Some(i) => i < self.view().owned.len() && self.view().owned[i as int].id == id@,
                None => owned_index(self.view().owned, id@) is None,
            },
    {
        let target = chars_of(id);
        let mut i: usize = 0;
        while i < self.owned.len()
            invariant
                i <= self.owned@.len(),
                target@ == id@,
                forall|k: int| 0 <= k < i ==> #[trigger] self.view().owned[k].id != id@,
            decreases self.owned@.len() - i,
        {
            let cs = chars_of(self.owned[i].id.as_str());
            if crate::text::chars_eq(&cs, target.as_slice()) {
                return Some(i);
            }
            i += 1;
        }
        None
    }

    /// The index of the external session of pane `pane_id`.
    fn find_pane(&self, pane_id: u64) -> (r: Option<usize>)
        ensures
            match r {
                Some(i) => i < self.view().external.len() && self.view().external[i as int].0 == pane_id,
                None => pane_index(self.view().external, pane_id) is None,
            },
    {
        let mut i: usize = 0;
        while i < self.external.len()
            invariant
                i <= self.external@.len(),
                forall|k: int| 0 <= k < i ==> #[trigger] self.view().external[k].0 != pane_id,
            decreases self.external@.len() - i,
        {
            if self.external[i].0 == pane_id {
                return Some(i);
            }
            i += 1;
        }
        None
    }

    /// Add an owned session; one with the same ID is replaced.
    pub fn insert_owned(&mut self, state: SessionState)
        requires
            old(self).wf(),
        ensures
            final(self).wf(),
            final(self).view().external == old(self).view().external,
            match owned_index(old(self).view().owned, state.id@) {
                Some(i) => final(self).view().owned == old(self).view().owned.update(i, state.view()),
                None => final(self).view().owned == old(self).view().owned.push(state.view()),
            },
    {
        match self.find_owned(state.id.as_str()) {
            Some(i) => {
                proof {
                    self.lemma_owned_index(i as int, state.id@);
                }
                self.owned.set(i, state);
                assert(self.view().owned =~= old(self).view().owned.update(i as int, state.view()));
            },
            None => {
                self.owned.push(state);
                assert(self.view().owned =~= old(self).view().owned.push(state.view()));
            },
        }
    }

    /// The owned session with ID `id`.
    pub fn get(&self, id: &str) -> (r: Option<&SessionState>)
        requires
            self.wf(),
        ensures
            match owned_index(self.view().owned, id@) {
                Some(i) => r is Some && r->0.view() == self.view().owned[i],
                None => r is None,
            },
    {
        match self.find_owned(id) {
            Some(i) => {
                proof {
                    self.lemma_owned_index(i as int, id@);
                }
                Some(&self.owned[i])
            },
            None => None,
        }
    }

    /// Remove the owned session `id`, giving it back (its shell is then to
    /// be hung up).
    pub fn remove(&mut self, id: &str) -> (r: Option<SessionState>)
        requires
            old(self).wf(),
        ensures
            final(self).wf(),
            final(self).view().external == old(self).view().external,
            match owned_index(old(self).view().owned, id@) {
                Some(i) => r is Some && r->0.view() == old(self).view().owned[i] && final(self).view().owned
                    == old(self).view().owned.remove(i),
                None => r is None && final(self).view().owned == old(self).view().owned,
            },
    {
        match self.find_owned(id) {
            Some(i) => {
                proof {
                    self.lemma_owned_index(i as int, id@);
                }
                let s = self.owned.remove(i);
                assert(self.view().owned =~= old(self).view().owned.remove(i as int));
                Some(s)
            },
            None => None,
        }
    }

    /// The IDs of all sessions: owned ones, then external ones.
    pub fn list(&self) -> (r: Vec<String>)
        ensures
            r@.map_values(|s: String| s@) == listed_ids(self.view()),
    {
        let ghost want = self.view().owned.map_values(|s: StateView| s.id)
            + self.view().external.map_values(|p: (u64, StateView)| p.1.id);
        let ghost n = self.owned@.len();
        let mut r: Vec<String> = Vec::new();
        let mut i: usize = 0;
        while i < self.owned.len()
            invariant
                i <= self.owned@.len(),
                n == self.owned@.len(),
                want == self.view().owned.map_values(|s: StateView| s.id)
                    + self.view().external.map_values(|p: (u64, StateView)| p.1.id),
                r@.len() == i,
                forall|k: int| 0 <= k < i ==> #[trigger] r@[k]@ == want[k],
            decreases self.owned@.len() - i,
        {
            let id = self.owned[i].id.clone();
            assert(want[i as int] == self.view().owned[i as int].id);
            r.push(id);
            i += 1;
        }
        let mut j: usize = 0;
        while j < self.external.len()
            invariant
                j <= self.external@.len(),
                n == self.owned@.len(),
                want == self.view().owned.map_values(|s: StateView| s.id)
                    + self.view().external.map_values(|p: (u64, StateView)| p.1.id),
                r@.len() == n + j,
                forall|k: int| 0 <= k < n + j ==> #[trigger] r@[k]@ == want[k],
            decreases self.external@.len() - j,
        {
            let id = self.external[j].1.id.clone();
            assert(want[n + j] == self.view().external[j as int].1.id);
            r.push(id);
            j += 1;
        }
        assert(r@.map_values(|s: String| s@) =~= want);
        r
    }

    /// The owned sessions' states, then the external ones'.
    pub fn list_details(&self) -> (r: Vec<&SessionState>)
        ensures
            r@.map_values(|s: &SessionState| s.view()) == self.view().owned + self.view().external.map_values(
                |p: (u64, StateView)| p.1,
            ),
    {
        let ghost want = self.view().owned + self.view().external.map_values(|p: (u64, StateView)| p.1);
        let ghost n = self.owned@.len();
        let mut r: Vec<&SessionState> = Vec::new();
        let mut i: usize = 0;
        while i < self.owned.len()
            invariant
                i <= self.owned@.len(),
                n == self.owned@.len(),
                want == self.view().owned + self.view().external.map_values(|p: (u64, StateView)| p.1),
                r@.len() == i,
                forall|k: int| 0 <= k < i ==> #[trigger] r@[k].view() == want[k],
            decreases self.owned@.len() - i,
        {
            assert(want[i as int] == self.view().owned[i as int]);
            r.push(&self.owned[i]);
            i += 1;
        }
        let mut j: usize = 0;
        while j < self.external.len()
            invariant
                j <= self.external@.len(),
                n == self.owned@.len(),
                want == self.view().owned + self.view().external.map_values(|p: (u64, StateView)| p.1),
                r@.len() == n + j,
                forall|k: int| 0 <= k < n + j ==> #[trigger] r@[k].view() == want[k],
            decreases self.external@.len() - j,
        {
            assert(want[n + j] == self.view().external[j as int].1);
            r.push(&self.external[j].1);
            j += 1;
        }
        assert(r@.map_values(|s: &SessionState| s.view()) =~= want);
        r
    }

    /// Set the working directory of the owned session `id`, giving back its
    /// new state to save; `None` when there is no such session.
    pub fn update_session_cwd(&mut self, id: &str, cwd: &str) -> (r: Option<&SessionState>)
        requires
            old(self).wf(),
        ensures
            final(self).wf(),
            final(self).view().external == old(self).view().external,
            match owned_index(old(self).view().owned, id@) {
                Some(i) => final(self).view().owned == old(self).view().owned.update(
                    i,
                    StateView { cwd: cwd@, ..old(self).view().owned[i] },
                ) && r is Some && r->0.view() == final(self).view().owned[i],
                None => final(self).view().owned == old(self).view().owned && r is None,
            },
    {
        match self.find_owned(id) {
            Some(i) => {
                proof {
                    self.lemma_owned_index(i as int, id@);
                }
                let mut s = self.owned.remove(i);
                s.cwd = cwd.to_owned();
                self.owned.insert(i, s);
                assert(self.view().owned =~= old(self).view().owned.update(
                    i as int,
                    StateView { cwd: cwd@, ..old(self).view().owned[i as int] },
                ));
                Some(&self.owned[i])
            },
            None => None,
        }
    }

    /// Track the session of another process's pane; a session external for
    /// the same pane is replaced. Gives back the session's ID.
    pub fn register_external(&mut self, pane_id: u64, state: SessionState) -> (r: String)
        requires
            old(self).wf(),
        ensures
            final(self).wf(),
            r@ == state.id@,
            final(self).view().owned == old(self).view().owned,
            match pane_index(old(self).view().external, pane_id) {
                Some(i) => final(self).view().external == old(self).view().external.update(i, (pane_id, state.view())),
                None => final(self).view().external == old(self).view().external.push((pane_id, state.view())),
            },
    {
        let id = state.id.clone();
        match self.find_pane(pane_id) {
            Some(i) => {
                proof {
                    self.lemma_pane_index(i as int, pane_id);
                }
                self.external.set(i, (pane_id, state));
                assert(self.view().external =~= old(self).view().external.update(i as int, (pane_id, state.view())));
            },
            None => {
                self.external.push((pane_id, state));
                assert(self.view().external =~= old(self).view().external.push((pane_id, state.view())));
            },
        }
        id
    }

    /// Stop tracking pane `pane_id`, giving back its session (whose saved
    /// state is then to be removed).
    pub fn unregister_external(&mut self, pane_id: u64) -> (r: Option<SessionState>)
        requires
            old(self).wf(),
        ensures
            final(self).wf(),
            final(self).view().owned == old(self).view().owned,
            match pane_index(old(self).view().external, pane_id) {
                Some(i) => r is Some && r->0.view() == old(self).view().external[i].1 && final(self).view().external
                    == old(self).view().external.remove(i),
                None => r is None && final(self).view().external == old(self).view().external,
            },
    {
        match self.find_pane(pane_id) {
            Some(i) => {
                proof {
                    self.lemma_pane_index(i as int, pane_id);
                }
                let (_p, s) = self.external.remove(i);
                assert(self.view().external =~= old(self).view().external.remove(i as int));
                Some(s)
            },
            None => None,
        }
    }

    /// The pane and process of the first external session with ID `id`.
    pub fn find_external(&self, id: &str) -> (r: Option<(u64, Option<i32>)>)
        ensures
            match external_index_of_id(self.view().external, id@) {
                Some(i) => r == Some((self.view().external[i].0, self.view().external[i].1.pid)),
                None => r is None,
            },
    {
        let target = chars_of(id);
        let mut i: usize = 0;
        while i < self.external.len()
            invariant
                i <= self.external@.len(),
                target@ == id@,
                forall|k: int| 0 <= k < i ==> #[trigger] self.view().external[k].1.id != id@,
            decreases self.external@.len() - i,
        {
            let cs = chars_of(self.external[i].1.id.as_str());
            if crate::text::chars_eq(&cs, target.as_slice()) {
                let ghost t = self.view().external;
                assert(t[i as int].1.id == id@);
                assert(external_index_of_id(t, id@) == Some(i as int)) by {
                    let c = choose|k: int| 0 <= k < t.len() && #[trigger] t[k].1.id == id@ && forall|j: int| 0 <= j < k ==> t[j].1.id != id@;
                    assert(0 <= i < t.len() && t[i as int].1.id == id@ && forall|j: int| 0 <= j < i ==> t[j].1.id != id@);
                    if c < i {
                    } else if c > i {
                        assert(t[i as int].1.id != id@);
                    }
                }
                return Some((self.external[i].0, self.external[i].1.pid));
            }
            i += 1;
        }
        None
    }

    /// Take every session out of the table (to hang up the owned shells
    /// and kill the external processes).
    pub fn take_all(&mut self) -> (r: (Vec<SessionState>, Vec<(u64, SessionState)>))
        requires
            old(self).wf(),
        ensures
            final(self).wf(),
            final(self).view().owned.len() == 0,
            final(self).view().external.len() == 0,
            r.0@.map_values(|s: SessionState| s.view()) == old(self).view().owned,
            r.1@.map_values(|p: (u64, SessionState)| (p.0, p.1.view())) == old(self).view().external,
    {
        let mut owned: Vec<SessionState> = Vec::new();
        let mut external: Vec<(u64, SessionState)> = Vec::new();
        std::mem::swap(&mut owned, &mut self.owned);
        std::mem::swap(&mut external, &mut self.external);
        assert(self.view().owned =~= Seq::<StateView>::empty());
        assert(self.view().external =~= Seq::<(u64, StateView)>::empty());
        (owned, external)
    }

    /// The processes of the owned sessions and of the external ones, in
    /// table order (the order `reap` takes its probe results in).
    pub fn pids(&self) -> (r: (Vec<Option<i32>>, Vec<Option<i32>>))
        ensures
            r.0@ == self.view().owned.map_values(|s: StateView| s.pid),
            r.1@ == self.view().external.map_values(|p: (u64, StateView)| p.1.pid),
    {
        let mut a: Vec<Option<i32>> = Vec::new();
        let mut i: usize = 0;
        while i < self.owned.len()
            invariant
                i <= self.owned@.len(),
                a@ == self.view().owned.take(i as int).map_values(|s: StateView| s.pid),
            decreases self.owned@.len() - i,
        {
            a.push(self.owned[i].pid);
            i += 1;
            assert(a@ =~= self.view().owned.take(i as int).map_values(|s: StateView| s.pid));
        }
        assert(self.view().owned.take(i as int) =~= self.view().owned);
        let mut b: Vec<Option<i32>> = Vec::new();
        let mut j: usize = 0;
        while j < self.external.len()
            invariant
                j <= self.external@.len(),
                b@ == self.view().external.take(j as int).map_values(|p: (u64, StateView)| p.1.pid),
            decreases self.external@.len() - j,
        {
            b.push(self.external[j].1.pid);
            j += 1;
            assert(b@ =~= self.view().external.take(j as int).map_values(|p: (u64, StateView)| p.1.pid));
        }
        assert(self.view().external.take(j as int) =~= self.view().external);
        (a, b)
    }

    /// Where the session `id` lives: owned (its shell's process), external
    /// (its pane and process), or nowhere. Owned sessions are looked up
    /// first.
    pub fn exit_target(&self, id: &str) -> (r: ExitTarget)
        requires
            self.wf(),
        ensures
            match owned_index(self.view().owned, id@) {
                Some(i) => r == ExitTarget::Owned { pid: self.view().owned[i].pid },
                None => match external_index_of_id(self.view().external, id@) {
                    Some(k) => r == ExitTarget::External {
                        pane_id: self.view().external[k].0,
                        pid: self.view().external[k].1.pid,
                    },
                    None => r == ExitTarget::NotFound,
                },
            },
    {
        match self.get(id) {
            Some(s) => ExitTarget::Owned { pid: s.pid },
            None => match self.find_external(id) {
                Some((pane_id, pid)) => ExitTarget::External { pane_id, pid },
                None => ExitTarget::NotFound,
            },
        }
    }

    /// Exit session `id`. `foreground` names the process in the foreground
    /// of the session's shell, looked up for the process `exit_target`
    /// gives (`None` when nothing runs there). Unless `force`, a session
    /// with a process and a foreground process stays and the answer is
    /// `Busy`; otherwise it leaves the table: an owned one to be hung up,
    /// an external one to be hung up, or killed when forced.
    #[verifier::spinoff_prover]
    #[verifier::rlimit(40)]
    pub fn exit_session(&mut self, id: &str, force: bool, foreground: Option<String>) -> (r: ExitOutcome)
        requires
            old(self).wf(),
        ensures
            final(self).wf(),
            r is Exited ==> exited_table(old(self).view(), id@) == Some(final(self).view()),
            r is NotFound <==> exited_table(old(self).view(), id@) is None,
            match owned_index(old(self).view().owned, id@) {
                Some(i) => if !force && old(self).view().owned[i].pid is Some && foreground is Some {
                    &&& r matches ExitOutcome::Busy { process } && process@ == foreground->0@
                    &&& final(self).view() == old(self).view()
                } else {
                    &&& r matches ExitOutcome::Exited { state, owned, signal } && state.view()
                        == old(self).view().owned[i] && owned && signal == ExitSignal::Hangup
                    &&& final(self).view().owned == old(self).view().owned.remove(i)
                    &&& final(self).view().external == old(self).view().external
                },
                None => match external_index_of_id(old(self).view().external, id@) {
                    Some(k) => if !force && old(self).view().external[k].1.pid is Some && foreground is Some {
                        &&& r matches ExitOutcome::Busy { process } && process@ == foreground->0@
                        &&& final(self).view() == old(self).view()
                    } else {
                        &&& r matches ExitOutcome::Exited { state, owned, signal } && state.view()
                            == old(self).view().external[k].1 && !owned && signal == (if force {
                            ExitSignal::Kill
                        } else {
                            ExitSignal::Hangup
                        })
                        &&& final(self).view().owned == old(self).view().owned
                        &&& final(self).view().external == old(self).view().external.remove(k)
                    },
                    None => r is NotFound && final(self).view() == old(self).view(),
                },
            },
    {
        match self.exit_target(id) {
            ExitTarget::Owned { pid } => {
                if !force && pid.is_some() {
                    match foreground {
                        Some(process) => return ExitOutcome::Busy { process },
                        None => {},
                    }
                }
                match self.remove(id) {
                    Some(state) => ExitOutcome::Exited { state, owned: true, signal: ExitSignal::Hangup },
                    None => ExitOutcome::NotFound,
                }
            },
            ExitTarget::External { pane_id, pid } => {
                if !force && pid.is_some() {
                    match foreground {
                        Some(process) => return ExitOutcome::Busy { process },
                        None => {},
                    }
                }
                proof {
                    lemma_external_pane(self.view().external, id@);
                }
                let signal = if force { ExitSignal::Kill } else { ExitSignal::Hangup };
                match self.unregister_external(pane_id) {
                    Some(state) => ExitOutcome::Exited { state, owned: false, signal },
                    None => ExitOutcome::NotFound,
                }
            },
            ExitTarget::NotFound => ExitOutcome::NotFound,
        }
    }

    /// Drop the sessions whose process is gone: a session is alive when it
    /// has a process and probing that process succeeded (`owned_probe[i]`,
    /// `external_probe[k]`, in table order). Gives back the IDs of the
    /// owned sessions dropped and the external entries dropped.
    pub fn reap(&mut self, owned_probe: &Vec<bool>, external_probe: &Vec<bool>) -> (r: (Vec<String>, Vec<(u64, SessionState)>))
        requires
            old(self).wf(),
            owned_probe@.len() == old(self).view().owned.len(),
            external_probe@.len() == old(self).view().external.len(),
        ensures
            final(self).wf(),
            final(self).view().owned == kept_owned(old(self).view().owned, owned_probe@),
            final(self).view().external == kept_external(old(self).view().external, external_probe@),
            r.0@.map_values(|s: String| s@) == dropped_owned(old(self).view().owned, owned_probe@).map_values(
                |s: StateView| s.id,
            ),
            r.1@.map_values(|p: (u64, SessionState)| (p.0, p.1.view())) == dropped_external(
                old(self).view().external,
                external_probe@,
            ),
    {
        let mut owned: Vec<SessionState> = Vec::new();
        std::mem::swap(&mut owned, &mut self.owned);
        let ghost o = old(self).view().owned;
        assert(o.len() == owned_probe.len());
        let mut dead: Vec<String> = Vec::new();
        let mut keep: Vec<SessionState> = Vec::new();
        let mut i: usize = 0;
        assert(owned@.map_values(|s: SessionState| s.view()).skip(0) =~= o);
        while owned.len() > 0
            invariant
                i <= o.len(),
                o.len() == owned_probe@.len(),
                o.len() <= usize::MAX,
                owned@.map_values(|s: SessionState| s.view()) == o.skip(i as int),
                keep@.map_values(|s: SessionState| s.view()) == kept_owned(o.take(i as int), owned_probe@.take(i as int)),
                dead@.map_values(|s: String| s@) == dropped_owned(o.take(i as int), owned_probe@.take(i as int)).map_values(
                    |s: StateView| s.id,
                ),
            decreases owned@.len(),
        {
            let ghost before = owned@;
            proof {
                assert(owned@.map_values(|x: SessionState| x.view()).len() == owned@.len());
                assert(i < o.len());
                assert(owned@.map_values(|x: SessionState| x.view())[0] == owned@[0].view());
                assert(o.skip(i as int)[0] == o[i as int]);
            }
            let s = owned.remove(0);
            proof {
                assert(o.take(i + 1).drop_last() =~= o.take(i as int));
                assert(owned_probe@.take(i + 1).drop_last() =~= owned_probe@.take(i as int));
                assert(o.take(i + 1).last() == o[i as int]);
                assert(owned_probe@.take(i + 1).last() == owned_probe@[i as int]);
            }
            let alive = s.pid.is_some() && owned_probe[i];
            if alive {
                keep.push(s);
                assert(keep@.map_values(|x: SessionState| x.view()) =~= kept_owned(o.take(i as int), owned_probe@.take(i as int)).push(o[i as int]));
            } else {
                dead.push(s.id);
                assert(dead@.map_values(|x: String| x@) =~= dropped_owned(o.take(i as int), owned_probe@.take(i as int)).map_values(
                    |x: StateView| x.id,
                ).push(o[i as int].id));
            }
            assert(owned@.map_values(|x: SessionState| x.view()) =~= before.map_values(|x: SessionState| x.view()).skip(1));
            assert(o.skip(i as int).skip(1) =~= o.skip(i + 1));
            i += 1;
        }
        assert(o.take(i as int) =~= o);
        assert(owned_probe@.take(i as int) =~= owned_probe@);
        self.owned = keep;
        proof {
            lemma_kept_owned_unique(o, owned_probe@);
        }
        let mut ext: Vec<(u64, SessionState)> = Vec::new();
        std::mem::swap(&mut ext, &mut self.external);
        let ghost e = old(self).view().external;
        assert(e.len() == external_probe.len());
        let mut gone: Vec<(u64, SessionState)> = Vec::new();
        let mut stay: Vec<(u64, SessionState)> = Vec::new();
        let mut k: usize = 0;
        assert(ext@.map_values(|p: (u64, SessionState)| (p.0, p.1.view())).skip(0) =~= e);
        while ext.len() > 0
            invariant
                k <= e.len(),
                e.len() == external_probe@.len(),
                e.len() <= usize::MAX,
                ext@.map_values(|p: (u64, SessionState)| (p.0, p.1.view())) == e.skip(k as int),
                stay@.map_values(|p: (u64, SessionState)| (p.0, p.1.view())) == kept_external(e.take(k as int), external_probe@.take(k as int)),
                gone@.map_values(|p: (u64, SessionState)| (p.0, p.1.view())) == dropped_external(e.take(k as int), external_probe@.take(k as int)),
            decreases ext@.len(),
        {
            let ghost before_e = ext@;
            proof {
                assert(ext@.map_values(|x: (u64, SessionState)| (x.0, x.1.view())).len() == ext@.len());
                assert(k < e.len());
                assert(ext@.map_values(|x: (u64, SessionState)| (x.0, x.1.view()))[0] == (ext@[0].0, ext@[0].1.view()));
                assert(e.skip(k as int)[0] == e[k as int]);
            }
            let p = ext.remove(0);
            proof {
                assert(e.take(k + 1).drop_last() =~= e.take(k as int));
                assert(external_probe@.take(k + 1).drop_last() =~= external_probe@.take(k as int));
                assert(e.take(k + 1).last() == e[k as int]);
                assert(external_probe@.take(k + 1).last() == external_probe@[k as int]);
            }
            let alive = p.1.pid.is_some() && external_probe[k];
            if alive {
                stay.push(p);
                assert(stay@.map_values(|x: (u64, SessionState)| (x.0, x.1.view())) =~= kept_external(e.take(k as int), external_probe@.take(k as int)).push(e[k as int]));
            } else {
                gone.push(p);
                assert(gone@.map_values(|x: (u64, SessionState)| (x.0, x.1.view())) =~= dropped_external(e.take(k as int), external_probe@.take(k as int)).push(e[k as int]));
            }
            assert(ext@.map_values(|x: (u64, SessionState)| (x.0, x.1.view())) =~= before_e.map_values(
                |x: (u64, SessionState)| (x.0, x.1.view()),
            ).skip(1));
            assert(e.skip(k as int).skip(1) =~= e.skip(k + 1));
            k += 1;
        }
        assert(e.take(k as int) =~= e);
        assert(external_probe@.take(k as int) =~= external_probe@);
        self.external = stay;
        proof {
            lemma_kept_external_unique(e, external_probe@);
        }
        (dead, gone)
    }
}

/// The IDs the table lists: owned sessions first, then external ones.
pub open spec fn listed_ids(t: TableView) -> Seq<Seq<char>> {
    t.owned.map_values(|s: StateView| s.id) + t.external.map_values(|p: (u64, StateView)| p.1.id)
}

/// The table once session `id` has left it (the owned session with the ID,
/// else the first external one), or `None` when no session has the ID.
pub open spec fn exited_table(t: TableView, id: Seq<char>) -> Option<TableView> {
    match owned_index(t.owned, id) {
        Some(i) => Some(TableView { owned: t.owned.remove(i), external: t.external }),
        None => match external_index_of_id(t.external, id) {
            Some(k) => Some(TableView { owned: t.owned, external: t.external.remove(k) }),
            None => None,
        },
    }
}

/// Exiting finds a session exactly when its ID is listed; and a session
/// that exits is no longer listed, as long as its ID was listed once.
pub proof fn law_exited_session_unlisted(t: TableView, id: Seq<char>)
    requires
        unique_ids(t.owned),
    ensures
        exited_table(t, id) is None <==> !listed_ids(t).contains(id),
        ({
            let l = listed_ids(t);
            &&& forall|i: int, j: int| 0 <= i < j < l.len() && l[i] == id ==> l[j] != id
            &&& exited_table(t, id) is Some
        }) ==> !listed_ids(exited_table(t, id)->0).contains(id),
{
    let l = listed_ids(t);
    let o = t.owned.map_values(|s: StateView| s.id);
    let e = t.external.map_values(|p: (u64, StateView)| p.1.id);
    assert(l.len() == o.len() + e.len());
    assert forall|m: int| 0 <= m < o.len() implies #[trigger] l[m] == t.owned[m].id by {}
    assert forall|m: int| 0 <= m < e.len() implies #[trigger] l[o.len() + m] == t.external[m].1.id by {}
    match owned_index(t.owned, id) {
        Some(i) => {
            assert(l[i] == id);
            let n = exited_table(t, id)->0;
            let ln = listed_ids(n);
            if forall|a: int, b: int| 0 <= a < b < l.len() && l[a] == id ==> l[b] != id {
                assert forall|m: int| 0 <= m < ln.len() implies ln[m] != id by {
                    if m < o.len() - 1 {
                        if m < i {
                            assert(ln[m] == t.owned[m].id);
                            assert(t.owned[m].id != t.owned[i].id);
                        } else {
                            assert(ln[m] == t.owned[m + 1].id);
                            assert(t.owned[m + 1].id != t.owned[i].id);
                        }
                    } else {
                        let x = m - (o.len() - 1);
                        assert(ln[m] == t.external[x].1.id);
                        assert(l[o.len() + x] == t.external[x].1.id);
                        assert(i < o.len() + x);
                    }
                }
            }
        },
        None => {
            assert forall|m: int| 0 <= m < o.len() implies t.owned[m].id != id by {
                if t.owned[m].id == id {
                    assert(exists|k: int| 0 <= k < t.owned.len() && #[trigger] t.owned[k].id == id);
                }
            }
            match external_index_of_id(t.external, id) {
                Some(k) => {
                    lemma_first_with_id(t.external, id, 0);
                    assert(0 <= k < e.len() && t.external[k].1.id == id);
                    assert(l[o.len() + k] == id);
                    let n = exited_table(t, id)->0;
                    let ln = listed_ids(n);
                    if forall|a: int, b: int| 0 <= a < b < l.len() && l[a] == id ==> l[b] != id {
                        assert forall|m: int| 0 <= m < ln.len() implies ln[m] != id by {
                            if m < o.len() {
                                assert(ln[m] == t.owned[m].id);
                            } else {
                                let x = m - o.len();
                                if x < k {
                                    assert(ln[m] == t.external[x].1.id);
                                    assert(l[o.len() + x] == t.external[x].1.id);
                                } else {
                                    assert(ln[m] == t.external[x + 1].1.id);
                                    assert(l[o.len() + x + 1] == t.external[x + 1].1.id);
                                }
                            }
                        }
                    }
                },
                None => {
                    assert forall|m: int| 0 <= m < e.len() implies t.external[m].1.id != id by {
                        if t.external[m].1.id == id {
                            assert(exists|k: int| 0 <= k < t.external.len() && #[trigger] t.external[k].1.id == id);
                        }
                    }
                    assert forall|m: int| 0 <= m < l.len() implies l[m] != id by {
                        if m < o.len() {
                        } else {
                            assert(l[o.len() + (m - o.len())] == t.external[m - o.len()].1.id);
                        }
                    }
                },
            }
        },
    }
}

/// What a read gives back of a write: after an owned session is added, its
/// ID finds it.
pub proof fn law_inserted_session_is_found(owned: Seq<StateView>, s: StateView)
    requires
        unique_ids(owned),
    ensures
        ({
            let after = match owned_index(owned, s.id) {
                Some(i) => owned.update(i, s),
                None => owned.push(s),
            };
            owned_index(after, s.id) is Some && after[owned_index(after, s.id)->0] == s
        }),
{
    let after = match owned_index(owned, s.id) {
        Some(i) => owned.update(i, s),
        None => owned.push(s),
    };
    let j = match owned_index(owned, s.id) {
        Some(i) => i,
        None => owned.len() as int,
    };
    assert(after[j] == s);
    let c = choose|k: int| 0 <= k < after.len() && #[trigger] after[k].id == s.id;
    assert(0 <= c < after.len() && after[c].id == s.id);
    if c != j {
        assert(after[c] == owned[c]);
        assert(owned_index(owned, s.id) is Some);
        assert(owned[j].id == s.id);
        assert(owned[c].id != owned[j].id);
    }
}

/// After an owned session is removed, its ID finds nothing.
pub proof fn law_removed_session_is_gone(owned: Seq<StateView>, id: Seq<char>)
    requires
        unique_ids(owned),
    ensures
        match owned_index(owned, id) {
            Some(i) => owned_index(owned.remove(i), id) is None,
            None => true,
        },
{
    if let Some(i) = owned_index(owned, id) {
        let r = owned.remove(i);
        assert forall|k: int| 0 <= k < r.len() implies #[trigger] r[k].id != id by {
            if k < i {
                assert(r[k] == owned[k]);
                assert(owned[k].id != owned[i].id);
            } else {
                assert(r[k] == owned[k + 1]);
                assert(owned[k + 1].id != owned[i].id);
            }
        }
    }
}


/// Commands sent to a session's I/O task.
#[derive(Debug)]
pub enum SessionControl {
    /// Write raw bytes to the PTY (key input from a client).
    WriteInput(Vec<u8>),
    /// Resize the PTY.
    Resize { cols: u16, rows: u16 },
    /// Detach the client with this ID.
    Detach(u64),
}

/// Messages sent to a connected client.
#[derive(Debug)]
pub enum ClientMessage {
    /// Raw PTY output bytes.
    PtyOutput { session_id: String, data: Vec<u8> },
    /// The session has exited.
    SessionExited { session_id: String, exit_code: Option<i32> },
}

} // verus!
