//! What the daemon makes of a client's JSON request: the fields it reads,
//! with their defaults, turned into one action; and the decisions of a
//! binary (GUI) connection about its first frame and later frames.

use vstd::prelude::*;
use crate::frame::{Frame, MSG_CONTROL, MSG_KEY_INPUT, parsed_session};

verus! {

/// The fields of a JSON request that the daemon reads; a field that is
/// absent or of another JSON type is `None`.
pub struct RequestFields {
    /// `type`.
    pub kind: Option<String>,
    pub id: Option<String>,
    pub shell: Option<String>,
    pub cwd: Option<String>,
    pub cols: Option<u64>,
    pub rows: Option<u64>,
    pub pane_id: Option<u64>,
    pub pid: Option<i64>,
    pub force: Option<bool>,
    pub workspace_name: Option<String>,
    pub state: Option<String>,
}

/// The fields as plain values.
pub struct FieldsView {
    pub kind: Option<Seq<char>>,
    pub id: Option<Seq<char>>,
    pub shell: Option<Seq<char>>,
    pub cwd: Option<Seq<char>>,
    pub cols: Option<u64>,
    pub rows: Option<u64>,
    pub pane_id: Option<u64>,
    pub pid: Option<i64>,
    pub force: Option<bool>,
    pub workspace_name: Option<Seq<char>>,
    pub state: Option<Seq<char>>,
}

/// A string field as characters.
pub open spec fn text_of(o: Option<String>) -> Option<Seq<char>> {
    match o {
        Some(s) => Some(s@),
        None => None,
    }
}

impl RequestFields {
    pub open spec fn view(&self) -> FieldsView {
        FieldsView {
            kind: text_of(self.kind),
            id: text_of(self.id),
            shell: text_of(self.shell),
            cwd: text_of(self.cwd),
            cols: self.cols,
            rows: self.rows,
            pane_id: self.pane_id,
            pid: self.pid,
            force: self.force,
            workspace_name: text_of(self.workspace_name),
            state: text_of(self.state),
        }
    }
}

/// What the daemon does for a JSON request.
pub enum DaemonRequest {
    Ping,
    ListSessions,
    ListSessionDetails,
    CreateSession { shell: String, cwd: String, cols: u16, rows: u16 },
    /// A create request for a shell that the allowlist does not hold.
    DisallowedShell { shell: String },
    KillSession { id: String },
    ResizeSession { id: String, cols: u16, rows: u16 },
    RegisterSession { pane_id: u64, pid: i32, shell: String, cwd: String, cols: u16, rows: u16 },
    /// A register request whose pid is not positive.
    InvalidPid,
    UnregisterSession { pane_id: u64 },
    ExitSession { id: String, force: bool },
    KillAll,
    UpdateSessionWorkspace { id: String, workspace_name: String },
    ClaudeStatusUpdate { state: String, pid: Option<i64> },
    /// A request of a type the daemon does not know.
    Unknown { kind: String },
}

/// A request as plain values.
pub enum RequestPlan {
    Ping,
    ListSessions,
    ListSessionDetails,
    CreateSession { shell: Seq<char>, cwd: Seq<char>, cols: u16, rows: u16 },
    DisallowedShell { shell: Seq<char> },
    KillSession { id: Seq<char> },
    ResizeSession { id: Seq<char>, cols: u16, rows: u16 },
    RegisterSession { pane_id: u64, pid: i32, shell: Seq<char>, cwd: Seq<char>, cols: u16, rows: u16 },
    InvalidPid,
    UnregisterSession { pane_id: u64 },
    ExitSession { id: Seq<char>, force: bool },
    KillAll,
    UpdateSessionWorkspace { id: Seq<char>, workspace_name: Seq<char> },
    ClaudeStatusUpdate { state: Seq<char>, pid: Option<i64> },
    Unknown { kind: Seq<char> },
}

/// The request as plain values.
pub open spec fn plan_of(r: DaemonRequest) -> RequestPlan {
    match r {
        DaemonRequest::Ping => RequestPlan::Ping,
        DaemonRequest::ListSessions => RequestPlan::ListSessions,
        DaemonRequest::ListSessionDetails => RequestPlan::ListSessionDetails,
        DaemonRequest::CreateSession { shell, cwd, cols, rows } => RequestPlan::CreateSession {
            shell: shell@,
            cwd: cwd@,
            cols,
            rows,
        },
        DaemonRequest::DisallowedShell { shell } => RequestPlan::DisallowedShell { shell: shell@ },
        DaemonRequest::KillSession { id } => RequestPlan::KillSession { id: id@ },
        DaemonRequest::ResizeSession { id, cols, rows } => RequestPlan::ResizeSession { id: id@, cols, rows },
        DaemonRequest::RegisterSession { pane_id, pid, shell, cwd, cols, rows } => RequestPlan::RegisterSession {
            pane_id,
            pid,
            shell: shell@,
            cwd: cwd@,
            cols,
            rows,
        },
        DaemonRequest::InvalidPid => RequestPlan::InvalidPid,
        DaemonRequest::UnregisterSession { pane_id } => RequestPlan::UnregisterSession { pane_id },
        DaemonRequest::ExitSession { id, force } => RequestPlan::ExitSession { id: id@, force },
        DaemonRequest::KillAll => RequestPlan::KillAll,
        DaemonRequest::UpdateSessionWorkspace { id, workspace_name } => RequestPlan::UpdateSessionWorkspace {
            id: id@,
            workspace_name: workspace_name@,
        },
        DaemonRequest::ClaudeStatusUpdate { state, pid } => RequestPlan::ClaudeStatusUpdate { state: state@, pid },
        DaemonRequest::Unknown { kind } => RequestPlan::Unknown { kind: kind@ },
    }
}

/// A text field, or `default` when it is absent.
pub open spec fn text_or(o: Option<Seq<char>>, default: Seq<char>) -> Seq<char> {
    match o {
        Some(s) => s,
        None => default,
    }
}

/// A size field cut to 16 bits, or `default` when it is absent.
pub open spec fn size_or(o: Option<u64>, default: u16) -> u16 {
    match o {
        Some(n) => n as u16,
        None => default,
    }
}

/// Whether `c` is a blank that may end a line of a shells file.
pub open spec fn is_blank(c: char) -> bool {
    c == ' ' || c == '\t' || c == '\r'
}

/// `line` without its trailing blanks.
pub open spec fn trim_end(line: Seq<char>) -> Seq<char>
    decreases line.len(),
{
    if line.len() > 0 && is_blank(line.last()) {
        trim_end(line.drop_last())
    } else {
        line
    }
}

/// The entry a line of a shells file gives: the line without trailing
/// blanks when it starts with `/` (an absolute path); comments and blank
/// lines give none.
pub open spec fn line_entry(line: Seq<char>) -> Seq<Seq<char>> {
    if line.len() > 0 && line[0] == '/' {
        seq![trim_end(line)]
    } else {
        Seq::empty()
    }
}

/// The entries of `text` from index `i`, where `line` is what has been read
/// of the current line.
pub open spec fn shells_from(text: Seq<char>, i: int, line: Seq<char>) -> Seq<Seq<char>>
    decreases text.len() - i,
{
    if i < 0 || i >= text.len() {
        line_entry(line)
    } else if text[i] == '\n' {
        line_entry(line) + shells_from(text, i + 1, Seq::empty())
    } else {
        shells_from(text, i + 1, line.push(text[i]))
    }
}

/// The shell paths a shells file (in the format of `/etc/shells`) lists, in
/// order.
pub open spec fn shells_spec(text: Seq<char>) -> Seq<Seq<char>> {
    shells_from(text, 0, Seq::empty())
}

/// Strings as plain values.
pub open spec fn strings_view(v: Vec<String>) -> Seq<Seq<char>> {
    v@.map_values(|s: String| s@)
}

/// What the daemon makes of request fields `f`; `default_shell` is the
/// user's shell, used when a create request names none, and `allowed` the
/// shell paths a session may run: a create request for any other is
/// refused. Sizes default to 80 x 24 and are cut to 16 bits, working
/// directories default to `.`, a register request's pid is cut to 32 bits
/// and refused unless positive.
pub open spec fn request_spec(f: FieldsView, default_shell: Seq<char>, allowed: Seq<Seq<char>>) -> RequestPlan {
    let kind = text_or(f.kind, Seq::empty());
    let id = text_or(f.id, Seq::empty());
    let cols = size_or(f.cols, 80);
    let rows = size_or(f.rows, 24);
    let cwd = text_or(f.cwd, "."@);
    if kind == "ping"@ {
        RequestPlan::Ping
    } else if kind == "list_sessions"@ {
        RequestPlan::ListSessions
    } else if kind == "list_session_details"@ {
        RequestPlan::ListSessionDetails
    } else if kind == "create_session"@ {
        let shell = text_or(f.shell, default_shell);
        if allowed.contains(shell) {
            RequestPlan::CreateSession { shell, cwd, cols, rows }
        } else {
            RequestPlan::DisallowedShell { shell }
        }
    } else if kind == "kill_session"@ {
        RequestPlan::KillSession { id }
    } else if kind == "resize_session"@ {
        RequestPlan::ResizeSession { id, cols, rows }
    } else if kind == "register_session"@ {
        let pid = (match f.pid {
            Some(p) => p,
            None => 0,
        }) as i32;
        if pid <= 0 {
            RequestPlan::InvalidPid
        } else {
            RequestPlan::RegisterSession {
                pane_id: match f.pane_id {
                    Some(p) => p,
                    None => 0,
                },
                pid,
                shell: text_or(f.shell, "/bin/sh"@),
                cwd,
                cols,
                rows,
            }
        }
    } else if kind == "unregister_session"@ {
        RequestPlan::UnregisterSession {
            pane_id: match f.pane_id {
                Some(p) => p,
                None => 0,
            },
        }
    } else if kind == "exit_session"@ {
        RequestPlan::ExitSession {
            id,
            force: match f.force {
                Some(b) => b,
                None => false,
            },
        }
    } else if kind == "kill_all"@ {
        RequestPlan::KillAll
    } else if kind == "update_session_workspace"@ {
        RequestPlan::UpdateSessionWorkspace { id, workspace_name: text_or(f.workspace_name, Seq::empty()) }
    } else if kind == "claude_status_update"@ {
        RequestPlan::ClaudeStatusUpdate { state: text_or(f.state, "unknown"@), pid: f.pid }
    } else {
        RequestPlan::Unknown { kind }
    }
}

/// A copy of a text field, or of `default` when it is absent.
fn text_field(o: &Option<String>, default: &str) -> (r: String)
    ensures
        r@ == text_or(text_of(*o), default@),
{
    match o {
        Some(s) => s.clone(),
        None => default.to_owned(),
    }
}

/// A size field cut to 16 bits, or `default`.
fn size_field(o: Option<u64>, default: u16) -> (r: u16)
    ensures
        r == size_or(o, default),
{
    match o {
        Some(n) => #[verifier::truncate] (n as u16),
        None => default,
    }
}

/// Whether `s` holds exactly the characters of `lit`.
fn is_kind(s: &String, lit: &str) -> (r: bool)
    ensures
        r == (s@ == lit@),
{
    let a = crate::text::chars_of(s.as_str());
    let b = crate::text::chars_of(lit);
    if a.len() != b.len() {
        return false;
    }
    let mut i: usize = 0;
    while i < a.len()
        invariant
            i <= a@.len(),
            a@.len() == b@.len(),
            a@ == s@,
            b@ == lit@,
            forall|k: int| 0 <= k < i ==> a@[k] == b@[k],
        decreases a@.len() - i,
    {
        if a[i] != b[i] {
            return false;
        }
        i += 1;
    }
    assert(a@ =~= b@);
    true
}

/// A copy of `data`.
fn copy_bytes(data: &[u8]) -> (r: Vec<u8>)
    ensures
        r@ == data@,
{
    let mut v: Vec<u8> = Vec::new();
    let mut i: usize = 0;
    while i < data.len()
        invariant
            i <= data@.len(),
            v@ == data@.take(i as int),
        decreases data@.len() - i,
    {
        v.push(data[i]);
        i += 1;
        assert(data@.take(i as int) =~= data@.take(i - 1).push(data@[i - 1]));
    }
    assert(data@.take(data@.len() as int) =~= data@);
    v
}

/// The longest request line the JSON protocol reads (1 MiB), its newline
/// included.
pub const MAX_REQUEST_LINE: usize = 0x10_0000;

/// Whether a request line of `len` bytes so far is still within the limit;
/// a longer one is refused unread.
pub fn request_line_fits(len: usize) -> (r: bool)
    ensures
        r == (len <= MAX_REQUEST_LINE),
{
    len <= MAX_REQUEST_LINE
}

/// A session is only ever planned for a shell that the allowlist holds; a
/// create request for any other shell is refused with that shell named.
pub proof fn law_created_shells_are_listed(f: FieldsView, default_shell: Seq<char>, allowed: Seq<Seq<char>>)
    ensures
        request_spec(f, default_shell, allowed) matches RequestPlan::CreateSession { shell, .. } ==> allowed.contains(
            shell,
        ),
        request_spec(f, default_shell, allowed) matches RequestPlan::DisallowedShell { shell } ==> !allowed.contains(shell)
            && shell == text_or(f.shell, default_shell),
{
}

/// The characters of `line` without trailing blanks, as a string.
fn trimmed_line(line: &Vec<char>) -> (r: String)
    ensures
        r@ == trim_end(line@),
{
    let mut v: Vec<char> = line.clone();
    assert(v@ =~= line@);
    while v.len() > 0 && (v[v.len() - 1] == ' ' || v[v.len() - 1] == '\t' || v[v.len() - 1] == '\r')
        invariant
            trim_end(v@) == trim_end(line@),
        decreases v@.len(),
    {
        let ghost before = v@;
        v.pop();
        assert(v@ =~= before.drop_last());
    }
    crate::codec::string_from_chars(&v)
}

/// The shell paths listed in `text`, a shells file (see `shells_spec`).
pub fn parse_shells(text: &str) -> (r: Vec<String>)
    ensures
        strings_view(r) == shells_spec(text@),
{
    let cs = crate::text::chars_of(text);
    let mut out: Vec<String> = Vec::new();
    let mut line: Vec<char> = Vec::new();
    let mut i: usize = 0;
    while i < cs.len()
        invariant
            i <= cs@.len(),
            cs@ == text@,
            strings_view(out) + shells_from(cs@, i as int, line@) == shells_spec(text@),
        decreases cs@.len() - i,
    {
        let ghost before = strings_view(out);
        if cs[i] == '\n' {
            if line.len() > 0 && line[0] == '/' {
                let e = trimmed_line(&line);
                out.push(e);
                assert(strings_view(out) =~= before.push(trim_end(line@)));
            } else {
                assert(strings_view(out) =~= before);
            }
            assert(before + line_entry(line@) + shells_from(cs@, i + 1, Seq::empty()) =~= strings_view(out)
                + shells_from(cs@, i + 1, Seq::empty()));
            line = Vec::new();
        } else {
            line.push(cs[i]);
            assert(strings_view(out) =~= before);
        }
        i += 1;
    }
    let ghost before = strings_view(out);
    if line.len() > 0 && line[0] == '/' {
        let e = trimmed_line(&line);
        out.push(e);
        assert(strings_view(out) =~= before.push(trim_end(line@)));
    } else {
        assert(strings_view(out) =~= before);
    }
    assert(strings_view(out) =~= before + line_entry(line@));
    out
}

/// Whether `shell` is one of `allowed`.
fn is_listed(shell: &String, allowed: &Vec<String>) -> (r: bool)
    ensures
        r == strings_view(*allowed).contains(shell@),
{
    let mut k: usize = 0;
    while k < allowed.len()
        invariant
            k <= allowed@.len(),
            forall|j: int| 0 <= j < k ==> allowed@[j]@ != shell@,
        decreases allowed@.len() - k,
    {
        if is_kind(shell, allowed[k].as_str()) {
            assert(strings_view(*allowed)[k as int] == shell@);
            return true;
        }
        k += 1;
    }
    assert(!strings_view(*allowed).contains(shell@)) by {
        if strings_view(*allowed).contains(shell@) {
            let j = choose|j: int| 0 <= j < strings_view(*allowed).len() && strings_view(*allowed)[j] == shell@;
            assert(allowed@[j]@ == shell@);
        }
    }
    false
}

/// What the daemon does for request fields `f`, with `allowed_shells` the
/// shell paths a session may run (see `request_spec`).
pub fn decide_request(f: &RequestFields, default_shell: &str, allowed_shells: &Vec<String>) -> (r: DaemonRequest)
    ensures
        plan_of(r) == request_spec(f.view(), default_shell@, strings_view(*allowed_shells)),
{
    proof {
        reveal_strlit("ping");
        reveal_strlit("list_sessions");
        reveal_strlit("list_session_details");
        reveal_strlit("create_session");
        reveal_strlit("kill_session");
        reveal_strlit("resize_session");
        reveal_strlit("register_session");
        reveal_strlit("unregister_session");
        reveal_strlit("exit_session");
        reveal_strlit("kill_all");
        reveal_strlit("update_session_workspace");
        reveal_strlit("claude_status_update");
        reveal_strlit("");
        assert(""@ =~= Seq::<char>::empty());
    }
    let kind = text_field(&f.kind, "");
    let id = text_field(&f.id, "");
    let cols = size_field(f.cols, 80);
    let rows = size_field(f.rows, 24);
    if is_kind(&kind, "ping") {
        DaemonRequest::Ping
    } else if is_kind(&kind, "list_sessions") {
        DaemonRequest::ListSessions
    } else if is_kind(&kind, "list_session_details") {
        DaemonRequest::ListSessionDetails
    } else if is_kind(&kind, "create_session") {
        let shell = text_field(&f.shell, default_shell);
        if is_listed(&shell, allowed_shells) {
            DaemonRequest::CreateSession { shell, cwd: text_field(&f.cwd, "."), cols, rows }
        } else {
            DaemonRequest::DisallowedShell { shell }
        }
    } else if is_kind(&kind, "kill_session") {
        DaemonRequest::KillSession { id }
    } else if is_kind(&kind, "resize_session") {
        DaemonRequest::ResizeSession { id, cols, rows }
    } else if is_kind(&kind, "register_session") {
        let p: i64 = match f.pid {
            Some(p) => p,
            None => 0,
        };
        let pid: i32 = #[verifier::truncate] (p as i32);
        if pid <= 0 {
            DaemonRequest::InvalidPid
        } else {
            DaemonRequest::RegisterSession {
                pane_id: match f.pane_id {
                    Some(p) => p,
                    None => 0,
                },
                pid,
                shell: text_field(&f.shell, "/bin/sh"),
                cwd: text_field(&f.cwd, "."),
                cols,
                rows,
            }
        }
    } else if is_kind(&kind, "unregister_session") {
        DaemonRequest::UnregisterSession {
            pane_id: match f.pane_id {
                Some(p) => p,
                None => 0,
            },
        }
    } else if is_kind(&kind, "exit_session") {
        DaemonRequest::ExitSession {
            id,
            force: match f.force {
                Some(b) => b,
                None => false,
            },
        }
    } else if is_kind(&kind, "kill_all") {
        DaemonRequest::KillAll
    } else if is_kind(&kind, "update_session_workspace") {
        DaemonRequest::UpdateSessionWorkspace { id, workspace_name: text_field(&f.workspace_name, "") }
    } else if is_kind(&kind, "claude_status_update") {
        DaemonRequest::ClaudeStatusUpdate { state: text_field(&f.state, "unknown"), pid: f.pid }
    } else {
        DaemonRequest::Unknown { kind }
    }
}

/// What a binary connection does with its first frame.
pub enum AttachDecision {
    /// The first frame is not a control frame: close quietly.
    NotControl,
    /// The control request is not `attach_session`: answer with an error.
    NotAttach,
    /// The attach request names no session: answer with an error.
    MissingId,
    /// Attach to the named session.
    Attach(String),
}

/// What the first frame of type `msg_type`, whose JSON request has fields
/// `f`, asks for: only a control frame with an `attach_session` request
/// naming a session attaches.
pub open spec fn attach_spec(msg_type: u8, f: FieldsView) -> Option<Option<Seq<char>>> {
    if msg_type != MSG_CONTROL {
        None
    } else if text_or(f.kind, Seq::empty()) != "attach_session"@ {
        Some(None)
    } else {
        Some(Some(text_or(f.id, Seq::empty())))
    }
}

/// The decision for the first frame (see `attach_spec`; an empty session
/// ID is missing).
pub fn attach_decision(msg_type: u8, f: &RequestFields) -> (r: AttachDecision)
    ensures
        match attach_spec(msg_type, f.view()) {
            None => r is NotControl,
            Some(None) => r is NotAttach,
            Some(Some(id)) => if id.len() == 0 {
                r is MissingId
            } else {
                r matches AttachDecision::Attach(s) && s@ == id
            },
        },
{
    proof {
        reveal_strlit("attach_session");
        reveal_strlit("");
        assert(""@ =~= Seq::<char>::empty());
    }
    if msg_type != MSG_CONTROL {
        return AttachDecision::NotControl;
    }
    let kind = text_field(&f.kind, "");
    if !is_kind(&kind, "attach_session") {
        return AttachDecision::NotAttach;
    }
    let id = text_field(&f.id, "");
    if id.as_str().is_empty() {
        AttachDecision::MissingId
    } else {
        AttachDecision::Attach(id)
    }
}

/// What an attached connection does with a frame from its client.
pub enum ClientAction {
    /// Send these bytes to the session's PTY.
    Input(Vec<u8>),
    /// End the connection.
    Detach,
    /// Resize the named session.
    Resize { id: String, cols: u16, rows: u16 },
    /// Nothing.
    Ignore,
}

/// The action for a frame of type `msg_type` with payload `p`, whose
/// control request (when it parses as JSON) has fields `ctrl`: key input
/// goes to the PTY when its session payload parses, `detach_session` ends
/// the connection, `resize_session` resizes (80 x 24 by default).
pub open spec fn client_action_spec(msg_type: u8, p: Seq<u8>, ctrl: Option<FieldsView>) -> Option<(int, Seq<u8>, Seq<char>, u16, u16)> {
    if msg_type == MSG_KEY_INPUT {
        match parsed_session(p) {
            Some((_sid, data)) => Some((0, data, Seq::empty(), 0, 0)),
            None => None,
        }
    } else if msg_type == MSG_CONTROL {
        match ctrl {
            Some(f) => if text_or(f.kind, Seq::empty()) == "detach_session"@ {
                Some((1, Seq::empty(), Seq::empty(), 0, 0))
            } else if text_or(f.kind, Seq::empty()) == "resize_session"@ {
                Some((2, Seq::empty(), text_or(f.id, Seq::empty()), size_or(f.cols, 80), size_or(f.rows, 24)))
            } else {
                None
            },
            None => None,
        }
    } else {
        None
    }
}

/// The action as the tuple `client_action_spec` describes (0 input, 1
/// detach, 2 resize), or `None` to ignore.
pub open spec fn action_view(a: ClientAction) -> Option<(int, Seq<u8>, Seq<char>, u16, u16)> {
    match a {
        ClientAction::Input(d) => Some((0, d@, Seq::empty(), 0, 0)),
        ClientAction::Detach => Some((1, Seq::empty(), Seq::empty(), 0, 0)),
        ClientAction::Resize { id, cols, rows } => Some((2, Seq::empty(), id@, cols, rows)),
        ClientAction::Ignore => None,
    }
}

/// The action for a client frame (see `client_action_spec`); `ctrl` holds
/// the fields of a control frame's JSON request, `None` when it does not
/// parse.
pub fn client_action(frame: &Frame, ctrl: Option<&RequestFields>) -> (r: ClientAction)
    ensures
        action_view(r) == client_action_spec(frame.msg_type, frame.payload@, match ctrl {
            Some(f) => Some(f.view()),
            None => None,
        }),
{
    proof {
        reveal_strlit("detach_session");
        reveal_strlit("resize_session");
        reveal_strlit("");
        assert(""@ =~= Seq::<char>::empty());
    }
    if frame.msg_type == MSG_KEY_INPUT {
        return match frame.parse_session_payload() {
            Some((_sid, data)) => ClientAction::Input(copy_bytes(data)),
            None => ClientAction::Ignore,
        };
    }
    if frame.msg_type != MSG_CONTROL {
        return ClientAction::Ignore;
    }
    match ctrl {
        None => ClientAction::Ignore,
        Some(f) => {
            let kind = text_field(&f.kind, "");
            if is_kind(&kind, "detach_session") {
                ClientAction::Detach
            } else if is_kind(&kind, "resize_session") {
                ClientAction::Resize {
                    id: text_field(&f.id, ""),
                    cols: size_field(f.cols, 80),
                    rows: size_field(f.rows, 24),
                }
            } else {
                ClientAction::Ignore
            }
        },
    }
}

} // verus!
