//! OSC sequences: titles, working directory, notifications, color
//! queries, hyperlinks, the clipboard and shell integration marks.

use vstd::prelude::*;
use vstd::utf8::{decode_utf8, valid_utf8};
use super::{
    ClipboardView, CommandRecord, CommandView, OscView, PendingCommand, PendingView, TermView,
    Terminal, inc_usize, min_int, now_millis,
};
use super::csi::add_usize;
use super::images::iterm2_osc_rel;
use crate::cell::Cell;
use crate::codec::{base64_decode, base64_standard, string_from_chars, utf8_lossy, utf8_lossy_chars, utf8_to_chars};
use crate::modes::ClipboardEvent;
use crate::text::{first_pos, find_char, has_prefix, parse_i32, parse_i32_spec, starts_with, sub_chars, trim_chars, trim_spec};

verus! {

/// The text of `b` when it is valid UTF-8.
pub open spec fn utf8_opt(b: Seq<u8>) -> Option<Seq<char>> {
    if valid_utf8(b) {
        Some(decode_utf8(b))
    } else {
        None
    }
}

/// Parameter `i` as text, when it exists and is valid UTF-8.
pub open spec fn param_text(p: Seq<Seq<u8>>, i: int) -> Option<Seq<char>> {
    if 0 <= i < p.len() {
        utf8_opt(p[i])
    } else {
        None
    }
}

/// Parameter `i` as bytes when it is valid UTF-8, else no bytes.
pub open spec fn param_bytes(p: Seq<Seq<u8>>, i: int) -> Seq<u8> {
    if 0 <= i < p.len() && valid_utf8(p[i]) {
        p[i]
    } else {
        Seq::empty()
    }
}

/// The path of an OSC 7 URI: after `file://` and the host, or the whole
/// text when it is not such a URI.
pub open spec fn cwd_path(s: Seq<char>) -> Seq<char> {
    if has_prefix(s, seq!['f', 'i', 'l', 'e', ':', '/', '/']) {
        let rest = s.skip(7);
        let i = first_pos(rest, '/');
        if i < rest.len() {
            rest.skip(i)
        } else {
            s
        }
    } else {
        s
    }
}

/// `ESC ] <code> ; rgb:<r>/<g>/<b> ESC \` for the color queries.
pub open spec fn color_reply(code: Seq<u8>, rgb: Seq<u8>) -> Seq<u8> {
    seq![0x1bu8, 0x5du8] + code + seq![0x3bu8, 0x72u8, 0x67u8, 0x62u8, 0x3au8] + rgb + seq![0x1bu8, 0x5cu8]
}

/// `cccc/cccc/cccc`, the light gray reported for foreground and cursor.
pub open spec fn light_rgb() -> Seq<u8> {
    seq![0x63u8, 0x63, 0x63, 0x63, 0x2f, 0x63, 0x63, 0x63, 0x63, 0x2f, 0x63, 0x63, 0x63, 0x63]
}

/// `1e1e/1e1e/2e2e`, the dark background reported.
pub open spec fn dark_rgb() -> Seq<u8> {
    seq![0x31u8, 0x65, 0x31, 0x65, 0x2f, 0x31, 0x65, 0x31, 0x65, 0x2f, 0x32, 0x65, 0x32, 0x65]
}

/// The state with a notification.
pub open spec fn notified(v: TermView, s: Seq<char>) -> TermView {
    TermView { osc: OscView { last_notification: Some(s), ..v.osc }, ..v }
}

/// OSC 52: a clipboard query (`?`) or a clipboard store of the base64
/// data; invalid base64 is ignored.
#[verifier::opaque]
pub open spec fn clipboard_spec(v: TermView, p: Seq<Seq<u8>>) -> TermView {
    let selection = match param_text(p, 1) {
        Some(s) => s,
        None => seq!['c'],
    };
    let raw = param_bytes(p, 2);
    if raw == seq![0x3fu8] {
        TermView { clipboard: Some(ClipboardView::Query { selection: selection }), ..v }
    } else {
        match base64_standard(raw) {
            Some(bytes) => TermView {
                clipboard: Some(ClipboardView::Store { selection: selection, data: utf8_lossy(bytes) }),
                ..v
            },
            None => v,
        }
    }
}

/// The absolute line of screen row `row`.
pub open spec fn abs_line(v: TermView, row: int) -> int {
    add_usize(v.total_scrolled, row)
}

/// `x + 1`, stopping at the largest `u64`.
pub open spec fn inc_u64(x: u64) -> u64 {
    if x < u64::MAX {
        (x + 1) as u64
    } else {
        x
    }
}

/// The newest `max` records of `h`.
pub open spec fn trimmed(h: Seq<CommandView>, max: int) -> Seq<CommandView> {
    if h.len() > max {
        h.skip(h.len() - max)
    } else {
        h
    }
}

/// The characters of the cells `a..b` of `row` that are not continuation
/// halves of wide characters.
pub open spec fn row_text(row: Seq<Cell>, a: int, b: int) -> Seq<char>
    decreases b - a,
{
    if a >= b {
        Seq::empty()
    } else if row[a].width > 0 {
        seq![row[a].c] + row_text(row, a + 1, b)
    } else {
        row_text(row, a + 1, b)
    }
}

/// The text of rows `r..=end_row` between `(start_col, start_row)` and
/// `(end_col, end_row)`, rows joined by newlines.
pub open spec fn text_rows(g: Seq<Seq<Cell>>, r: int, start_row: int, start_col: int, end_row: int, end_col: int, cols: int) -> Seq<char>
    decreases end_row + 1 - r,
{
    if r > end_row {
        Seq::empty()
    } else {
        let cs = if r == start_row { start_col } else { 0 };
        let ce = min_int(if r == end_row { end_col } else { cols }, cols);
        let nl = if r != end_row { seq!['\n'] } else { Seq::empty() };
        row_text(g[r], cs, ce) + nl + text_rows(g, r + 1, start_row, start_col, end_row, end_col, cols)
    }
}

/// The command text typed since `(start_col, start_abs)`, up to the cursor,
/// trimmed; empty when the start has scrolled off or lies below the screen.
#[verifier::opaque]
pub open spec fn command_text_spec(v: TermView, start_abs: int, start_col: int) -> Seq<char> {
    if start_abs < v.total_scrolled {
        Seq::empty()
    } else {
        let sr = start_abs - v.total_scrolled;
        if sr >= v.rows {
            Seq::empty()
        } else {
            trim_spec(text_rows(v.grid(), sr, sr, start_col, v.cursor_row, v.cursor_col, v.cols))
        }
    }
}

/// A record appended to the history, the oldest dropped beyond the limit.
pub open spec fn with_record(v: TermView, rec: CommandView) -> TermView {
    TermView {
        history: trimmed(v.history.push(rec), v.max_history),
        next_command_id: inc_u64(v.next_command_id),
        ..v
    }
}

/// A command record from the pending command `pc`, its stored text, and
/// what the D mark adds.
pub open spec fn record_of(v: TermView, pc: PendingView, t: i64, o: usize, end: int, duration: Option<u64>, exit: Option<i32>) -> CommandView {
    CommandView {
        id: v.next_command_id,
        command_text: match v.pending_text {
            Some(s) => s,
            None => Seq::empty(),
        },
        cwd: pc.cwd,
        timestamp: t,
        duration_ms: duration,
        exit_code: exit,
        scrollback_line_start: o,
        scrollback_line_end: Some(end as usize),
        prompt_line: pc.prompt_abs_line,
    }
}

/// A command left pending at a new prompt becomes a record without exit
/// code or duration, when it ran.
#[verifier::opaque]
pub open spec fn finalize_spec(v: TermView, abs: int) -> TermView {
    match v.pending {
        None => v,
        Some(pc) => match (pc.started_at, pc.output_start_abs_line) {
            (Some(t), Some(o)) => with_record(
                TermView { pending: None, pending_text: None, ..v },
                record_of(v, pc, t, o, abs, None, None),
            ),
            _ => TermView { pending: None, ..v },
        },
    }
}

/// How long a command ran: from `t` to `now` in milliseconds, at least 0.
pub open spec fn duration_of(now: i64, t: i64) -> u64 {
    let d = now - t;
    if d <= 0 {
        0
    } else if d > i64::MAX {
        i64::MAX as u64
    } else {
        d as u64
    }
}

/// The exit code of a `D;<code>` mark.
pub open spec fn exit_code_of(s: Seq<char>) -> Option<i32> {
    if s.len() >= 2 && s[0] == 'D' && s[1] == ';' {
        match parse_i32_spec(s.skip(2)) {
            Some(n) => Some(n as i32),
            None => None,
        }
    } else {
        None
    }
}

/// OSC 133 A: the prompt starts.
#[verifier::opaque]
pub open spec fn mark_a_spec(v: TermView) -> TermView {
    let v1 = TermView { osc: OscView { prompt_start: Some((v.cursor_col as usize, v.cursor_row as usize)), ..v.osc }, ..v };
    if !v.history_enabled {
        v1
    } else {
        let abs = abs_line(v, v.cursor_row);
        let v2 = finalize_spec(v1, abs);
        TermView {
            pending: Some(PendingView {
                prompt_abs_line: abs as usize,
                command_start_abs_line: 0,
                command_start_col: 0,
                cwd: v.osc.cwd,
                started_at: None,
                output_start_abs_line: None,
            }),
            ..v2
        }
    }
}

/// OSC 133 B: the command input starts.
#[verifier::opaque]
pub open spec fn mark_b_spec(v: TermView) -> TermView {
    let v1 = TermView { osc: OscView { command_start: Some((v.cursor_col as usize, v.cursor_row as usize)), ..v.osc }, ..v };
    if !v.history_enabled {
        v1
    } else {
        match v.pending {
            Some(pc) => TermView {
                pending: Some(PendingView {
                    command_start_abs_line: abs_line(v, v.cursor_row) as usize,
                    command_start_col: v.cursor_col as usize,
                    ..pc
                }),
                ..v1
            },
            None => v1,
        }
    }
}

/// OSC 133 C: the command runs (at `now`); its text is taken from the grid.
#[verifier::opaque]
pub open spec fn mark_c_spec(v: TermView, now: i64) -> TermView {
    if !v.history_enabled {
        v
    } else {
        match v.pending {
            Some(pc) => TermView {
                pending: Some(PendingView {
                    started_at: Some(now),
                    output_start_abs_line: Some(abs_line(v, v.cursor_row) as usize),
                    ..pc
                }),
                pending_text: Some(command_text_spec(v, pc.command_start_abs_line as int, pc.command_start_col as int)),
                ..v
            },
            None => TermView { pending_text: Some(Seq::empty()), ..v },
        }
    }
}

/// OSC 133 D: the command finished (at `now`, mark text `s`); a command
/// that ran becomes a record with its duration and exit code.
#[verifier::opaque]
pub open spec fn mark_d_spec(v: TermView, s: Seq<char>, now: i64) -> TermView {
    if !v.history_enabled {
        v
    } else {
        match v.pending {
            None => v,
            Some(pc) => match (pc.started_at, pc.output_start_abs_line) {
                (Some(t), Some(o)) => with_record(
                    TermView { pending: None, pending_text: None, ..v },
                    record_of(v, pc, t, o, abs_line(v, v.cursor_row), Some(duration_of(now, t)), exit_code_of(s)),
                ),
                _ => TermView { pending: None, ..v },
            },
        }
    }
}

/// OSC 133 with mark text `s`.
pub open spec fn shell_mark_spec(v: TermView, s: Seq<char>, now: i64) -> TermView {
    if s.len() == 0 {
        v
    } else if s[0] == 'A' {
        mark_a_spec(v)
    } else if s[0] == 'B' {
        mark_b_spec(v)
    } else if s[0] == 'C' {
        mark_c_spec(v, now)
    } else if s[0] == 'D' {
        mark_d_spec(v, s, now)
    } else {
        v
    }
}

/// An OSC sequence other than OSC 1337, with parameters `p`, at time `now`
/// (milliseconds, used by the shell integration marks).
#[verifier::opaque]
pub open spec fn osc_spec(v: TermView, p: Seq<Seq<u8>>, now: i64) -> TermView {
    if p.len() == 0 {
        v
    } else {
        let c = p[0];
        if c == seq![0x30u8] || c == seq![0x32u8] {
            match param_text(p, 1) {
                Some(s) => TermView { osc: OscView { title: s, ..v.osc }, ..v },
                None => v,
            }
        } else if c == seq![0x31u8, 0x30u8] {
            if p.len() > 1 && p[1] == seq![0x3fu8] {
                TermView { responses: v.responses.push(color_reply(seq![0x31u8, 0x30u8], light_rgb())), ..v }
            } else {
                v
            }
        } else if c == seq![0x31u8, 0x31u8] {
            if p.len() > 1 && p[1] == seq![0x3fu8] {
                TermView { responses: v.responses.push(color_reply(seq![0x31u8, 0x31u8], dark_rgb())), ..v }
            } else {
                v
            }
        } else if c == seq![0x31u8, 0x32u8] {
            if p.len() > 1 && p[1] == seq![0x3fu8] {
                TermView { responses: v.responses.push(color_reply(seq![0x31u8, 0x32u8], light_rgb())), ..v }
            } else {
                v
            }
        } else if c == seq![0x37u8] {
            match param_text(p, 1) {
                Some(s) => TermView { osc: OscView { cwd_uri: s, cwd: cwd_path(s), ..v.osc }, ..v },
                None => v,
            }
        } else if c == seq![0x39u8] {
            match param_text(p, 1) {
                Some(s) => notified(v, s),
                None => v,
            }
        } else if c == seq![0x39u8, 0x39u8] {
            match utf8_opt(p.last()) {
                Some(s) => notified(v, s),
                None => v,
            }
        } else if c == seq![0x31u8, 0x33u8, 0x33u8] {
            match param_text(p, 1) {
                Some(s) => shell_mark_spec(v, s, now),
                None => v,
            }
        } else if c == seq![0x38u8] {
            let uri = match param_text(p, 2) {
                Some(s) => s,
                None => Seq::empty(),
            };
            TermView { hyperlink: if uri.len() == 0 { None } else { Some(uri) }, ..v }
        } else if c == seq![0x35u8, 0x32u8] {
            clipboard_spec(v, p)
        } else if c == seq![0x37u8, 0x37u8, 0x37u8] {
            match param_text(p, 2) {
                Some(s) => notified(v, s),
                None => v,
            }
        } else {
            v
        }
    }
}

/// Whether `v` holds exactly the bytes `lit`.
fn bytes_are(v: &Vec<u8>, lit: &[u8]) -> (r: bool)
    ensures
        r == (v@ == lit@),
{
    if v.len() != lit.len() {
        return false;
    }
    let mut i: usize = 0;
    while i < v.len()
        invariant
            i <= v.len(),
            v.len() == lit.len(),
            forall|k: int| 0 <= k < i ==> v@[k] == lit@[k],
        decreases v.len() - i,
    {
        if v[i] != lit[i] {
            return false;
        }
        i += 1;
    }
    assert(v@ =~= lit@);
    true
}

/// Append `s` to `out`.
fn push_bytes(out: &mut Vec<u8>, s: &[u8])
    ensures
        final(out)@ == old(out)@ + s@,
{
    let mut i: usize = 0;
    while i < s.len()
        invariant
            i <= s.len(),
            out@ == old(out)@ + s@.take(i as int),
        decreases s.len() - i,
    {
        out.push(s[i]);
        i += 1;
        assert(out@ =~= old(out)@ + s@.take(i as int));
    }
    assert(s@.take(s.len() as int) =~= s@);
}

/// Parameter `i` as text (see `param_text`).
fn param_chars(params: &Vec<Vec<u8>>, i: usize) -> (r: Option<Vec<char>>)
    ensures
        match param_text(params@.map_values(|b: Vec<u8>| b@), i as int) {
            Some(s) => r is Some && r->0@ == s,
            None => r is None,
        },
{
    if i < params.len() {
        assert(params@.map_values(|b: Vec<u8>| b@)[i as int] == params@[i as int]@);
        utf8_to_chars(params[i].as_slice())
    } else {
        None
    }
}

/// The plain values of the OSC parameters.
pub open spec fn osc_params(params: Seq<Vec<u8>>) -> Seq<Seq<u8>> {
    params.map_values(|b: Vec<u8>| b@)
}

impl Terminal {
    /// Set the title.
    fn set_title(&mut self, s: Vec<char>)
        requires
            old(self).wf(),
        ensures
            final(self).wf(),
            final(self)@ == (TermView { osc: OscView { title: s@, ..old(self)@.osc }, ..old(self)@ }),
    {
        self.osc.title = string_from_chars(&s);
    }

    /// Set the working directory from an OSC 7 URI.
    fn set_cwd(&mut self, s: Vec<char>)
        requires
            old(self).wf(),
        ensures
            final(self).wf(),
            final(self)@ == (TermView { osc: OscView { cwd_uri: s@, cwd: cwd_path(s@), ..old(self)@.osc }, ..old(self)@ }),
    {
        self.osc.cwd_uri = string_from_chars(&s);
        let prefix = ['f', 'i', 'l', 'e', ':', '/', '/'];
        assert(prefix@ =~= seq!['f', 'i', 'l', 'e', ':', '/', '/']);
        let mut path = s;
        if starts_with(&path, &prefix) {
            let rest = sub_chars(&path, 7, path.len());
            assert(rest@ =~= s@.skip(7));
            let i = find_char(&rest, '/');
            if i < rest.len() {
                path = sub_chars(&rest, i, rest.len());
                assert(path@ =~= rest@.skip(i as int));
            }
        }
        self.osc.cwd = string_from_chars(&path);
    }

    /// Record a notification.
    fn notify(&mut self, s: Vec<char>)
        requires
            old(self).wf(),
        ensures
            final(self).wf(),
            final(self)@ == notified(old(self)@, s@),
    {
        self.osc.last_notification = Some(string_from_chars(&s));
    }

    /// Set or end the hyperlink (OSC 8).
    fn set_hyperlink(&mut self, uri: Vec<char>)
        requires
            old(self).wf(),
        ensures
            final(self).wf(),
            final(self)@ == (TermView { hyperlink: if uri@.len() == 0 { None } else { Some(uri@) }, ..old(self)@ }),
    {
        if uri.len() == 0 {
            self.current_hyperlink = None;
        } else {
            self.current_hyperlink = Some(string_from_chars(&uri));
        }
    }

    /// Queue a color query reply (`code` and `rgb` as in `color_reply`).
    fn reply_color(&mut self, code: &[u8], rgb: &[u8])
        requires
            old(self).wf(),
        ensures
            final(self).wf(),
            final(self)@ == (TermView { responses: old(self)@.responses.push(color_reply(code@, rgb@)), ..old(self)@ }),
    {
        let mut v: Vec<u8> = Vec::new();
        push_bytes(&mut v, &[0x1b, 0x5d]);
        push_bytes(&mut v, code);
        push_bytes(&mut v, &[0x3b, 0x72, 0x67, 0x62, 0x3a]);
        push_bytes(&mut v, rgb);
        push_bytes(&mut v, &[0x1b, 0x5c]);
        assert([0x1bu8, 0x5du8]@ =~= seq![0x1bu8, 0x5du8]);
        assert([0x3bu8, 0x72u8, 0x67u8, 0x62u8, 0x3au8]@ =~= seq![0x3bu8, 0x72u8, 0x67u8, 0x62u8, 0x3au8]);
        assert([0x1bu8, 0x5cu8]@ =~= seq![0x1bu8, 0x5cu8]);
        assert(v@ =~= color_reply(code@, rgb@));
        self.queue_response(v);
    }

    /// OSC 52 (see `clipboard_spec`).
    fn clipboard(&mut self, params: &Vec<Vec<u8>>)
        requires
            old(self).wf(),
        ensures
            final(self).wf(),
            final(self)@ == clipboard_spec(old(self)@, osc_params(params@)),
    {
        proof {
            reveal(clipboard_spec);
        }
        let selection = clip_selection(params);
        let raw = clip_raw(params);
        assert([0x3fu8]@ =~= seq![0x3fu8]);
        if bytes_are(&raw, &[0x3f]) {
            self.set_clipboard(Some(ClipboardEvent::Query { selection: string_from_chars(&selection) }));
        } else {
            match base64_decode(raw.as_slice()) {
                Some(bytes) => {
                    let data = utf8_lossy_chars(bytes.as_slice());
                    self.set_clipboard(Some(ClipboardEvent::Store {
                        selection: string_from_chars(&selection),
                        data: string_from_chars(&data),
                    }));
                },
                None => {},
            }
        }
    }

    /// Set the clipboard event.
    fn set_clipboard(&mut self, ev: Option<ClipboardEvent>)
        requires
            old(self).wf(),
        ensures
            final(self).wf(),
            final(self)@ == (TermView { clipboard: super::clipboard_view(ev), ..old(self)@ }),
    {
        self.clipboard_event = ev;
    }
}

/// The OSC 52 selection: parameter 1 as text, or `c`.
fn clip_selection(params: &Vec<Vec<u8>>) -> (r: Vec<char>)
    ensures
        r@ == match param_text(osc_params(params@), 1) {
            Some(s) => s,
            None => seq!['c'],
        },
{
    match param_chars(params, 1) {
        Some(s) => s,
        None => {
            let mut c: Vec<char> = Vec::new();
            c.push('c');
            assert(c@ =~= seq!['c']);
            c
        },
    }
}

/// The OSC 52 data: parameter 2 when it is valid UTF-8, else nothing.
fn clip_raw(params: &Vec<Vec<u8>>) -> (r: Vec<u8>)
    ensures
        r@ == param_bytes(osc_params(params@), 2),
{
    let ghost p = osc_params(params@);
    if params.len() > 2 {
        assert(p[2] == params@[2]@);
        if utf8_to_chars(params[2].as_slice()).is_some() {
            let mut b: Vec<u8> = Vec::new();
            push_bytes(&mut b, params[2].as_slice());
            assert(b@ =~= params@[2]@);
            return b;
        }
    }
    Vec::new()
}

/// `row_text` computed on a vector.
fn row_text_exec(row: &Vec<Cell>, a: usize, b: usize, out: &mut Vec<char>)
    requires
        b <= row@.len(),
    ensures
        final(out)@ == old(out)@ + row_text(row@, a as int, b as int),
{
    let mut i: usize = a;
    let ghost o0 = old(out)@;
    while i < b
        invariant
            a <= i || b <= a,
            b <= row@.len(),
            o0 + row_text(row@, a as int, b as int) == out@ + row_text(row@, i as int, b as int),
        decreases b - i,
    {
        let cell = row[i];
        if cell.width > 0 {
            out.push(cell.c);
            assert(out@ + row_text(row@, i + 1, b as int) =~= (out@.drop_last()) + (seq![cell.c] + row_text(row@, i + 1, b as int)));
        }
        i += 1;
    }
}

impl Terminal {
    /// The command text from `(start_col, start_abs)` to the cursor (see
    /// `command_text_spec`).
    fn extract_command_text(&self, start_abs: usize, start_col: usize) -> (r: Vec<char>)
        requires
            self.wf(),
        ensures
            r@ == command_text_spec(self@, start_abs as int, start_col as int),
    {
        proof {
            reveal(command_text_spec);
        }
        if start_abs < self.total_scrolled_lines {
            return Vec::new();
        }
        let start_row = start_abs - self.total_scrolled_lines;
        if start_row >= self.rows {
            return Vec::new();
        }
        proof {
            self.main_grid.lemma_wf();
            self.alt_grid.lemma_wf();
        }
        let end_row = self.cursor_row;
        let end_col = self.cursor_col;
        let cols = self.cols;
        let ghost g = self@.grid();
        let mut text: Vec<char> = Vec::new();
        let mut r: usize = start_row;
        while r <= end_row
            invariant
                start_row <= r,
                end_row < self.rows,
                start_row < self.rows,
                cols == self.cols,
                self.wf(),
                g == self@.grid(),
                g.len() == self.rows,
                forall|k: int| 0 <= k < g.len() ==> #[trigger] g[k].len() == cols,
                text@ + text_rows(g, r as int, start_row as int, start_col as int, end_row as int, end_col as int, cols as int)
                    == text_rows(g, start_row as int, start_row as int, start_col as int, end_row as int, end_col as int, cols as int),
            decreases end_row + 1 - r,
        {
            let row = self.grid_row(r);
            let cs = if r == start_row { start_col } else { 0 };
            let ce0 = if r == end_row { end_col } else { cols };
            let ce = if ce0 < cols { ce0 } else { cols };
            let ghost before = text@;
            row_text_exec(&row, cs, ce, &mut text);
            if r != end_row {
                text.push('\n');
            }
            assert(text@ + text_rows(g, r + 1, start_row as int, start_col as int, end_row as int, end_col as int, cols as int)
                =~= before + text_rows(g, r as int, start_row as int, start_col as int, end_row as int, end_col as int, cols as int));
            r += 1;
        }
        trim_chars(&text)
    }

    /// Append a command record, dropping the oldest beyond the limit.
    fn push_record(&mut self, rec: CommandRecord)
        requires
            old(self).wf(),
        ensures
            final(self).wf(),
            final(self)@ == (TermView { history: trimmed(old(self)@.history.push(rec.view()), old(self)@.max_history), ..old(self)@ }),
    {
        let ghost h = old(self)@.history.push(rec.view());
        self.command_history.push(rec);
        assert(self@.history =~= h);
        let max = self.max_command_history;
        while self.command_history.len() > max
            invariant
                self.wf(),
                max == self.max_command_history,
                h.len() >= self@.history.len(),
                self@.history.len() == h.len() || self@.history.len() >= max,
                self@.history == h.skip(h.len() - self@.history.len()),
                self@ == (TermView { history: self@.history, ..old(self)@ }),
            decreases self.command_history.len(),
        {
            let ghost before = self@.history;
            self.command_history.remove(0);
            assert(self@.history =~= before.skip(1));
            assert(self@.history =~= h.skip(h.len() - self@.history.len()));
        }
        assert(self@.history =~= trimmed(h, max as int));
    }

    /// Close a command left pending at a new prompt (see `finalize_spec`).
    #[verifier::spinoff_prover]
    fn finalize_pending(&mut self, abs: usize)
        requires
            old(self).wf(),
        ensures
            final(self).wf(),
            final(self)@ == finalize_spec(old(self)@, abs as int),
    {
        proof {
            reveal(finalize_spec);
        }
        let taken = self.take_pending();
        match taken {
            None => {},
            Some(pc) => {
                match (pc.started_at, pc.output_start_abs_line) {
                    (Some(t), Some(o)) => {
                        let rec = self.take_record(pc, t, o, abs, None, None);
                        self.push_record(rec);
                    },
                    _ => {},
                }
            },
        }
    }

    /// Take the pending command.
    fn take_pending(&mut self) -> (r: Option<PendingCommand>)
        requires
            old(self).wf(),
        ensures
            final(self).wf(),
            final(self)@ == (TermView { pending: None, ..old(self)@ }),
            match r {
                Some(pc) => old(self)@.pending == Some(pc.view()),
                None => old(self)@.pending is None,
            },
    {
        let mut taken: Option<PendingCommand> = None;
        std::mem::swap(&mut taken, &mut self.pending_command);
        taken
    }

    /// Build the record of `pc` (see `record_of`), taking the stored
    /// command text and the next ID.
    fn take_record(&mut self, pc: PendingCommand, t: i64, o: usize, end: usize, duration: Option<u64>, exit: Option<i32>) -> (rec: CommandRecord)
        requires
            old(self).wf(),
        ensures
            final(self).wf(),
            rec.view() == record_of(old(self)@, pc.view(), t, o, end as int, duration, exit),
            final(self)@ == (TermView {
                pending_text: None,
                next_command_id: inc_u64(old(self)@.next_command_id),
                ..old(self)@
            }),
    {
        let id = self.next_command_id;
        self.next_command_id = if id < u64::MAX { id + 1 } else { id };
        let mut text: Option<String> = None;
        std::mem::swap(&mut text, &mut self.pending_command_text);
        let command_text = match text {
            Some(s) => s,
            None => String::new(),
        };
        CommandRecord {
            id,
            command_text,
            cwd: pc.cwd,
            timestamp: t,
            duration_ms: duration,
            exit_code: exit,
            scrollback_line_start: o,
            scrollback_line_end: Some(end),
            prompt_line: pc.prompt_abs_line,
        }
    }

    /// The absolute line of the cursor row.
    fn cursor_abs_line(&self) -> (r: usize)
        ensures
            r == abs_line(self@, self@.cursor_row),
    {
        if self.total_scrolled_lines <= usize::MAX - self.cursor_row {
            self.total_scrolled_lines + self.cursor_row
        } else {
            usize::MAX
        }
    }
}

/// `exit_code_of` computed on a vector.
fn exit_code(s: &Vec<char>) -> (r: Option<i32>)
    ensures
        r == exit_code_of(s@),
{
    if s.len() >= 2 && s[0] == 'D' && s[1] == ';' {
        let rest = sub_chars(s, 2, s.len());
        assert(rest@ =~= s@.skip(2));
        parse_i32(&rest)
    } else {
        None
    }
}

/// `duration_of` computed.
fn duration(now: i64, t: i64) -> (r: u64)
    ensures
        r == duration_of(now, t),
{
    let d: i128 = now as i128 - t as i128;
    if d <= 0 {
        0
    } else if d > i64::MAX as i128 {
        i64::MAX as u64
    } else {
        d as u64
    }
}

impl Terminal {
    /// Set or clear the pending command.
    fn set_pending(&mut self, pc: Option<PendingCommand>)
        requires
            old(self).wf(),
        ensures
            final(self).wf(),
            final(self)@ == (TermView {
                pending: match pc {
                    Some(c) => Some(c.view()),
                    None => None,
                },
                ..old(self)@
            }),
    {
        self.pending_command = pc;
    }

    /// Store the command text taken at the C mark.
    fn set_pending_text(&mut self, text: Vec<char>)
        requires
            old(self).wf(),
        ensures
            final(self).wf(),
            final(self)@ == (TermView { pending_text: Some(text@), ..old(self)@ }),
    {
        self.pending_command_text = Some(string_from_chars(&text));
    }

    /// OSC 133 A (see `mark_a_spec`).
    fn mark_a(&mut self)
        requires
            old(self).wf(),
        ensures
            final(self).wf(),
            final(self)@ == mark_a_spec(old(self)@),
    {
        proof {
            reveal(mark_a_spec);
        }
        self.osc.prompt_start = Some((self.cursor_col, self.cursor_row));
        if self.command_history_enabled {
            let abs = self.cursor_abs_line();
            let cwd = self.osc.cwd.clone();
            self.finalize_pending(abs);
            self.set_pending(Some(PendingCommand {
                prompt_abs_line: abs,
                command_start_abs_line: 0,
                command_start_col: 0,
                cwd,
                started_at: None,
                output_start_abs_line: None,
            }));
        }
    }

    /// OSC 133 B (see `mark_b_spec`).
    fn mark_b(&mut self)
        requires
            old(self).wf(),
        ensures
            final(self).wf(),
            final(self)@ == mark_b_spec(old(self)@),
    {
        proof {
            reveal(mark_b_spec);
        }
        self.osc.command_start = Some((self.cursor_col, self.cursor_row));
        if self.command_history_enabled {
            let abs = self.cursor_abs_line();
            let col = self.cursor_col;
            let taken = self.take_pending();
            match taken {
                Some(pc) => {
                    self.set_pending(Some(PendingCommand { command_start_abs_line: abs, command_start_col: col, ..pc }));
                },
                None => {},
            }
        }
    }

    /// The command text of the pending command (empty without one).
    fn pending_text_now(&self) -> (r: Vec<char>)
        requires
            self.wf(),
        ensures
            r@ == match self@.pending {
                Some(pc) => command_text_spec(self@, pc.command_start_abs_line as int, pc.command_start_col as int),
                None => Seq::empty(),
            },
    {
        match &self.pending_command {
            Some(pc) => self.extract_command_text(pc.command_start_abs_line, pc.command_start_col),
            None => Vec::new(),
        }
    }

    /// OSC 133 C at time `now` (see `mark_c_spec`).
    #[verifier::spinoff_prover]
    fn mark_c(&mut self, now: i64)
        requires
            old(self).wf(),
        ensures
            final(self).wf(),
            final(self)@ == mark_c_spec(old(self)@, now),
    {
        proof {
            reveal(mark_c_spec);
        }
        if !self.command_history_enabled {
            return;
        }
        let text = self.pending_text_now();
        let abs = self.cursor_abs_line();
        let taken = self.take_pending();
        match taken {
            Some(pc) => {
                self.set_pending(Some(PendingCommand { started_at: Some(now), output_start_abs_line: Some(abs), ..pc }));
                self.set_pending_text(text);
            },
            None => {
                self.set_pending_text(text);
            },
        }
    }

    /// OSC 133 D with mark text `s` at time `now` (see `mark_d_spec`).
    fn mark_d(&mut self, s: &Vec<char>, now: i64)
        requires
            old(self).wf(),
        ensures
            final(self).wf(),
            final(self)@ == mark_d_spec(old(self)@, s@, now),
    {
        proof {
            reveal(mark_d_spec);
        }
        if !self.command_history_enabled {
            return;
        }
        let exit = exit_code(s);
        let abs = self.cursor_abs_line();
        let taken = self.take_pending();
        match taken {
            Some(pc) => {
                match (pc.started_at, pc.output_start_abs_line) {
                    (Some(t), Some(o)) => {
                        let d = duration(now, t);
                        let rec = self.take_record(pc, t, o, abs, Some(d), exit);
                        self.push_record(rec);
                    },
                    _ => {},
                }
            },
            None => {},
        }
    }

    /// OSC 133 (see `shell_mark_spec`).
    fn shell_mark(&mut self, s: &Vec<char>, now: i64)
        requires
            old(self).wf(),
        ensures
            final(self).wf(),
            final(self)@ == shell_mark_spec(old(self)@, s@, now),
    {
        if s.len() == 0 {
            return;
        }
        let c = s[0];
        if c == 'A' {
            self.mark_a();
        } else if c == 'B' {
            self.mark_b();
        } else if c == 'C' {
            self.mark_c(now);
        } else if c == 'D' {
            self.mark_d(s, now);
        }
    }

    /// An OSC sequence other than OSC 1337 at time `now` (see `osc_spec`).
    fn osc_plain(&mut self, params: &Vec<Vec<u8>>, now: i64)
        requires
            old(self).wf(),
        ensures
            final(self).wf(),
            final(self)@ == osc_spec(old(self)@, osc_params(params@), now),
    {
        proof {
            reveal(osc_spec);
        }
        let ghost p = osc_params(params@);
        if params.len() == 0 {
            return;
        }
        let c = &params[0];
        assert(c@ == p[0]);
        let q: &[u8] = &[0x3f];
        assert(q@ =~= seq![0x3fu8]);
        let is_query = params.len() > 1 && bytes_are(&params[1], q);
        proof {
            if params.len() > 1 {
                assert(params@[1]@ == p[1]);
            }
        }
        let l0: &[u8] = &[0x30];
        let l2: &[u8] = &[0x32];
        let l10: &[u8] = &[0x31, 0x30];
        let l11: &[u8] = &[0x31, 0x31];
        let l12: &[u8] = &[0x31, 0x32];
        let l7: &[u8] = &[0x37];
        let l9: &[u8] = &[0x39];
        let l99: &[u8] = &[0x39, 0x39];
        let l133: &[u8] = &[0x31, 0x33, 0x33];
        let l8: &[u8] = &[0x38];
        let l52: &[u8] = &[0x35, 0x32];
        let l777: &[u8] = &[0x37, 0x37, 0x37];
        assert(l0@ =~= seq![0x30u8]);
        assert(l2@ =~= seq![0x32u8]);
        assert(l10@ =~= seq![0x31u8, 0x30u8]);
        assert(l11@ =~= seq![0x31u8, 0x31u8]);
        assert(l12@ =~= seq![0x31u8, 0x32u8]);
        assert(l7@ =~= seq![0x37u8]);
        assert(l9@ =~= seq![0x39u8]);
        assert(l99@ =~= seq![0x39u8, 0x39u8]);
        assert(l133@ =~= seq![0x31u8, 0x33u8, 0x33u8]);
        assert(l8@ =~= seq![0x38u8]);
        assert(l52@ =~= seq![0x35u8, 0x32u8]);
        assert(l777@ =~= seq![0x37u8, 0x37u8, 0x37u8]);
        if bytes_are(c, l0) || bytes_are(c, l2) {
            match param_chars(params, 1) {
                Some(t) => self.set_title(t),
                None => {},
            }
        } else if bytes_are(c, l10) {
            if is_query {
                self.reply_color(l10, &[0x63, 0x63, 0x63, 0x63, 0x2f, 0x63, 0x63, 0x63, 0x63, 0x2f, 0x63, 0x63, 0x63, 0x63]);
                assert([0x63u8, 0x63, 0x63, 0x63, 0x2f, 0x63, 0x63, 0x63, 0x63, 0x2f, 0x63, 0x63, 0x63, 0x63]@ =~= light_rgb());
            }
        } else if bytes_are(c, l11) {
            if is_query {
                self.reply_color(l11, &[0x31, 0x65, 0x31, 0x65, 0x2f, 0x31, 0x65, 0x31, 0x65, 0x2f, 0x32, 0x65, 0x32, 0x65]);
                assert([0x31u8, 0x65, 0x31, 0x65, 0x2f, 0x31, 0x65, 0x31, 0x65, 0x2f, 0x32, 0x65, 0x32, 0x65]@ =~= dark_rgb());
            }
        } else if bytes_are(c, l12) {
            if is_query {
                self.reply_color(l12, &[0x63, 0x63, 0x63, 0x63, 0x2f, 0x63, 0x63, 0x63, 0x63, 0x2f, 0x63, 0x63, 0x63, 0x63]);
                assert([0x63u8, 0x63, 0x63, 0x63, 0x2f, 0x63, 0x63, 0x63, 0x63, 0x2f, 0x63, 0x63, 0x63, 0x63]@ =~= light_rgb());
            }
        } else if bytes_are(c, l7) {
            match param_chars(params, 1) {
                Some(t) => self.set_cwd(t),
                None => {},
            }
        } else if bytes_are(c, l9) {
            match param_chars(params, 1) {
                Some(t) => self.notify(t),
                None => {},
            }
        } else if bytes_are(c, l99) {
            let last = params.len() - 1;
            assert(params@[last as int]@ == p.last());
            match param_chars(params, last) {
                Some(t) => self.notify(t),
                None => {},
            }
        } else if bytes_are(c, l133) {
            match param_chars(params, 1) {
                Some(t) => self.shell_mark(&t, now),
                None => {},
            }
        } else if bytes_are(c, l8) {
            let uri = match param_chars(params, 2) {
                Some(t) => t,
                None => Vec::new(),
            };
            self.set_hyperlink(uri);
        } else if bytes_are(c, l52) {
            self.clipboard(params);
        } else if bytes_are(c, l777) {
            match param_chars(params, 2) {
                Some(t) => self.notify(t),
                None => {},
            }
        }
    }
}

/// Whether the OSC command is 1337 (iTerm2).
pub open spec fn is_iterm2(p: Seq<Seq<u8>>) -> bool {
    p.len() > 0 && p[0] == seq![0x31u8, 0x33u8, 0x33u8, 0x37u8]
}

/// An OSC sequence with parameters `p` at time `now` takes `v` to `w`:
/// OSC 1337 as `iterm2_osc_rel` says, every other one as `osc_spec`.
pub open spec fn osc_rel(v: TermView, p: Seq<Seq<u8>>, now: i64, w: TermView) -> bool {
    if is_iterm2(p) {
        iterm2_osc_rel(v, p, w)
    } else {
        w == osc_spec(v, p, now)
    }
}

impl Terminal {
    /// An OSC sequence at time `now` (milliseconds since the epoch), which
    /// the shell integration marks use (see `osc_rel`).
    pub fn osc_dispatch_at(&mut self, params: &Vec<Vec<u8>>, now: i64)
        requires
            old(self).wf(),
        ensures
            final(self).wf(),
            osc_rel(old(self)@, osc_params(params@), now, final(self)@),
    {
        let ghost p = osc_params(params@);
        let l1337: &[u8] = &[0x31, 0x33, 0x33, 0x37];
        assert(l1337@ =~= seq![0x31u8, 0x33u8, 0x33u8, 0x37u8]);
        if params.len() > 0 && bytes_are(&params[0], l1337) {
            assert(params@[0]@ == p[0]);
            self.osc_iterm2(params);
        } else {
            proof {
                if params.len() > 0 {
                    assert(params@[0]@ == p[0]);
                }
            }
            self.osc_plain(params, now);
        }
    }

    /// An OSC sequence, timed by the clock (see `osc_dispatch_at`).
    pub fn osc_dispatch(&mut self, params: &Vec<Vec<u8>>, bell_terminated: bool)
        requires
            old(self).wf(),
        ensures
            final(self).wf(),
            exists|now: i64| osc_rel(old(self)@, osc_params(params@), now, final(self)@),
    {
        let now = now_millis();
        self.osc_dispatch_at(params, now);
    }
}

} // verus!
