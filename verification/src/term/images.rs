//! Images in the terminal: the cursor advance after an inline image, and
//! iTerm2's OSC 1337 (inline images, file transfers, multipart transfers).

use vstd::prelude::*;
use vstd::utf8::encode_utf8;
use super::{TermView, Terminal, newlines};
use super::osc::{osc_params, param_text, utf8_opt};
use crate::codec::{base64_decode, base64_standard, chars_to_utf8, string_from_chars, utf8_to_chars};
use crate::image_store::{ImageStoreView, capped};
use crate::iterm2::{iterm2_finish_spec, iterm2_image_spec, iterm2_params_spec, parse_iterm2_image_chars, stored_and_placed};
use crate::kitty::store_unchanged;
use crate::modes::FileTransferEvent;
use crate::text::{
    after_first, before_first, contains_chars, has_prefix, has_substring, last_pos, rfind_char,
    split_chars, split_once, split_spec, starts_with, sub_chars,
};

verus! {

/// After an image operation that added a placement (more than `before`):
/// the new placement capped to the screen, and the cursor moved to column 0
/// below it.
#[verifier::opaque]
pub open spec fn after_image_spec(v: TermView, before: int) -> TermView {
    if v.images.placements.len() > before {
        let ps = capped(v.images.placements, v.cols, v.rows);
        newlines(
            TermView {
                images: ImageStoreView { placements: ps, ..v.images },
                cursor_col: 0,
                wrap_pending: false,
                ..v
            },
            ps.last().cell_rows as nat,
        )
    } else {
        v
    }
}

/// `a` is `b` (a named equality that gives the existential a witness).
pub open spec fn final_is(a: TermView, b: TermView) -> bool {
    a == b
}

/// Whether store `n` keeps the cell size of `o`.
pub open spec fn same_cells(o: ImageStoreView, n: ImageStoreView) -> bool {
    n.cell_width == o.cell_width && n.cell_height == o.cell_height
}

/// The texts of the parameters from `i` on that are valid UTF-8.
pub open spec fn valid_texts(p: Seq<Seq<u8>>, i: int) -> Seq<Seq<char>>
    decreases p.len() - i,
{
    if i < 0 || i >= p.len() {
        Seq::empty()
    } else {
        match utf8_opt(p[i]) {
            Some(s) => seq![s] + valid_texts(p, i + 1),
            None => valid_texts(p, i + 1),
        }
    }
}

/// Texts joined with `;`.
pub open spec fn join_semi(ts: Seq<Seq<char>>) -> Seq<char>
    decreases ts.len(),
{
    if ts.len() == 0 {
        Seq::empty()
    } else if ts.len() == 1 {
        ts[0]
    } else {
        ts[0] + seq![';'] + join_semi(ts.skip(1))
    }
}

/// A file name from base64: the decoded text, or empty.
pub open spec fn decode_name(value: Seq<char>) -> Seq<char> {
    match base64_standard(encode_utf8(value)) {
        Some(b) => match utf8_opt(b) {
            Some(s) => s,
            None => Seq::empty(),
        },
        None => Seq::empty(),
    }
}

/// The file name of the `key=value` items: the last `name` item decoded,
/// or empty.
pub open spec fn name_of(items: Seq<Seq<char>>) -> Seq<char>
    decreases items.len(),
{
    if items.len() == 0 {
        Seq::empty()
    } else if before_first(items.last(), '=') == seq!['n', 'a', 'm', 'e'] {
        decode_name(after_first(items.last(), '='))
    } else {
        name_of(items.drop_last())
    }
}

/// An iTerm2 file transfer (`File=<params>:<base64>` not shown inline): the
/// file when the data decodes.
pub open spec fn file_transfer_spec(v: TermView, payload: Seq<char>) -> TermView {
    let rest = payload.skip(5);
    let idx = last_pos(rest, ':');
    if idx >= rest.len() {
        v
    } else {
        match base64_standard(encode_utf8(rest.skip(idx + 1))) {
            None => v,
            Some(data) => TermView {
                file_transfer: Some((name_of(split_spec(rest.take(idx), ';')), data)),
                ..v
            },
        }
    }
}

/// OSC 1337 with parameters `p` takes state `v` to `w`.
pub open spec fn iterm2_osc_rel(v: TermView, p: Seq<Seq<u8>>, w: TermView) -> bool {
    let payload = join_semi(valid_texts(p, 1));
    let before = v.images.placements.len() as int;
    if p.len() < 2 {
        w == v
    } else if has_prefix(payload, seq!['F', 'i', 'l', 'e', '=']) {
        if has_substring(payload, seq!['i', 'n', 'l', 'i', 'n', 'e', '=', '1']) {
            exists|s1: ImageStoreView|
                {
                    &&& same_cells(v.images, s1)
                    &&& match iterm2_image_spec(payload) {
                        None => store_unchanged(v.images, s1),
                        Some((pr, px)) => stored_and_placed(v.images, s1, pr, px, v.cursor_col as usize, v.cursor_row as usize),
                    }
                    &&& w == after_image_spec(TermView { images: s1, ..v }, before)
                }
        } else if has_substring(payload, seq!['i', 'n', 'l', 'i', 'n', 'e', '=', '0']) || !has_substring(
            payload,
            seq!['i', 'n', 'l', 'i', 'n', 'e', '='],
        ) {
            w == file_transfer_spec(v, payload)
        } else {
            w == v
        }
    } else if has_prefix(payload, seq!['M', 'u', 'l', 't', 'i', 'p', 'a', 'r', 't', 'F', 'i', 'l', 'e', '=']) {
        w == TermView { iterm2_params: Some(iterm2_params_spec(payload.skip(14))), iterm2_data: Seq::empty(), ..v }
    } else if has_prefix(payload, seq!['F', 'i', 'l', 'e', 'P', 'a', 'r', 't', '=']) {
        w == TermView { iterm2_data: v.iterm2_data + encode_utf8(payload.skip(9)), ..v }
    } else if payload == seq!['F', 'i', 'l', 'e', 'E', 'n', 'd'] {
        exists|s1: ImageStoreView|
            {
                &&& same_cells(v.images, s1)
                &&& match iterm2_finish_spec(v.iterm2_params, v.iterm2_data) {
                    None => store_unchanged(v.images, s1),
                    Some((pr, px)) => stored_and_placed(v.images, s1, pr, px, v.cursor_col as usize, v.cursor_row as usize),
                }
                &&& w == after_image_spec(TermView { images: s1, iterm2_params: None, iterm2_data: Seq::empty(), ..v }, before)
            }
    } else {
        w == v
    }
}

/// The valid texts of `params[1..]` joined with `;`.
fn join_payload(params: &Vec<Vec<u8>>) -> (r: Vec<char>)
    ensures
        r@ == join_semi(valid_texts(osc_params(params@), 1)),
{
    let ghost p = osc_params(params@);
    let mut texts: Vec<Vec<char>> = Vec::new();
    let mut i: usize = params.len();
    while i > 1
        invariant
            1 <= i <= params.len() || (params.len() < 1 && i == params.len()),
            p == osc_params(params@),
            texts@.map_values(|t: Vec<char>| t@) == valid_texts(p, i as int),
        decreases i,
    {
        i -= 1;
        assert(params@[i as int]@ == p[i as int]);
        match utf8_to_chars(params[i].as_slice()) {
            Some(t) => {
                let ghost tv = t@;
                texts.insert(0, t);
                assert(texts@.map_values(|t: Vec<char>| t@) =~= seq![tv] + valid_texts(p, i + 1));
            },
            None => {},
        }
    }
    let ghost ts = texts@.map_values(|t: Vec<char>| t@);
    let mut out: Vec<char> = Vec::new();
    let mut k: usize = texts.len();
    let mut acc: Vec<char> = Vec::new();
    while k > 0
        invariant
            k <= texts.len(),
            ts == texts@.map_values(|t: Vec<char>| t@),
            acc@ == join_semi(ts.skip(k as int)),
        decreases k,
    {
        k -= 1;
        let mut next: Vec<char> = Vec::new();
        let t = &texts[k];
        let mut j: usize = 0;
        while j < t.len()
            invariant
                j <= t.len(),
                next@ == t@.take(j as int),
            decreases t.len() - j,
        {
            next.push(t[j]);
            j += 1;
            assert(next@ =~= t@.take(j as int));
        }
        assert(t@.take(t.len() as int) =~= t@);
        assert(ts[k as int] == t@);
        if acc.len() > 0 || k + 1 < texts.len() {
            next.push(';');
            let mut j2: usize = 0;
            let ghost n0 = next@;
            while j2 < acc.len()
                invariant
                    j2 <= acc.len(),
                    next@ == n0 + acc@.take(j2 as int),
                decreases acc.len() - j2,
            {
                next.push(acc[j2]);
                j2 += 1;
                assert(next@ =~= n0 + acc@.take(j2 as int));
            }
            assert(acc@.take(acc.len() as int) =~= acc@);
        }
        assert(ts.skip(k as int).skip(1) =~= ts.skip(k + 1));
        assert(ts.skip(k as int)[0] == ts[k as int]);
        proof {
            if k + 1 < texts.len() {
                assert(ts.skip(k as int).len() > 1);
            } else {
                assert(ts.skip(k as int).len() == 1);
                assert(ts.skip(k + 1).len() == 0);
            }
        }
        acc = next;
    }
    assert(ts.skip(0) =~= ts);
    out = acc;
    out
}

/// `decode_name` computed.
fn decode_name_exec(value: &Vec<char>) -> (r: Vec<char>)
    ensures
        r@ == decode_name(value@),
{
    let bytes = chars_to_utf8(value);
    match base64_decode(bytes.as_slice()) {
        Some(b) => match utf8_to_chars(b.as_slice()) {
            Some(s) => s,
            None => Vec::new(),
        },
        None => Vec::new(),
    }
}

/// `name_of` computed on the items of `params_str` split at `;`.
fn file_name(params_str: &Vec<char>) -> (r: Vec<char>)
    ensures
        r@ == name_of(split_spec(params_str@, ';')),
{
    let items = split_chars(params_str, ';');
    let ghost its = split_spec(params_str@, ';');
    let key: [char; 4] = ['n', 'a', 'm', 'e'];
    assert(key@ =~= seq!['n', 'a', 'm', 'e']);
    let mut i: usize = items.len();
    assert(its.take(its.len() as int) =~= its);
    while i > 0
        invariant
            i <= items.len(),
            items.len() == its.len(),
            forall|k: int| 0 <= k < items.len() ==> #[trigger] items[k]@ == its[k],
            name_of(its) == name_of(its.take(i as int)),
            its == split_spec(params_str@, ';'),
        decreases i,
    {
        let kv = &items[i - 1];
        assert(kv@ == its[i - 1]);
        let (k, val) = split_once(kv, '=');
        assert(its.take(i as int).last() == its[i - 1]);
        assert(its.take(i as int).drop_last() =~= its.take(i - 1));
        if k.len() == 4 && k[0] == 'n' && k[1] == 'a' && k[2] == 'm' && k[3] == 'e' {
            assert(k@ =~= seq!['n', 'a', 'm', 'e']);
            assert(name_of(its.take(i as int)) == decode_name(after_first(its[i - 1], '=')));
            let r = decode_name_exec(&val);
            assert(r@ == name_of(its));
            assert(its == split_spec(params_str@, ';'));
            return r;
        }
        assert(!(k@ =~= seq!['n', 'a', 'm', 'e']));
        i -= 1;
    }
    assert(its.take(0) =~= Seq::<Seq<char>>::empty());
    Vec::new()
}

impl Terminal {
    /// Cap the newest placement to the screen.
    fn cap_images(&mut self)
        requires
            old(self).wf(),
        ensures
            final(self).wf(),
            final(self)@ == (TermView {
                images: ImageStoreView {
                    placements: capped(old(self)@.images.placements, old(self)@.cols, old(self)@.rows),
                    ..old(self)@.images
                },
                ..old(self)@
            }),
    {
        let cols = self.cols;
        let rows = self.rows;
        self.image_store.cap_placement_size(cols, rows);
    }

    /// The cursor advance after an image operation (see `after_image_spec`).
    pub(crate) fn finish_image(&mut self, before: usize)
        requires
            old(self).wf(),
        ensures
            final(self).wf(),
            final(self)@ == after_image_spec(old(self)@, before as int),
    {
        proof {
            reveal(after_image_spec);
        }
        if self.image_store.placements().len() > before {
            self.cap_images();
            let ps = self.image_store.placements();
            let n = ps[ps.len() - 1].cell_rows;
            self.advance_cursor_past_image(n);
        }
    }

    /// The number of placements.
    fn placement_count(&self) -> (r: usize)
        ensures
            r == self@.images.placements.len(),
    {
        self.image_store.placements().len()
    }

    /// Show an inline image (`File=...inline=1...`).
    fn iterm2_inline(&mut self, payload: &Vec<char>)
        requires
            old(self).wf(),
        ensures
            final(self).wf(),
            exists|s1: ImageStoreView|
                {
                    &&& same_cells(old(self)@.images, s1)
                    &&& match iterm2_image_spec(payload@) {
                        None => store_unchanged(old(self)@.images, s1),
                        Some((pr, px)) => stored_and_placed(old(self)@.images, s1, pr, px, old(self)@.cursor_col as usize, old(self)@.cursor_row as usize),
                    }
                    &&& final(self)@ == after_image_spec(TermView { images: s1, ..old(self)@ }, old(self)@.images.placements.len() as int)
                },
    {
        let before = self.placement_count();
        let col = self.cursor_col;
        let row = self.cursor_row;
        parse_iterm2_image_chars(payload, &mut self.image_store, col, row);
        let ghost mid = self@;
        let ghost s1 = mid.images;
        assert(mid == (TermView { images: s1, ..old(self)@ }));
        self.finish_image(before);
        assert(same_cells(old(self)@.images, s1));
        assert(final_is(self@, after_image_spec(TermView { images: s1, ..old(self)@ }, old(self)@.images.placements.len() as int)));
    }

    /// Record a file transfer (see `file_transfer_spec`).
    fn iterm2_file(&mut self, payload: &Vec<char>)
        requires
            old(self).wf(),
            has_prefix(payload@, seq!['F', 'i', 'l', 'e', '=']),
        ensures
            final(self).wf(),
            final(self)@ == file_transfer_spec(old(self)@, payload@),
    {
        let rest = sub_chars(payload, 5, payload.len());
        assert(rest@ =~= payload@.skip(5));
        let idx = rfind_char(&rest, ':');
        if idx >= rest.len() {
            return;
        }
        let params_str = sub_chars(&rest, 0, idx);
        let b64 = sub_chars(&rest, idx + 1, rest.len());
        assert(params_str@ =~= rest@.take(idx as int));
        assert(b64@ =~= rest@.skip(idx + 1));
        let b64_bytes = chars_to_utf8(&b64);
        match base64_decode(b64_bytes.as_slice()) {
            Some(data) => {
                let name = file_name(&params_str);
                self.file_transfer_event = Some(FileTransferEvent { name: string_from_chars(&name), data });
                assert(self@ == file_transfer_spec(old(self)@, payload@));
            },
            None => {},
        }
    }

    /// Begin a multipart transfer.
    fn iterm2_begin(&mut self, payload: &Vec<char>)
        requires
            old(self).wf(),
            has_prefix(payload@, seq!['M', 'u', 'l', 't', 'i', 'p', 'a', 'r', 't', 'F', 'i', 'l', 'e', '=']),
        ensures
            final(self).wf(),
            final(self)@ == (TermView { iterm2_params: Some(iterm2_params_spec(payload@.skip(14))), iterm2_data: Seq::empty(), ..old(self)@ }),
    {
        proof {
            reveal_strlit("MultipartFile=");
            assert("MultipartFile="@ =~= seq!['M', 'u', 'l', 't', 'i', 'p', 'a', 'r', 't', 'F', 'i', 'l', 'e', '=']);
        }
        self.iterm2_accumulator.begin_chars(payload);
    }

    /// Add a part of a multipart transfer.
    fn iterm2_part(&mut self, payload: &Vec<char>)
        requires
            old(self).wf(),
            has_prefix(payload@, seq!['F', 'i', 'l', 'e', 'P', 'a', 'r', 't', '=']),
        ensures
            final(self).wf(),
            final(self)@ == (TermView { iterm2_data: old(self)@.iterm2_data + encode_utf8(payload@.skip(9)), ..old(self)@ }),
    {
        proof {
            reveal_strlit("FilePart=");
            assert("FilePart="@ =~= seq!['F', 'i', 'l', 'e', 'P', 'a', 'r', 't', '=']);
        }
        self.iterm2_accumulator.add_part_chars(payload);
    }

    /// Finish a multipart transfer and show the image.
    fn iterm2_end(&mut self)
        requires
            old(self).wf(),
        ensures
            final(self).wf(),
            exists|s1: ImageStoreView|
                {
                    &&& same_cells(old(self)@.images, s1)
                    &&& match iterm2_finish_spec(old(self)@.iterm2_params, old(self)@.iterm2_data) {
                        None => store_unchanged(old(self)@.images, s1),
                        Some((pr, px)) => stored_and_placed(old(self)@.images, s1, pr, px, old(self)@.cursor_col as usize, old(self)@.cursor_row as usize),
                    }
                    &&& final(self)@ == after_image_spec(
                        TermView { images: s1, iterm2_params: None, iterm2_data: Seq::empty(), ..old(self)@ },
                        old(self)@.images.placements.len() as int,
                    )
                },
    {
        let before = self.placement_count();
        let col = self.cursor_col;
        let row = self.cursor_row;
        let _placed = self.iterm2_accumulator.finish(&mut self.image_store, col, row);
        let ghost mid = self@;
        let ghost s1 = mid.images;
        assert(mid == (TermView { images: s1, iterm2_params: None, iterm2_data: Seq::empty(), ..old(self)@ }));
        self.finish_image(before);
        assert(same_cells(old(self)@.images, s1));
        assert(final_is(self@, after_image_spec(
            TermView { images: s1, iterm2_params: None, iterm2_data: Seq::empty(), ..old(self)@ },
            old(self)@.images.placements.len() as int,
        )));
    }

    /// OSC 1337 (see `iterm2_osc_rel`).
    pub(crate) fn osc_iterm2(&mut self, params: &Vec<Vec<u8>>)
        requires
            old(self).wf(),
        ensures
            final(self).wf(),
            iterm2_osc_rel(old(self)@, osc_params(params@), final(self)@),
    {
        if params.len() < 2 {
            return;
        }
        let payload = join_payload(params);
        let file: [char; 5] = ['F', 'i', 'l', 'e', '='];
        let inl1: [char; 8] = ['i', 'n', 'l', 'i', 'n', 'e', '=', '1'];
        let inl0: [char; 8] = ['i', 'n', 'l', 'i', 'n', 'e', '=', '0'];
        let inl: [char; 7] = ['i', 'n', 'l', 'i', 'n', 'e', '='];
        let multi: [char; 14] = ['M', 'u', 'l', 't', 'i', 'p', 'a', 'r', 't', 'F', 'i', 'l', 'e', '='];
        let part: [char; 9] = ['F', 'i', 'l', 'e', 'P', 'a', 'r', 't', '='];
        assert(file@ =~= seq!['F', 'i', 'l', 'e', '=']);
        assert(inl1@ =~= seq!['i', 'n', 'l', 'i', 'n', 'e', '=', '1']);
        assert(inl0@ =~= seq!['i', 'n', 'l', 'i', 'n', 'e', '=', '0']);
        assert(inl@ =~= seq!['i', 'n', 'l', 'i', 'n', 'e', '=']);
        assert(multi@ =~= seq!['M', 'u', 'l', 't', 'i', 'p', 'a', 'r', 't', 'F', 'i', 'l', 'e', '=']);
        assert(part@ =~= seq!['F', 'i', 'l', 'e', 'P', 'a', 'r', 't', '=']);
        if starts_with(&payload, &file) {
            if contains_chars(&payload, &inl1) {
                self.iterm2_inline(&payload);
            } else if contains_chars(&payload, &inl0) || !contains_chars(&payload, &inl) {
                self.iterm2_file(&payload);
            }
        } else if starts_with(&payload, &multi) {
            self.iterm2_begin(&payload);
        } else if starts_with(&payload, &part) {
            self.iterm2_part(&payload);
        } else if payload.len() == 7 && payload[0] == 'F' && payload[1] == 'i' && payload[2] == 'l' && payload[3]
            == 'e' && payload[4] == 'E' && payload[5] == 'n' && payload[6] == 'd' {
            assert(payload@ =~= seq!['F', 'i', 'l', 'e', 'E', 'n', 'd']);
            self.iterm2_end();
        } else {
            assert(!(payload@ =~= seq!['F', 'i', 'l', 'e', 'E', 'n', 'd']));
        }
    }
}

} // verus!
