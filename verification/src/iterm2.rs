//! iTerm2 inline images (OSC 1337): single-sequence `File=` images and the
//! multipart `MultipartFile=` / `FilePart=` / `FileEnd` transfer.

use vstd::prelude::*;
use vstd::utf8::encode_utf8;
use crate::text::{
    after_first, before_first, chars_of, has_prefix, has_suffix, last_pos, parse_uint,
    parse_uint_spec, rfind_char, split_chars, split_once, split_spec, starts_with, ends_with,
    sub_chars,
};
use crate::codec::{base64_decode, base64_standard, chars_to_utf8, decode_raster, raster_rgba};
use crate::image_store::{placed, ImagePlacement, ImageStore, ImageStoreView, TerminalImage};
use crate::kitty::{advance_id, map_stores, store_unchanged};

verus! {

/// Parsed iTerm2 image parameters.
#[derive(Debug, Clone)]
pub struct Iterm2Params {
    pub inline: bool,
    pub width: Option<Vec<char>>,
    pub height: Option<Vec<char>>,
    pub preserve_aspect: bool,
}

/// The parameters as plain values.
pub struct Iterm2ParamsView {
    pub inline: bool,
    pub width: Option<Seq<char>>,
    pub height: Option<Seq<char>>,
    pub preserve_aspect: bool,
}

pub open spec fn opt_view(o: Option<Vec<char>>) -> Option<Seq<char>> {
    match o {
        Some(v) => Some(v@),
        None => None,
    }
}

impl Iterm2Params {
    pub open spec fn view(&self) -> Iterm2ParamsView {
        Iterm2ParamsView {
            inline: self.inline,
            width: opt_view(self.width),
            height: opt_view(self.height),
            preserve_aspect: self.preserve_aspect,
        }
    }
}

pub open spec fn no_params() -> Iterm2ParamsView {
    Iterm2ParamsView { inline: false, width: None, height: None, preserve_aspect: true }
}

/// The parameters after one `key=value` item.
pub open spec fn iterm2_apply(p: Iterm2ParamsView, kv: Seq<char>) -> Iterm2ParamsView {
    let key = before_first(kv, '=');
    let value = after_first(kv, '=');
    if key == "inline"@ {
        Iterm2ParamsView { inline: value == "1"@, ..p }
    } else if key == "width"@ {
        Iterm2ParamsView { width: Some(value), ..p }
    } else if key == "height"@ {
        Iterm2ParamsView { height: Some(value), ..p }
    } else if key == "preserveAspectRatio"@ {
        Iterm2ParamsView { preserve_aspect: value != "0"@, ..p }
    } else {
        p
    }
}

/// The parameters a `;`-separated `key=value` list gives.
pub open spec fn iterm2_params_spec(s: Seq<char>) -> Iterm2ParamsView {
    split_spec(s, ';').fold_left(no_params(), |p: Iterm2ParamsView, kv: Seq<char>| iterm2_apply(p, kv))
}

/// A dimension as a cell count: `auto` or empty is 0 (automatic), `<n>px`
/// is 0 (computed from the pixel size) when `n` is a valid `u32`, and a
/// plain number is that many cells.
pub open spec fn iterm2_dim(s: Seq<char>) -> Option<usize> {
    if s == "auto"@ || s.len() == 0 {
        Some(0)
    } else if has_suffix(s, seq!['p', 'x']) {
        match parse_uint_spec(s.take(s.len() - 2), u32::MAX as int) {
            Some(_) => Some(0),
            None => None,
        }
    } else {
        match parse_uint_spec(s, usize::MAX as int) {
            Some(v) => Some(v as usize),
            None => None,
        }
    }
}

/// The cell span a dimension parameter gives (0 when missing or invalid).
pub open spec fn dim_or_auto(d: Option<Seq<char>>) -> usize {
    match d {
        Some(s) => match iterm2_dim(s) {
            Some(v) => v,
            None => 0,
        },
        None => 0,
    }
}

/// A `key=value` item with a key without `=` gives back that key and value.
proof fn lemma_item_parts(key: Seq<char>, value: Seq<char>)
    requires
        !key.contains('='),
    ensures
        before_first(key + seq!['='] + value, '=') == key,
        after_first(key + seq!['='] + value, '=') == value,
{
    let kv = key + seq!['='] + value;
    assert forall|j: int| 0 <= j < key.len() implies kv[j] != '=' by {
        assert(kv[j] == key[j]);
    }
    crate::text::lemma_first_pos(kv, '=', key.len() as int);
    assert(kv.take(key.len() as int) =~= key);
    assert(kv.skip(key.len() as int + 1) =~= value);
}

/// One `key=value` item changes only what its key names: `width` sets the
/// width to the value and `height` the height, each leaving the other, the
/// inline flag and the aspect flag as they were; `inline` turns the inline
/// flag on exactly for the value `1`, `preserveAspectRatio` keeps the
/// aspect unless the value is `0`; any other key changes nothing it does
/// not name.
pub proof fn law_iterm2_item(p: Iterm2ParamsView, key: Seq<char>, value: Seq<char>)
    requires
        !key.contains('='),
    ensures
        ({
            let q = iterm2_apply(p, key + seq!['='] + value);
            &&& key == "width"@ ==> q.width == Some(value) && q.height == p.height && q.inline == p.inline
                && q.preserve_aspect == p.preserve_aspect
            &&& key == "height"@ ==> q.height == Some(value) && q.width == p.width && q.inline == p.inline
                && q.preserve_aspect == p.preserve_aspect
            &&& key != "width"@ && key != "height"@ ==> q.width == p.width && q.height == p.height
            &&& key == "inline"@ ==> q.inline == (value == "1"@) && q.preserve_aspect == p.preserve_aspect
            &&& key == "preserveAspectRatio"@ ==> q.preserve_aspect == (value != "0"@) && q.inline == p.inline
            &&& key != "inline"@ && key != "preserveAspectRatio"@ ==> q.inline == p.inline && q.preserve_aspect
                == p.preserve_aspect
        }),
{
    reveal_strlit("width");
    reveal_strlit("height");
    reveal_strlit("inline");
    reveal_strlit("preserveAspectRatio");
    lemma_item_parts(key, value);
}

/// Applying the items of `items` up to `n`, from no parameters.
proof fn lemma_last_item(items: Seq<Seq<char>>, k: int, key: Seq<char>, value: Seq<char>, n: int)
    requires
        key == "width"@ || key == "height"@,
        0 <= k < n <= items.len(),
        items[k] == key + seq!['='] + value,
        forall|j: int| k < j < items.len() ==> before_first(#[trigger] items[j], '=') != key,
    ensures
        ({
            let q = items.take(n).fold_left(no_params(), |p: Iterm2ParamsView, kv: Seq<char>| iterm2_apply(p, kv));
            &&& key == "width"@ ==> q.width == Some(value)
            &&& key == "height"@ ==> q.height == Some(value)
        }),
    decreases n,
{
    reveal_strlit("width");
    reveal_strlit("height");
    reveal_strlit("inline");
    reveal_strlit("preserveAspectRatio");
    assert(!key.contains('=')) by {
        if key.contains('=') {
            let j = choose|j: int| 0 <= j < key.len() && key[j] == '=';
        }
    }
    lemma_item_parts(key, value);
    let f = |p: Iterm2ParamsView, kv: Seq<char>| iterm2_apply(p, kv);
    assert(items.take(n).drop_last() =~= items.take(n - 1));
    assert(items.take(n).last() == items[n - 1]);
    let prev = items.take(n - 1).fold_left(no_params(), f);
    assert(items.take(n).fold_left(no_params(), f) == iterm2_apply(prev, items[n - 1]));
    if n - 1 > k {
        lemma_last_item(items, k, key, value, n - 1);
        assert(before_first(items[n - 1], '=') != key);
    } else {
        assert(iterm2_apply(prev, items[k]).width == (if key == "width"@ { Some(value) } else { prev.width }));
        assert(iterm2_apply(prev, items[k]).height == (if key == "height"@ { Some(value) } else { prev.height }));
    }
    assert(items.take(n).fold_left(no_params(), |p: Iterm2ParamsView, kv: Seq<char>| iterm2_apply(p, kv))
        == items.take(n).fold_left(no_params(), f));
}

/// Parsing a `;`-separated parameter list takes the width from its last
/// `width=` item and the height from its last `height=` item.
pub proof fn law_iterm2_params_last(s: Seq<char>, k: int, key: Seq<char>, value: Seq<char>)
    requires
        key == "width"@ || key == "height"@,
        0 <= k < split_spec(s, ';').len(),
        split_spec(s, ';')[k] == key + seq!['='] + value,
        forall|j: int| k < j < split_spec(s, ';').len() ==> before_first(#[trigger] split_spec(s, ';')[j], '=') != key,
    ensures
        key == "width"@ ==> iterm2_params_spec(s).width == Some(value),
        key == "height"@ ==> iterm2_params_spec(s).height == Some(value),
{
    let items = split_spec(s, ';');
    lemma_last_item(items, k, key, value, items.len() as int);
    assert(items.take(items.len() as int) =~= items);
}

fn lit_eq(v: &Vec<char>, lit: &str) -> (r: bool)
    ensures
        r == (v@ == lit@),
{
    let l = chars_of(lit);
    let r = vec_eq(v, &l);
    r
}

fn vec_eq(a: &Vec<char>, b: &Vec<char>) -> (r: bool)
    ensures
        r == (a@ == b@),
{
    if a.len() != b.len() {
        return false;
    }
    let mut i: usize = 0;
    while i < a.len()
        invariant
            a.len() == b.len(),
            0 <= i <= a.len(),
            forall|j: int| 0 <= j < i ==> a@[j] == b@[j],
        decreases a.len() - i,
    {
        if a[i] != b[i] {
            return false;
        }
        i += 1;
    }
    assert(a@ =~= b@);
    true
}

fn iterm2_apply_exec(p: &mut Iterm2Params, kv: &Vec<char>)
    ensures
        final(p).view() == iterm2_apply(old(p).view(), kv@),
{
    let (key, value) = split_once(kv, '=');
    if lit_eq(&key, "inline") {
        p.inline = lit_eq(&value, "1");
    } else if lit_eq(&key, "width") {
        p.width = Some(value);
    } else if lit_eq(&key, "height") {
        p.height = Some(value);
    } else if lit_eq(&key, "preserveAspectRatio") {
        p.preserve_aspect = !lit_eq(&value, "0");
    }
}

/// Parse iTerm2 `key=value` parameters separated by `;`.
pub fn parse_iterm2_params(params: &Vec<char>) -> (r: Iterm2Params)
    ensures
        r.view() == iterm2_params_spec(params@),
{
    let pieces = split_chars(params, ';');
    let ghost sp = split_spec(params@, ';');
    let ghost f = |p: Iterm2ParamsView, kv: Seq<char>| iterm2_apply(p, kv);
    let mut p = Iterm2Params { inline: false, width: None, height: None, preserve_aspect: true };
    let mut i: usize = 0;
    while i < pieces.len()
        invariant
            0 <= i <= pieces.len(),
            pieces.len() == sp.len(),
            forall|j: int| 0 <= j < pieces.len() ==> #[trigger] pieces[j]@ == sp[j],
            f == (|p: Iterm2ParamsView, kv: Seq<char>| iterm2_apply(p, kv)),
            p.view() == sp.take(i as int).fold_left(no_params(), f),
        decreases pieces.len() - i,
    {
        assert(sp.take(i + 1).drop_last() =~= sp.take(i as int));
        assert(pieces[i as int]@ == sp[i as int]);
        iterm2_apply_exec(&mut p, &pieces[i]);
        i += 1;
    }
    assert(sp.take(sp.len() as int) =~= sp);
    p
}

/// Parse an iTerm2 dimension string (`80px`, `10`, `auto`) as a cell count,
/// 0 meaning automatic.
pub fn parse_iterm2_dimension(s: &Vec<char>) -> (r: Option<usize>)
    ensures
        r == iterm2_dim(s@),
{
    if lit_eq(s, "auto") || s.len() == 0 {
        return Some(0);
    }
    if ends_with(s, &['p', 'x']) {
        assert(['p', 'x']@ =~= seq!['p', 'x']);
        let px = sub_chars(s, 0, s.len() - 2);
        assert(px@ =~= s@.take(s@.len() - 2));
        match parse_uint(&px, u32::MAX as u64) {
            Some(_) => Some(0),
            None => None,
        }
    } else {
        assert(['p', 'x']@ =~= seq!['p', 'x']);
        match parse_uint(s, usize::MAX as u64) {
            Some(v) => Some(v as usize),
            None => None,
        }
    }
}

fn dim_of(d: &Option<Vec<char>>) -> (r: usize)
    ensures
        r == dim_or_auto(opt_view(*d)),
{
    match d {
        Some(s) => match parse_iterm2_dimension(s) {
            Some(v) => v,
            None => 0,
        },
        None => 0,
    }
}

/// What an inline image payload (`File=<params>:<base64>`) yields: its
/// parameters and decoded pixels, or `None` where nothing is displayed.
pub open spec fn iterm2_image_spec(payload: Seq<char>) -> Option<(Iterm2ParamsView, (Seq<u8>, u32, u32))> {
    let pre = seq!['F', 'i', 'l', 'e', '='];
    if !has_prefix(payload, pre) {
        None
    } else {
        let rest = payload.skip(5);
        let idx = last_pos(rest, ':');
        if idx >= rest.len() {
            None
        } else {
            let params = iterm2_params_spec(rest.take(idx));
            let b64 = rest.skip(idx + 1);
            if !params.inline {
                None
            } else {
                match base64_standard(encode_utf8(b64)) {
                    None => None,
                    Some(raw) => match raster_rgba(raw) {
                        None => None,
                        Some(px) => Some((params, px)),
                    },
                }
            }
        }
    }
}

/// Whether `new` is `old` with the image `px` stored under the next auto ID
/// and placed at `(col, row)` with the spans `params` asks for.
pub open spec fn stored_and_placed(old: ImageStoreView, new: ImageStoreView, params: Iterm2ParamsView, px: (Seq<u8>, u32, u32), col: usize, row: usize) -> bool {
    let id = old.next_id;
    &&& map_stores(old.images, new.images, id, px.0, px.1, px.2)
    &&& new.dirty
    &&& new.next_id == advance_id(id)
    &&& new.placements == old.placements.push(placed(
        ImagePlacement {
            image_id: id,
            col: col,
            row: row as isize,
            cell_cols: dim_or_auto(params.width),
            cell_rows: dim_or_auto(params.height),
            src_width: px.1,
            src_height: px.2,
        },
        old.cell_width as int,
        old.cell_height as int,
    ))
}

/// Store `decoded` under the next auto ID and place it at the cursor.
fn store_and_place(
    store: &mut ImageStore,
    data: Vec<u8>,
    img_w: u32,
    img_h: u32,
    params: &Iterm2Params,
    cursor_col: usize,
    cursor_row: usize,
)
    requires
        old(store).wf(),
    ensures
        final(store).wf(),
        final(store).cell_width_view() == old(store).cell_width_view(),
        final(store).cell_height_view() == old(store).cell_height_view(),
        stored_and_placed(old(store).sview(), final(store).sview(), params.view(), (data@, img_w, img_h), cursor_col, cursor_row),
{
    let ghost px = data@;
    let id = store.next_id();
    let cell_cols = dim_of(&params.width);
    let cell_rows = dim_of(&params.height);
    store.store_image(TerminalImage { id, data, width: img_w, height: img_h });
    store.add_placement(ImagePlacement {
        image_id: id,
        col: cursor_col,
        row: cursor_row as isize,
        cell_cols,
        cell_rows,
        src_width: img_w,
        src_height: img_h,
    });
}

/// Parse and display an iTerm2 inline image payload (`File=<params>:<base64>`)
/// at the cursor.
pub fn parse_iterm2_image(payload: &str, store: &mut ImageStore, cursor_col: usize, cursor_row: usize)
    requires
        old(store).wf(),
    ensures
        final(store).wf(),
        final(store).cell_width_view() == old(store).cell_width_view(),
        final(store).cell_height_view() == old(store).cell_height_view(),
        match iterm2_image_spec(payload@) {
            None => store_unchanged(old(store).sview(), final(store).sview()),
            Some((params, px)) => stored_and_placed(old(store).sview(), final(store).sview(), params, px, cursor_col, cursor_row),
        },
{
    let chars = chars_of(payload);
    parse_iterm2_image_chars(&chars, store, cursor_col, cursor_row)
}

/// `parse_iterm2_image` on a payload given as characters.
pub fn parse_iterm2_image_chars(payload: &Vec<char>, store: &mut ImageStore, cursor_col: usize, cursor_row: usize)
    requires
        old(store).wf(),
    ensures
        final(store).wf(),
        final(store).cell_width_view() == old(store).cell_width_view(),
        final(store).cell_height_view() == old(store).cell_height_view(),
        match iterm2_image_spec(payload@) {
            None => store_unchanged(old(store).sview(), final(store).sview()),
            Some((params, px)) => stored_and_placed(old(store).sview(), final(store).sview(), params, px, cursor_col, cursor_row),
        },
{
    if !starts_with(payload, &['F', 'i', 'l', 'e', '=']) {
        assert(['F', 'i', 'l', 'e', '=']@ =~= seq!['F', 'i', 'l', 'e', '=']);
        return;
    }
    assert(['F', 'i', 'l', 'e', '=']@ =~= seq!['F', 'i', 'l', 'e', '=']);
    let rest = sub_chars(payload, 5, payload.len());
    assert(rest@ =~= payload@.skip(5));
    let idx = rfind_char(&rest, ':');
    if idx >= rest.len() {
        return;
    }
    let params_str = sub_chars(&rest, 0, idx);
    let b64 = sub_chars(&rest, idx + 1, rest.len());
    assert(params_str@ =~= rest@.take(idx as int));
    assert(b64@ =~= rest@.skip(idx + 1));
    let params = parse_iterm2_params(&params_str);
    if !params.inline {
        return;
    }
    let b64_bytes = chars_to_utf8(&b64);
    let raw = match base64_decode(b64_bytes.as_slice()) {
        Some(b) => b,
        None => return,
    };
    let decoded = match decode_raster(raw.as_slice()) {
        Some(d) => d,
        None => return,
    };
    store_and_place(store, decoded.data, decoded.width, decoded.height, &params, cursor_col, cursor_row);
}

/// Accumulator for an iTerm2 multipart image transfer.
#[derive(Debug, Default)]
pub struct Iterm2Accumulator {
    /// Parameters from the `MultipartFile=` header, while a transfer runs.
    params: Option<Iterm2Params>,
    /// Accumulated base64 data across `FilePart=` chunks (as bytes).
    base64_data: Vec<u8>,
}

pub open spec fn params_opt_view(p: Option<Iterm2Params>) -> Option<Iterm2ParamsView> {
    match p {
        Some(q) => Some(q.view()),
        None => None,
    }
}

/// What finishing a transfer with parameters `params` and data `data`
/// displays, or `None`.
pub open spec fn iterm2_finish_spec(params: Option<Iterm2ParamsView>, data: Seq<u8>) -> Option<(Iterm2ParamsView, (Seq<u8>, u32, u32))> {
    match params {
        None => None,
        Some(p) => if !p.inline {
            None
        } else {
            match base64_standard(data) {
                None => None,
                Some(raw) => match raster_rgba(raw) {
                    None => None,
                    Some(px) => Some((p, px)),
                },
            }
        },
    }
}

impl Iterm2Accumulator {
    pub closed spec fn params_view(&self) -> Option<Iterm2ParamsView> {
        params_opt_view(self.params)
    }

    pub closed spec fn data_view(&self) -> Seq<u8> {
        self.base64_data@
    }

    pub fn new() -> (r: Self)
        ensures
            r.params_view() is None,
            r.data_view() == Seq::<u8>::empty(),
    {
        Iterm2Accumulator { params: None, base64_data: Vec::new() }
    }

    /// Begin a multipart transfer from a `MultipartFile=<params>` payload; a
    /// payload without that prefix is ignored.
    pub fn begin(&mut self, payload: &str)
        ensures
            ({
                let pre = "MultipartFile="@;
                if has_prefix(payload@, pre) {
                    &&& final(self).params_view() == Some(iterm2_params_spec(payload@.skip(pre.len() as int)))
                    &&& final(self).data_view() == Seq::<u8>::empty()
                } else {
                    &&& final(self).params_view() == old(self).params_view()
                    &&& final(self).data_view() == old(self).data_view()
                }
            }),
    {
        let chars = chars_of(payload);
        self.begin_chars(&chars);
    }

    /// `begin` on a payload given as characters.
    pub fn begin_chars(&mut self, payload: &Vec<char>)
        ensures
            ({
                let pre = "MultipartFile="@;
                if has_prefix(payload@, pre) {
                    &&& final(self).params_view() == Some(iterm2_params_spec(payload@.skip(pre.len() as int)))
                    &&& final(self).data_view() == Seq::<u8>::empty()
                } else {
                    &&& final(self).params_view() == old(self).params_view()
                    &&& final(self).data_view() == old(self).data_view()
                }
            }),
    {
        let pre = chars_of("MultipartFile=");
        proof {
            reveal_strlit("MultipartFile=");
        }
        if !starts_with(payload, pre.as_slice()) {
            return;
        }
        let rest = sub_chars(payload, pre.len(), payload.len());
        assert(rest@ =~= payload@.skip(pre.len() as int));
        let params = parse_iterm2_params(&rest);
        self.params = Some(params);
        self.base64_data.clear();
    }

    /// Add a `FilePart=<base64chunk>` chunk; a payload without that prefix is
    /// ignored.
    pub fn add_part(&mut self, payload: &str)
        ensures
            ({
                let pre = "FilePart="@;
                &&& final(self).params_view() == old(self).params_view()
                &&& final(self).data_view() == if has_prefix(payload@, pre) {
                    old(self).data_view() + encode_utf8(payload@.skip(pre.len() as int))
                } else {
                    old(self).data_view()
                }
            }),
    {
        let chars = chars_of(payload);
        self.add_part_chars(&chars);
    }

    /// `add_part` on a payload given as characters.
    pub fn add_part_chars(&mut self, payload: &Vec<char>)
        ensures
            ({
                let pre = "FilePart="@;
                &&& final(self).params_view() == old(self).params_view()
                &&& final(self).data_view() == if has_prefix(payload@, pre) {
                    old(self).data_view() + encode_utf8(payload@.skip(pre.len() as int))
                } else {
                    old(self).data_view()
                }
            }),
    {
        let pre = chars_of("FilePart=");
        proof {
            reveal_strlit("FilePart=");
        }
        if !starts_with(payload, pre.as_slice()) {
            return;
        }
        let rest = sub_chars(payload, pre.len(), payload.len());
        assert(rest@ =~= payload@.skip(pre.len() as int));
        let bytes = chars_to_utf8(&rest);
        let mut i: usize = 0;
        let ghost before = self.base64_data@;
        while i < bytes.len()
            invariant
                0 <= i <= bytes.len(),
                self.base64_data@ == before + bytes@.take(i as int),
                params_opt_view(self.params) == old(self).params_view(),
            decreases bytes.len() - i,
        {
            self.base64_data.push(bytes[i]);
            assert(bytes@.take(i + 1) =~= bytes@.take(i as int).push(bytes@[i as int]));
            i += 1;
        }
        assert(bytes@.take(bytes.len() as int) =~= bytes@);
    }

    /// Finalize on `FileEnd`: decode the accumulated data and place the
    /// image at the cursor. Returns whether an image was placed.
    pub fn finish(&mut self, store: &mut ImageStore, cursor_col: usize, cursor_row: usize) -> (placed: bool)
        requires
            old(store).wf(),
        ensures
            final(store).wf(),
            final(store).cell_width_view() == old(store).cell_width_view(),
            final(store).cell_height_view() == old(store).cell_height_view(),
            final(self).params_view() is None,
            match iterm2_finish_spec(old(self).params_view(), old(self).data_view()) {
                None => !placed && store_unchanged(old(store).sview(), final(store).sview()),
                Some((params, px)) => placed && stored_and_placed(old(store).sview(), final(store).sview(), params, px, cursor_col, cursor_row),
            },
            final(self).data_view() == Seq::<u8>::empty(),
    {
        let mut taken: Option<Iterm2Params> = None;
        std::mem::swap(&mut taken, &mut self.params);
        let params = match taken {
            Some(p) => p,
            None => {
                self.base64_data.clear();
                return false;
            },
        };
        if !params.inline {
            self.base64_data.clear();
            return false;
        }
        let mut b64: Vec<u8> = Vec::new();
        std::mem::swap(&mut b64, &mut self.base64_data);
        let raw = match base64_decode(b64.as_slice()) {
            Some(b) => b,
            None => return false,
        };
        let decoded = match decode_raster(raw.as_slice()) {
            Some(d) => d,
            None => return false,
        };
        store_and_place(store, decoded.data, decoded.width, decoded.height, &params, cursor_col, cursor_row);
        true
    }

    /// Whether a multipart transfer is in progress.
    pub fn is_active(&self) -> (r: bool)
        ensures
            r == self.params_view() is Some,
    {
        self.params.is_some()
    }
}

} // verus!
