//! Decoded images and their placements on the terminal grid.

use vstd::prelude::*;
use std::collections::HashMap;
use vstd::std_specs::iter::IteratorSpec;

verus! {

/// A decoded terminal image (RGBA pixel data).
#[derive(Debug, Clone)]
pub struct TerminalImage {
    /// Unique image ID (assigned by protocol or auto-generated).
    pub id: u32,
    /// RGBA pixel data (4 bytes per pixel).
    pub data: Vec<u8>,
    /// Image width in pixels.
    pub width: u32,
    /// Image height in pixels.
    pub height: u32,
}

/// Where an image is placed on the terminal grid.
#[derive(Debug, Clone, Copy, PartialEq, Eq, Structural)]
pub struct ImagePlacement {
    /// Image ID this placement refers to.
    pub image_id: u32,
    /// Column position (0-based).
    pub col: usize,
    /// Row position (negative means partially scrolled off the top).
    pub row: isize,
    /// How many cell columns the image spans.
    pub cell_cols: usize,
    /// How many cell rows the image spans.
    pub cell_rows: usize,
    /// Source image width in pixels.
    pub src_width: u32,
    /// Source image height in pixels.
    pub src_height: u32,
}

/// Number of cells of size `cell` needed to cover `px` pixels (rounded up).
pub open spec fn cells_for(px: int, cell: int) -> int {
    (px + cell - 1) / cell
}

pub open spec fn at_least_one(n: int) -> int {
    if n < 1 { 1 } else { n }
}

/// The placement as `add_placement` stores it: a zero span is derived from
/// the source pixel size and the cell size, and each span is at least one.
pub open spec fn placed(p: ImagePlacement, cw: int, ch: int) -> ImagePlacement {
    let cols = if p.cell_cols == 0 && p.src_width > 0 {
        cells_for(p.src_width as int, cw)
    } else {
        p.cell_cols as int
    };
    let rows = if p.cell_rows == 0 && p.src_height > 0 {
        cells_for(p.src_height as int, ch)
    } else {
        p.cell_rows as int
    };
    ImagePlacement {
        cell_cols: at_least_one(cols) as usize,
        cell_rows: at_least_one(rows) as usize,
        ..p
    }
}

/// The placements that do not show image `id`, in order.
pub open spec fn without_image(s: Seq<ImagePlacement>, id: u32) -> Seq<ImagePlacement>
    decreases s.len(),
{
    if s.len() == 0 {
        s
    } else if s.last().image_id == id {
        without_image(s.drop_last(), id)
    } else {
        without_image(s.drop_last(), id).push(s.last())
    }
}

/// The placements still (partly) on screen after every row moved up by
/// `lines`, in order.
pub open spec fn scrolled(s: Seq<ImagePlacement>, lines: int) -> Seq<ImagePlacement>
    decreases s.len(),
{
    if s.len() == 0 {
        s
    } else {
        let p = s.last();
        let q = ImagePlacement { row: (p.row - lines) as isize, ..p };
        if q.row + q.cell_rows > 0 {
            scrolled(s.drop_last(), lines).push(q)
        } else {
            scrolled(s.drop_last(), lines)
        }
    }
}

/// The image IDs that some placement of `s` shows.
pub open spec fn placed_ids(s: Seq<ImagePlacement>) -> Set<u32> {
    Set::new(|id: u32| exists|i: int| 0 <= i < s.len() && #[trigger] s[i].image_id == id)
}

/// Whether moving every placement up by `lines` rows keeps all rows and
/// bottom edges within `isize`.
pub open spec fn scroll_fits(s: Seq<ImagePlacement>, lines: int) -> bool {
    forall|i: int|
        0 <= i < s.len() ==> {
            &&& isize::MIN + lines <= #[trigger] s[i].row
            &&& s[i].cell_rows <= isize::MAX
            &&& s[i].row - lines + s[i].cell_rows <= isize::MAX
        }
}

/// The last placement with its spans capped to `max_cols` x `max_rows`.
pub open spec fn capped(s: Seq<ImagePlacement>, max_cols: int, max_rows: int) -> Seq<ImagePlacement> {
    if s.len() == 0 {
        s
    } else {
        let p = s.last();
        s.update(
            s.len() - 1,
            ImagePlacement {
                cell_cols: if p.cell_cols > max_cols { max_cols as usize } else { p.cell_cols },
                cell_rows: if p.cell_rows > max_rows { max_rows as usize } else { p.cell_rows },
                ..p
            },
        )
    }
}

/// The contents of an image store as plain values.
pub struct ImageStoreView {
    pub images: Map<u32, TerminalImage>,
    pub placements: Seq<ImagePlacement>,
    pub next_id: u32,
    pub cell_width: u32,
    pub cell_height: u32,
    pub dirty: bool,
}

/// The store after every row moved up by `lines`, as `scroll_up` leaves it
/// (unchanged where `scroll_up` could not be called).
pub open spec fn scrolled_store(v: ImageStoreView, lines: int) -> ImageStoreView {
    if !(lines <= isize::MAX && scroll_fits(v.placements, lines)) || lines == 0 || v.placements.len() == 0 {
        v
    } else {
        let kept = scrolled(v.placements, lines);
        ImageStoreView { placements: kept, images: v.images.restrict(placed_ids(kept)), dirty: true, ..v }
    }
}

/// Central store for decoded images and their placements.
pub struct ImageStore {
    images: HashMap<u32, TerminalImage>,
    next_id: u32,
    /// Active placements on the current screen.
    placements: Vec<ImagePlacement>,
    /// Cell dimensions in pixels (used to compute placement spans).
    cell_width_px: u32,
    cell_height_px: u32,
    /// Set when images or placements change.
    dirty: bool,
}

impl ImageStore {
    /// Well-formedness: positive cell sizes and a nonzero next ID.
    pub closed spec fn wf(&self) -> bool {
        &&& self.cell_width_px > 0
        &&& self.cell_height_px > 0
        &&& self.next_id >= 1
    }

    /// The stored images, keyed by ID.
    pub closed spec fn images_view(&self) -> Map<u32, TerminalImage> {
        self.images@
    }

    /// The active placements, oldest first.
    pub closed spec fn placements_view(&self) -> Seq<ImagePlacement> {
        self.placements@
    }

    /// The ID that the next call of `next_id` hands out.
    pub closed spec fn next_id_view(&self) -> u32 {
        self.next_id
    }

    pub closed spec fn cell_width_view(&self) -> u32 {
        self.cell_width_px
    }

    pub closed spec fn cell_height_view(&self) -> u32 {
        self.cell_height_px
    }

    pub closed spec fn dirty_view(&self) -> bool {
        self.dirty
    }

    /// All of the store's contents.
    pub open spec fn sview(&self) -> ImageStoreView {
        ImageStoreView {
            images: self.images_view(),
            placements: self.placements_view(),
            next_id: self.next_id_view(),
            cell_width: self.cell_width_view(),
            cell_height: self.cell_height_view(),
            dirty: self.dirty_view(),
        }
    }

    /// Whether `scroll_up(lines)` may be called: every placement stays
    /// within `isize` after moving up.
    pub fn can_scroll(&self, lines: usize) -> (r: bool)
        ensures
            r == (lines <= isize::MAX && scroll_fits(self.placements_view(), lines as int)),
    {
        if lines > isize::MAX as usize {
            return false;
        }
        let l = lines as isize;
        let mut i: usize = 0;
        while i < self.placements.len()
            invariant
                i <= self.placements.len(),
                l == lines,
                lines <= isize::MAX,
                forall|k: int| 0 <= k < i ==> {
                    &&& isize::MIN + lines <= #[trigger] self.placements@[k].row
                    &&& self.placements@[k].cell_rows <= isize::MAX
                    &&& self.placements@[k].row - lines + self.placements@[k].cell_rows <= isize::MAX
                },
            decreases self.placements.len() - i,
        {
            let p = self.placements[i];
            if p.row < isize::MIN + l || p.cell_rows > isize::MAX as usize {
                return false;
            }
            let shifted = p.row - l;
            if shifted > isize::MAX - (p.cell_rows as isize) {
                return false;
            }
            i += 1;
        }
        true
    }

    /// Move the placements up by `lines` when `can_scroll(lines)` holds;
    /// otherwise leave the store unchanged.
    pub fn scroll_up_if_fits(&mut self, lines: usize)
        requires
            old(self).wf(),
        ensures
            final(self).wf(),
            final(self).sview() == scrolled_store(old(self).sview(), lines as int),
    {
        if self.can_scroll(lines) {
            self.scroll_up(lines);
        }
    }

    pub fn new() -> (r: Self)
        ensures
            r.wf(),
            r.images_view() == Map::<u32, TerminalImage>::empty(),
            r.placements_view() == Seq::<ImagePlacement>::empty(),
            r.next_id_view() == 1,
            r.cell_width_view() == 8,
            r.cell_height_view() == 16,
            !r.dirty_view(),
    {
        ImageStore {
            images: HashMap::new(),
            next_id: 1,
            placements: Vec::new(),
            cell_width_px: 8,
            cell_height_px: 16,
            dirty: false,
        }
    }

    /// Set the cell dimensions (in pixels); a zero dimension is ignored.
    pub fn set_cell_size(&mut self, width: u32, height: u32)
        requires
            old(self).wf(),
        ensures
            final(self).wf(),
            final(self).cell_width_view() == if width > 0 { width } else { old(self).cell_width_view() },
            final(self).cell_height_view() == if height > 0 { height } else { old(self).cell_height_view() },
            final(self).images_view() == old(self).images_view(),
            final(self).placements_view() == old(self).placements_view(),
            final(self).next_id_view() == old(self).next_id_view(),
            final(self).dirty_view() == old(self).dirty_view(),
    {
        if width > 0 {
            self.cell_width_px = width;
        }
        if height > 0 {
            self.cell_height_px = height;
        }
    }

    /// Allocate the next auto-generated image ID; IDs wrap around and skip 0.
    pub fn next_id(&mut self) -> (id: u32)
        requires
            old(self).wf(),
        ensures
            final(self).wf(),
            id == old(self).next_id_view(),
            id >= 1,
            final(self).next_id_view() == if old(self).next_id_view() == u32::MAX {
                1
            } else {
                (old(self).next_id_view() + 1) as u32
            },
            final(self).images_view() == old(self).images_view(),
            final(self).placements_view() == old(self).placements_view(),
            final(self).cell_width_view() == old(self).cell_width_view(),
            final(self).cell_height_view() == old(self).cell_height_view(),
            final(self).dirty_view() == old(self).dirty_view(),
    {
        let id = self.next_id;
        self.next_id = if self.next_id == u32::MAX { 1 } else { self.next_id + 1 };
        id
    }

    /// Store a decoded image, replacing any image with the same ID.
    pub fn store_image(&mut self, image: TerminalImage)
        requires
            old(self).wf(),
        ensures
            final(self).wf(),
            final(self).images_view() == old(self).images_view().insert(image.id, image),
            final(self).placements_view() == old(self).placements_view(),
            final(self).next_id_view() == old(self).next_id_view(),
            final(self).cell_width_view() == old(self).cell_width_view(),
            final(self).cell_height_view() == old(self).cell_height_view(),
            final(self).dirty_view(),
    {
        self.images.insert(image.id, image);
        self.dirty = true;
    }

    /// Get an image by ID.
    pub fn get_image(&self, id: u32) -> (r: Option<&TerminalImage>)
        ensures
            match r {
                Some(img) => self.images_view().contains_key(id) && *img == self.images_view()[id],
                None => !self.images_view().contains_key(id),
            },
    {
        self.images.get(&id)
    }

    /// Add a placement; a zero span is computed from the source pixel size,
    /// and each span is at least one cell.
    pub fn add_placement(&mut self, placement: ImagePlacement)
        requires
            old(self).wf(),
        ensures
            final(self).wf(),
            final(self).placements_view() == old(self).placements_view().push(
                placed(placement, old(self).cell_width_view() as int, old(self).cell_height_view() as int),
            ),
            final(self).images_view() == old(self).images_view(),
            final(self).next_id_view() == old(self).next_id_view(),
            final(self).cell_width_view() == old(self).cell_width_view(),
            final(self).cell_height_view() == old(self).cell_height_view(),
            final(self).dirty_view(),
    {
        let mut p = placement;
        let cw = self.cell_width_px as u64;
        let ch = self.cell_height_px as u64;
        if p.cell_cols == 0 && p.src_width > 0 {
            let n: u64 = (p.src_width as u64 + cw - 1) / cw;
            assert(n <= p.src_width) by (nonlinear_arith)
                requires n as int == (p.src_width as int + cw as int - 1) / (cw as int), cw >= 1;
            p.cell_cols = n as usize;
        }
        if p.cell_rows == 0 && p.src_height > 0 {
            let n: u64 = (p.src_height as u64 + ch - 1) / ch;
            assert(n <= p.src_height) by (nonlinear_arith)
                requires n as int == (p.src_height as int + ch as int - 1) / (ch as int), ch >= 1;
            p.cell_rows = n as usize;
        }
        if p.cell_cols < 1 {
            p.cell_cols = 1;
        }
        if p.cell_rows < 1 {
            p.cell_rows = 1;
        }
        self.placements.push(p);
        self.dirty = true;
    }

    /// Delete an image and all its placements by ID.
    pub fn delete_image(&mut self, id: u32)
        requires
            old(self).wf(),
        ensures
            final(self).wf(),
            final(self).images_view() == old(self).images_view().remove(id),
            final(self).placements_view() == without_image(old(self).placements_view(), id),
            final(self).next_id_view() == old(self).next_id_view(),
            final(self).cell_width_view() == old(self).cell_width_view(),
            final(self).cell_height_view() == old(self).cell_height_view(),
            final(self).dirty_view(),
    {
        self.images.remove(&id);
        let mut kept: Vec<ImagePlacement> = Vec::new();
        let mut i: usize = 0;
        while i < self.placements.len()
            invariant
                0 <= i <= self.placements.len(),
                kept@ == without_image(self.placements@.take(i as int), id),
            decreases self.placements.len() - i,
        {
            assert(self.placements@.take(i + 1).drop_last() =~= self.placements@.take(i as int));
            let p = self.placements[i];
            if p.image_id != id {
                kept.push(p);
            }
            i += 1;
        }
        assert(self.placements@.take(self.placements.len() as int) =~= self.placements@);
        self.placements = kept;
        self.dirty = true;
    }

    /// Delete all images and placements.
    pub fn delete_all(&mut self)
        requires
            old(self).wf(),
        ensures
            final(self).wf(),
            final(self).images_view() == Map::<u32, TerminalImage>::empty(),
            final(self).placements_view() == Seq::<ImagePlacement>::empty(),
            final(self).next_id_view() == old(self).next_id_view(),
            final(self).cell_width_view() == old(self).cell_width_view(),
            final(self).cell_height_view() == old(self).cell_height_view(),
            final(self).dirty_view(),
    {
        self.images.clear();
        self.placements.clear();
        self.dirty = true;
    }

    /// All current placements.
    pub fn placements(&self) -> (r: &[ImagePlacement])
        ensures
            r@ == self.placements_view(),
    {
        self.placements.as_slice()
    }

    /// All stored images.
    pub fn images(&self) -> (r: &HashMap<u32, TerminalImage>)
        ensures
            r@ == self.images_view(),
    {
        &self.images
    }

    /// Check and clear the dirty flag.
    pub fn take_dirty(&mut self) -> (was: bool)
        requires
            old(self).wf(),
        ensures
            final(self).wf(),
            was == old(self).dirty_view(),
            !final(self).dirty_view(),
            final(self).images_view() == old(self).images_view(),
            final(self).placements_view() == old(self).placements_view(),
            final(self).next_id_view() == old(self).next_id_view(),
            final(self).cell_width_view() == old(self).cell_width_view(),
            final(self).cell_height_view() == old(self).cell_height_view(),
    {
        let was_dirty = self.dirty;
        self.dirty = false;
        was_dirty
    }

    /// Whether there is any placement.
    pub fn has_placements(&self) -> (r: bool)
        ensures
            r == (self.placements_view().len() > 0),
    {
        !self.placements.is_empty()
    }

    /// Move every placement up by `lines` rows as the terminal scrolls, drop
    /// the placements that have scrolled off entirely, and drop the images
    /// that no placement shows any more. Nothing changes when `lines` is zero
    /// or there is no placement.
    pub fn scroll_up(&mut self, lines: usize)
        requires
            old(self).wf(),
            lines <= isize::MAX,
            scroll_fits(old(self).placements_view(), lines as int),
        ensures
            final(self).wf(),
            lines == 0 || old(self).placements_view().len() == 0 ==> *final(self) == *old(self),
            !(lines == 0 || old(self).placements_view().len() == 0) ==> {
                &&& final(self).placements_view() == scrolled(old(self).placements_view(), lines as int)
                &&& final(self).images_view() == old(self).images_view().restrict(
                    placed_ids(final(self).placements_view()),
                )
                &&& final(self).dirty_view()
            },
            final(self).next_id_view() == old(self).next_id_view(),
            final(self).cell_width_view() == old(self).cell_width_view(),
            final(self).cell_height_view() == old(self).cell_height_view(),
    {
        if lines == 0 || self.placements.len() == 0 {
            return;
        }
        let l = lines as isize;
        let mut kept: Vec<ImagePlacement> = Vec::new();
        let mut i: usize = 0;
        while i < self.placements.len()
            invariant
                0 <= i <= self.placements.len(),
                l == lines,
                lines <= isize::MAX,
                self.wf(),
                self.next_id == old(self).next_id,
                self.cell_width_px == old(self).cell_width_px,
                self.cell_height_px == old(self).cell_height_px,
                self.images@ == old(self).images@,
                self.placements@ == old(self).placements@,
                scroll_fits(self.placements@, lines as int),
                kept@ == scrolled(self.placements@.take(i as int), lines as int),
            decreases self.placements.len() - i,
        {
            assert(self.placements@.take(i + 1).drop_last() =~= self.placements@.take(i as int));
            let mut p = self.placements[i];
            assert(scroll_fits(self.placements@, lines as int));
            assert(isize::MIN + lines <= self.placements@[i as int].row);
            p.row = p.row - l;
            if p.row + (p.cell_rows as isize) > 0 {
                kept.push(p);
            }
            i += 1;
        }
        assert(self.placements@.take(self.placements.len() as int) =~= self.placements@);
        self.placements = kept;
        // Collect the image IDs, then drop those that no placement shows.
        let mut ids: Vec<u32> = Vec::new();
        let ghost ks = vstd::std_specs::hash::spec_keys_iter(&self.images).remaining();
        assert(ks.unref().to_set() == self.images@.dom());
        for k in it: self.images.keys()
            invariant
                it.seq() == ks,
                ids@ == it.seq().take(it.index() as int).unref(),
        {
            ids.push(*k);
            assert(it.seq().take(it.index() + 1).unref() =~= ids@);
        }
        let ghost all_ids = ids@;
        assert(all_ids.to_set() == self.images@.dom()) by {
            assert(ids@ =~= ks.unref());
        }
        let ghost before = self.images@;
        let mut j: usize = 0;
        while j < ids.len()
            invariant
                0 <= j <= ids.len(),
                self.wf(),
                self.next_id == old(self).next_id,
                self.cell_width_px == old(self).cell_width_px,
                self.cell_height_px == old(self).cell_height_px,
                self.placements@ == scrolled(old(self).placements@, lines as int),
                ids@ == all_ids,
                all_ids.to_set() == before.dom(),
                self.images@ == before.remove_keys(
                    Set::new(|id: u32| exists|m: int| 0 <= m < j && #[trigger] all_ids[m] == id
                        && !placed_ids(self.placements@).contains(id)),
                ),
            decreases ids.len() - j,
        {
            let id = ids[j];
            if !self.is_placed(id) {
                self.images.remove(&id);
            }
            proof {
                let s_old = Set::new(|x: u32| exists|m: int| 0 <= m < j && #[trigger] all_ids[m] == x
                    && !placed_ids(self.placements@).contains(x));
                let s_new = Set::new(|x: u32| exists|m: int| 0 <= m < j + 1 && #[trigger] all_ids[m] == x
                    && !placed_ids(self.placements@).contains(x));
                if placed_ids(self.placements@).contains(id) {
                    assert(s_new =~= s_old);
                } else {
                    assert(s_new =~= s_old.insert(id));
                }
            }
            j += 1;
        }
        proof {
            let s = Set::new(|x: u32| exists|m: int| 0 <= m < ids.len() && #[trigger] all_ids[m] == x
                && !placed_ids(self.placements@).contains(x));
            assert forall|x: u32| before.dom().contains(x) && !placed_ids(self.placements@).contains(x)
                implies s.contains(x) by {
                assert(all_ids.to_set().contains(x));
                let m = choose|m: int| 0 <= m < all_ids.len() && all_ids[m] == x;
            }
            assert(before.remove_keys(s) =~= before.restrict(placed_ids(self.placements@)));
        }
        self.dirty = true;
    }

    /// Whether some placement shows image `id`.
    fn is_placed(&self, id: u32) -> (r: bool)
        ensures
            r == placed_ids(self.placements@).contains(id),
    {
        let mut i: usize = 0;
        while i < self.placements.len()
            invariant
                0 <= i <= self.placements.len(),
                forall|m: int| 0 <= m < i ==> #[trigger] self.placements@[m].image_id != id,
            decreases self.placements.len() - i,
        {
            if self.placements[i].image_id == id {
                assert(self.placements@[i as int].image_id == id);
                return true;
            }
            i += 1;
        }
        false
    }

    /// Limit the last placement's spans to `max_cols` x `max_rows`.
    pub fn cap_placement_size(&mut self, max_cols: usize, max_rows: usize)
        requires
            old(self).wf(),
        ensures
            final(self).wf(),
            final(self).placements_view() == capped(old(self).placements_view(), max_cols as int, max_rows as int),
            final(self).images_view() == old(self).images_view(),
            final(self).next_id_view() == old(self).next_id_view(),
            final(self).cell_width_view() == old(self).cell_width_view(),
            final(self).cell_height_view() == old(self).cell_height_view(),
            final(self).dirty_view() == old(self).dirty_view(),
    {
        let n = self.placements.len();
        if n > 0 {
            let mut p = self.placements[n - 1];
            if p.cell_cols > max_cols {
                p.cell_cols = max_cols;
            }
            if p.cell_rows > max_rows {
                p.cell_rows = max_rows;
            }
            self.placements.set(n - 1, p);
        }
    }
}

/// What a read gives back of a write: after storing `img`, its ID finds
/// it, and every other ID finds what it found before; after deleting an
/// ID, that ID finds nothing and no placement shows it.
pub proof fn law_image_store_then_get(
    images: Map<u32, TerminalImage>,
    placements: Seq<ImagePlacement>,
    img: TerminalImage,
    id: u32,
)
    ensures
        images.insert(img.id, img).contains_key(img.id),
        images.insert(img.id, img)[img.id] == img,
        id != img.id ==> images.insert(img.id, img).contains_key(id) == images.contains_key(id),
        id != img.id && images.contains_key(id) ==> images.insert(img.id, img)[id] == images[id],
        !images.remove(id).contains_key(id),
        forall|k: int| 0 <= k < without_image(placements, id).len() ==> #[trigger] without_image(placements, id)[k].image_id != id,
    decreases placements.len(),
{
    if placements.len() > 0 {
        law_image_store_then_get(images, placements.drop_last(), img, id);
        let rest = without_image(placements.drop_last(), id);
        if placements.last().image_id != id {
            assert forall|k: int| 0 <= k < rest.push(placements.last()).len() implies #[trigger] rest.push(
                placements.last(),
            )[k].image_id != id by {
                if k < rest.len() {
                    assert(rest.push(placements.last())[k] == rest[k]);
                }
            }
        }
    }
}

} // verus!
