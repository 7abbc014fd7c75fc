//! Shelf packing of glyph bitmaps into a square texture atlas.
//!
//! Bitmaps are placed left to right along a shelf; one that does not fit in
//! the remaining width starts a new shelf below the tallest bitmap of the
//! current one. A one-pixel gap separates neighbours, and the texel at the
//! origin is reserved for a solid white pixel.

use vstd::prelude::*;

verus! {

/// Width and height of the atlas in texels.
pub const ATLAS_SIZE: u32 = 1024;

/// Gap left between neighbouring bitmaps.
pub const PAD: u32 = 1;

/// The packing cursor: where the next bitmap goes and how tall the current
/// shelf is.
pub struct PackerModel {
    pub pack_x: int,
    pub pack_y: int,
    pub shelf_h: int,
}

/// A rectangle of the atlas as (x, y, width, height).
pub type Rect = (int, int, int, int);

/// The two rectangles share no texel.
pub open spec fn disjoint(a: Rect, b: Rect) -> bool {
    a.0 + a.2 <= b.0 || b.0 + b.2 <= a.0 || a.1 + a.3 <= b.1 || b.1 + b.3 <= a.1
}

/// The rectangle the solid pixel occupies.
pub open spec fn solid_rect() -> Rect {
    (0, 0, 1, 1)
}

impl PackerModel {
    /// The cursor of an empty atlas, just right of the solid pixel.
    pub open spec fn initial() -> PackerModel {
        PackerModel { pack_x: 2, pack_y: 0, shelf_h: 0 }
    }

    /// The cursor after deciding where a `w` x `h` bitmap would start: on a
    /// new shelf when it does not fit in the rest of the current one.
    pub open spec fn placed_cursor(self, w: int) -> PackerModel {
        if self.pack_x + w > ATLAS_SIZE {
            PackerModel { pack_x: 0, pack_y: self.pack_y + self.shelf_h + PAD, shelf_h: 0 }
        } else {
            self
        }
    }

    /// Where a `w` x `h` bitmap goes (`None` when the atlas is full) and the
    /// cursor afterwards.
    pub open spec fn pack(self, w: int, h: int) -> (Option<(int, int)>, PackerModel) {
        let m = self.placed_cursor(w);
        if m.pack_y + h > ATLAS_SIZE {
            (None, m)
        } else {
            (
                Some((m.pack_x, m.pack_y)),
                PackerModel {
                    pack_x: m.pack_x + w + PAD,
                    pack_y: m.pack_y,
                    shelf_h: if m.shelf_h >= h {
                        m.shelf_h
                    } else {
                        h
                    },
                },
            )
        }
    }

    /// Packing a `w` x `h` bitmap stays within 32-bit arithmetic.
    pub open spec fn pack_in_range(self, w: int, h: int) -> bool {
        let m = self.placed_cursor(w);
        &&& self.pack_x + w <= u32::MAX
        &&& self.pack_y + self.shelf_h + PAD <= u32::MAX
        &&& m.pack_y + h <= u32::MAX
        &&& m.pack_x + w + PAD <= u32::MAX
    }

    /// The rectangles handed out so far lie above the cursor's shelf or to
    /// the left of the cursor on it, and no two of them overlap.
    pub open spec fn layout_ok(self, placed: Seq<Rect>) -> bool {
        &&& self.pack_x >= 0
        &&& self.pack_y >= 0
        &&& self.shelf_h >= 0
        &&& forall|i: int|
            0 <= i < placed.len() ==> {
                let r = #[trigger] placed[i];
                &&& r.0 >= 0
                &&& r.1 >= 0
                &&& r.2 >= 0
                &&& r.3 >= 0
                &&& (r.1 + r.3 <= self.pack_y || (r.1 == self.pack_y && r.0 + r.2 < self.pack_x && r.3
                    <= self.shelf_h + PAD))
            }
        &&& forall|i: int, j: int|
            0 <= i < placed.len() && 0 <= j < placed.len() && i != j ==> disjoint(
                #[trigger] placed[i],
                #[trigger] placed[j],
            )
    }
}

/// Packs glyph bitmaps into the atlas.
pub struct AtlasPacker {
    pack_x: u32,
    pack_y: u32,
    shelf_h: u32,
}

impl View for AtlasPacker {
    type V = PackerModel;

    closed spec fn view(&self) -> PackerModel {
        PackerModel {
            pack_x: self.pack_x as int,
            pack_y: self.pack_y as int,
            shelf_h: self.shelf_h as int,
        }
    }
}

impl AtlasPacker {
    /// An empty atlas holding only the solid pixel.
    pub fn new() -> (p: Self)
        ensures
            p@ == PackerModel::initial(),
    {
        AtlasPacker { pack_x: 2, pack_y: 0, shelf_h: 0 }
    }

    /// Forgets every placement, keeping the solid pixel.
    pub fn reset(&mut self)
        ensures
            final(self)@ == PackerModel::initial(),
    {
        self.pack_x = 2;
        self.pack_y = 0;
        self.shelf_h = 0;
    }

    /// Whether packing a `w` x `h` bitmap stays within 32-bit arithmetic.
    pub fn pack_in_range(&self, w: u32, h: u32) -> (ok: bool)
        ensures
            ok == self@.pack_in_range(w as int, h as int),
    {
        let x = self.pack_x as u64;
        let y = self.pack_y as u64;
        let s = self.shelf_h as u64;
        let w = w as u64;
        let h = h as u64;
        let max = u32::MAX as u64;
        let (mx, my) = if x + w > ATLAS_SIZE as u64 {
            (0u64, y + s + PAD as u64)
        } else {
            (x, y)
        };
        x + w <= max && y + s + PAD as u64 <= max && my + h <= max && mx + w + PAD as u64 <= max
    }

    /// Reserves room for a `w` x `h` bitmap and returns its top-left corner,
    /// or `None` when the atlas is full.
    pub fn pack(&mut self, w: u32, h: u32) -> (pos: Option<(u32, u32)>)
        requires
            old(self)@.pack_in_range(w as int, h as int),
        ensures
            ({
                let (spec_pos, next) = old(self)@.pack(w as int, h as int);
                &&& final(self)@ == next
                &&& match pos {
                    Some((x, y)) => spec_pos == Some((x as int, y as int)),
                    None => spec_pos is None,
                }
            }),
    {
        if self.pack_x + w > ATLAS_SIZE {
            self.pack_x = 0;
            self.pack_y += self.shelf_h + PAD;
            self.shelf_h = 0;
        }
        if self.pack_y + h > ATLAS_SIZE {
            return None;
        }
        let x = self.pack_x;
        let y = self.pack_y;
        self.pack_x += w + PAD;
        if h > self.shelf_h {
            self.shelf_h = h;
        }
        Some((x, y))
    }
}

/// An empty atlas satisfies the layout invariant with the solid pixel as its
/// only rectangle.
pub proof fn lemma_initial_layout()
    ensures
        PackerModel::initial().layout_ok(seq![solid_rect()]),
{
}

/// Packing keeps the layout invariant: a rectangle handed out lies clear of
/// every rectangle handed out before it.
pub proof fn lemma_pack_keeps_layout(m: PackerModel, placed: Seq<Rect>, w: int, h: int)
    requires
        m.layout_ok(placed),
        w >= 0,
        h >= 0,
    ensures
        ({
            let (pos, next) = m.pack(w, h);
            match pos {
                Some((x, y)) => {
                    &&& next.layout_ok(placed.push((x, y, w, h)))
                    &&& forall|i: int| 0 <= i < placed.len() ==> disjoint(#[trigger] placed[i], (x, y, w, h))
                },
                None => next.layout_ok(placed),
            }
        }),
{
    let m1 = m.placed_cursor(w);
    assert(m1.layout_ok(placed)) by {
        assert forall|i: int| 0 <= i < placed.len() implies {
            let r = #[trigger] placed[i];
            r.1 + r.3 <= m1.pack_y || (r.1 == m1.pack_y && r.0 + r.2 < m1.pack_x && r.3 <= m1.shelf_h + PAD)
        } by {}
    }
    let (pos, next) = m.pack(w, h);
    if let Some((x, y)) = pos {
        let n: Rect = (x, y, w, h);
        let p2 = placed.push(n);
        assert forall|i: int| 0 <= i < placed.len() implies disjoint(#[trigger] placed[i], n) by {}
        assert forall|i: int, j: int|
            0 <= i < p2.len() && 0 <= j < p2.len() && i != j implies disjoint(#[trigger] p2[i], #[trigger] p2[j]) by {
            if i < placed.len() && j < placed.len() {
                assert(disjoint(placed[i], placed[j]));
            } else if i < placed.len() {
                assert(disjoint(placed[i], n));
            } else {
                assert(disjoint(placed[j], n));
            }
        }
        assert forall|i: int| 0 <= i < p2.len() implies {
            let r = #[trigger] p2[i];
            &&& r.0 >= 0
            &&& r.1 >= 0
            &&& r.2 >= 0
            &&& r.3 >= 0
            &&& (r.1 + r.3 <= next.pack_y || (r.1 == next.pack_y && r.0 + r.2 < next.pack_x && r.3
                <= next.shelf_h + PAD))
        } by {
            if i < placed.len() {
                assert(p2[i] == placed[i]);
            }
        }
    }
}

/// A bitmap no wider than the atlas is placed wholly inside it.
pub proof fn lemma_pack_in_bounds(m: PackerModel, w: int, h: int)
    requires
        m.pack_x >= 0,
        m.pack_y >= 0,
        m.shelf_h >= 0,
        0 <= w <= ATLAS_SIZE,
        h >= 0,
    ensures
        m.pack(w, h).0 matches Some((x, y)) ==> 0 <= x && x + w <= ATLAS_SIZE && 0 <= y && y + h
            <= ATLAS_SIZE,
{
}

/// The cursor after packing bitmaps of the given sizes in turn, and the
/// rectangles handed out (failed packs hand out none).
pub open spec fn pack_all(m: PackerModel, sizes: Seq<(u32, u32)>) -> (PackerModel, Seq<Rect>)
    decreases sizes.len(),
{
    if sizes.len() == 0 {
        (m, seq![])
    } else {
        let (m1, placed) = pack_all(m, sizes.drop_last());
        let (w, h) = sizes.last();
        let (pos, m2) = m1.pack(w as int, h as int);
        match pos {
            Some((x, y)) => (m2, placed.push((x, y, w as int, h as int))),
            None => (m2, placed),
        }
    }
}

/// However many bitmaps are packed into an empty atlas, no two rectangles
/// handed out overlap, and none overlaps the solid pixel.
pub proof fn law_packs_never_overlap(sizes: Seq<(u32, u32)>)
    ensures
        ({
            let (m, placed) = pack_all(PackerModel::initial(), sizes);
            m.layout_ok(seq![solid_rect()] + placed)
        }),
    decreases sizes.len(),
{
    if sizes.len() > 0 {
        law_packs_never_overlap(sizes.drop_last());
        let (m1, placed) = pack_all(PackerModel::initial(), sizes.drop_last());
        let (w, h) = sizes.last();
        let all = seq![solid_rect()] + placed;
        lemma_pack_keeps_layout(m1, all, w as int, h as int);
        let (pos, m2) = m1.pack(w as int, h as int);
        if let Some((x, y)) = pos {
            assert(all.push((x, y, w as int, h as int)) =~= seq![solid_rect()] + placed.push(
                (x, y, w as int, h as int),
            ));
        }
    } else {
        assert(seq![solid_rect()] + seq![] =~= seq![solid_rect()]);
    }
}

/// One packing step, in texels of a 1024 x 1024 atlas with a 1-texel gap:
/// a bitmap that fits beside the cursor goes there and the cursor moves
/// past it and the gap, the shelf growing to the bitmap's height; one that
/// does not starts a new shelf at column 0, one texel below the current
/// shelf; one that would reach below the atlas is refused.
pub proof fn law_pack_step(m: PackerModel, w: int, h: int)
    requires
        w >= 0,
        h >= 0,
    ensures
        ({
            let (pos, n) = m.pack(w, h);
            let y = m.pack_y + m.shelf_h + 1;
            &&& (m.pack_x + w <= 1024 && m.pack_y + h <= 1024) ==> pos == Some((m.pack_x, m.pack_y))
                && n == PackerModel {
                pack_x: m.pack_x + w + 1,
                pack_y: m.pack_y,
                shelf_h: if h > m.shelf_h { h } else { m.shelf_h },
            }
            &&& (m.pack_x + w <= 1024 && m.pack_y + h > 1024) ==> pos is None && n == m
            &&& (m.pack_x + w > 1024 && y + h <= 1024) ==> pos == Some((0int, y)) && n == PackerModel {
                pack_x: w + 1,
                pack_y: y,
                shelf_h: h,
            }
            &&& (m.pack_x + w > 1024 && y + h > 1024) ==> pos is None && n == PackerModel {
                pack_x: 0,
                pack_y: y,
                shelf_h: 0,
            }
        }),
{
}

} // verus!
