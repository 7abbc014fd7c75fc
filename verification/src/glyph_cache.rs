//! The cache of rasterised glyphs: for each (character, bold, italic) the
//! place its bitmap was given in the atlas, or the fact that it has none.

use std::collections::HashMap;

use vstd::prelude::*;

use crate::atlas::{AtlasPacker, PackerModel};

verus! {

broadcast use vstd::std_specs::hash::group_hash_axioms;

/// Where a glyph's bitmap lies in the atlas, and how it sits relative to
/// the pen position.
#[derive(Clone, Copy, PartialEq, Eq, Debug, Structural)]
pub struct GlyphSlot {
    pub x: u32,
    pub y: u32,
    pub width: u32,
    pub height: u32,
    pub bearing_left: i32,
    pub bearing_top: i32,
}

/// A rasterised bitmap's size and bearings: width, height, left and top.
pub type RasterDims = (u32, u32, i32, i32);

/// The cache key of a character in a style.
pub open spec fn glyph_key(ch: char, bold: bool, italic: bool) -> u64 {
    ((ch as u32) as int * 4 + (if bold { 2int } else { 0 }) + (if italic { 1int } else { 0 })) as u64
}

/// Different styled characters have different keys.
pub proof fn lemma_glyph_key_injective(a: char, ab: bool, ai: bool, b: char, bb: bool, bi: bool)
    ensures
        glyph_key(a, ab, ai) == glyph_key(b, bb, bi) ==> a == b && ab == bb && ai == bi,
{
    assert((a as u32) <= 0x10ffff);
    assert((b as u32) <= 0x10ffff);
}

/// The contents of the cache and the state of its atlas.
pub struct GlyphCacheModel {
    pub entries: Map<u64, Option<GlyphSlot>>,
    pub packer: PackerModel,
}

impl GlyphCacheModel {
    /// The slot a newly rasterised glyph receives, and the atlas afterwards;
    /// a glyph with no bitmap gets no slot and takes no room.
    pub open spec fn place(self, raster: Option<RasterDims>) -> (Option<GlyphSlot>, PackerModel) {
        match raster {
            None => (None, self.packer),
            Some((w, h, left, top)) => {
                let (pos, next) = self.packer.pack(w as int, h as int);
                match pos {
                    Some((x, y)) => (
                        Some(
                            GlyphSlot {
                                x: x as u32,
                                y: y as u32,
                                width: w,
                                height: h,
                                bearing_left: left,
                                bearing_top: top,
                            },
                        ),
                        next,
                    ),
                    None => (None, next),
                }
            },
        }
    }
}

impl GlyphCacheModel {
    /// Asking for the glyph under key `k`: the remembered slot if there is
    /// one, the cache unchanged; else the slot a newly rasterised bitmap
    /// `raster` receives, now remembered. (`GlyphCache::lookup` answers the
    /// first case; only on a miss is the glyph rasterised and handed to
    /// `GlyphCache::place`.)
    pub open spec fn fetch(self, k: u64, raster: Option<RasterDims>) -> (Option<GlyphSlot>, GlyphCacheModel) {
        if self.entries.contains_key(k) {
            (self.entries[k], self)
        } else {
            let (s, next) = self.place(raster);
            (s, GlyphCacheModel { entries: self.entries.insert(k, s), packer: next })
        }
    }
}

/// Glyph slots by character and style, with the atlas they are packed into.
pub struct GlyphCache {
    map: HashMap<u64, Option<GlyphSlot>>,
    packer: AtlasPacker,
}

impl View for GlyphCache {
    type V = GlyphCacheModel;

    closed spec fn view(&self) -> GlyphCacheModel {
        GlyphCacheModel { entries: self.map@, packer: self.packer@ }
    }
}

fn key_of(ch: char, bold: bool, italic: bool) -> (k: u64)
    ensures
        k == glyph_key(ch, bold, italic),
{
    let code = ch as u32;
    assert(code <= 0x10ffff);
    (code as u64) * 4 + (if bold { 2 } else { 0 }) + (if italic { 1 } else { 0 })
}

impl GlyphCache {
    /// An empty cache over an empty atlas.
    pub fn new() -> (c: Self)
        ensures
            c@.entries == Map::<u64, Option<GlyphSlot>>::empty(),
            c@.packer == PackerModel::initial(),
    {
        GlyphCache { map: HashMap::new(), packer: AtlasPacker::new() }
    }

    /// What is known of a styled character: `None` if it was never placed,
    /// else its slot (`Some(None)` for a glyph without a bitmap).
    pub fn lookup(&self, ch: char, bold: bool, italic: bool) -> (found: Option<Option<GlyphSlot>>)
        ensures
            ({
                let k = glyph_key(ch, bold, italic);
                found == if self@.entries.contains_key(k) {
                    Some(self@.entries[k])
                } else {
                    None::<Option<GlyphSlot>>
                }
            }),
    {
        let k = key_of(ch, bold, italic);
        match self.map.get(&k) {
            Some(slot) => Some(*slot),
            None => None,
        }
    }

    /// Whether a bitmap of the given size can be packed without overflowing
    /// the atlas arithmetic.
    pub fn pack_in_range(&self, w: u32, h: u32) -> (ok: bool)
        ensures
            ok == self@.packer.pack_in_range(w as int, h as int),
    {
        self.packer.pack_in_range(w, h)
    }

    /// Records a newly rasterised styled character: packs its bitmap, if
    /// it has one, and remembers the slot it got (or that it has none).
    pub fn place(&mut self, ch: char, bold: bool, italic: bool, raster: Option<RasterDims>) -> (slot:
        Option<GlyphSlot>)
        requires
            raster matches Some((w, h, _, _)) ==> old(self)@.packer.pack_in_range(w as int, h as int),
        ensures
            ({
                let (s, next) = old(self)@.place(raster);
                &&& slot == s
                &&& final(self)@.packer == next
                &&& final(self)@.entries == old(self)@.entries.insert(glyph_key(ch, bold, italic), s)
            }),
    {
        let k = key_of(ch, bold, italic);
        let slot = match raster {
            None => None,
            Some((w, h, left, top)) => match self.packer.pack(w, h) {
                Some((x, y)) => Some(
                    GlyphSlot { x, y, width: w, height: h, bearing_left: left, bearing_top: top },
                ),
                None => None,
            },
        };
        self.map.insert(k, slot);
        slot
    }

    /// Forgets every glyph and empties the atlas.
    pub fn clear(&mut self)
        ensures
            final(self)@.entries == Map::<u64, Option<GlyphSlot>>::empty(),
            final(self)@.packer == PackerModel::initial(),
    {
        self.map.clear();
        self.packer.reset();
    }
}

/// A glyph placed in the cache is found again under the same character and
/// style, and placing it leaves every other entry as it was.
pub proof fn law_place_then_lookup(
    c: GlyphCacheModel,
    ch: char,
    bold: bool,
    italic: bool,
    raster: Option<RasterDims>,
    other: char,
    other_bold: bool,
    other_italic: bool,
)
    ensures
        ({
            let entries = c.entries.insert(glyph_key(ch, bold, italic), c.place(raster).0);
            &&& entries.contains_key(glyph_key(ch, bold, italic))
            &&& entries[glyph_key(ch, bold, italic)] == c.place(raster).0
            &&& (other != ch || other_bold != bold || other_italic != italic) ==> {
                let k = glyph_key(other, other_bold, other_italic);
                &&& entries.contains_key(k) == c.entries.contains_key(k)
                &&& entries.contains_key(k) ==> entries[k] == c.entries[k]
            }
        }),
{
    lemma_glyph_key_injective(ch, bold, italic, other, other_bold, other_italic);
}

/// Asking twice for the same styled character, with no clearing between,
/// gives the same answer, and the second request rasterises and packs
/// nothing: whatever bitmap it would offer is ignored and the cache and its
/// atlas stay as the first request left them.
pub proof fn law_fetch_stable(
    c: GlyphCacheModel,
    ch: char,
    bold: bool,
    italic: bool,
    first: Option<RasterDims>,
    second: Option<RasterDims>,
)
    ensures
        ({
            let k = glyph_key(ch, bold, italic);
            let (s1, c1) = c.fetch(k, first);
            let (s2, c2) = c1.fetch(k, second);
            &&& s2 == s1
            &&& c2 == c1
        }),
{
}

/// Placing a glyph without a bitmap gives no slot and leaves the atlas
/// alone; placing one with a bitmap gives the slot where the atlas packs it,
/// with the bitmap's own size and bearings, or none when the atlas is full.
pub proof fn law_place_cases(c: GlyphCacheModel, raster: Option<RasterDims>)
    ensures
        raster is None ==> c.place(raster) == (None::<GlyphSlot>, c.packer),
        raster matches Some((w, h, left, top)) ==> {
            let (pos, next) = c.packer.pack(w as int, h as int);
            &&& c.place(raster).1 == next
            &&& (pos is None ==> c.place(raster).0 is None)
            &&& (pos matches Some((x, y)) ==> c.place(raster).0 == Some(
                GlyphSlot {
                    x: x as u32,
                    y: y as u32,
                    width: w,
                    height: h,
                    bearing_left: left,
                    bearing_top: top,
                },
            ))
        },
{
}

} // verus!
