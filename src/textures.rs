//! One lazily uploaded texture per tile, kept for the life of the palette.
use vstd::prelude::*;
use crate::sheet::{TileBitmap, SpriteSheet, slice, is_tile_of};

verus! {

#[verifier::external_type_specification]
#[verifier::external_body]
pub struct ExContext(egui::Context);

#[verifier::external_type_specification]
#[verifier::external_body]
pub struct ExTextureHandle(egui::TextureHandle);

/// Relies on egui's `Context::load_texture` to upload the tile, named after its
/// index, with default texture options. `ColorImage::from_rgb` panics unless the
/// buffer holds three bytes per pixel, which `tile.wf()` gives.
#[verifier::external_body]
fn upload_tile(ctx: &egui::Context, index: usize, tile: &TileBitmap) -> (r: egui::TextureHandle)
    requires
        tile.wf(),
{
    let edge = tile.edge as usize;
    ctx.load_texture(
        format!("tile_{index}"),
        egui::ColorImage::from_rgb([edge, edge], tile.pixels.as_slice()),
        egui::TextureOptions::default(),
    )
}

/// What a call of `get_or_create` for `index` does to the slots and returns:
/// an empty slot is filled with a new handle; a filled slot is left alone and
/// its handle returned.
pub open spec fn get_or_create_step(
    before: Seq<Option<egui::TextureHandle>>,
    index: int,
    after: Seq<Option<egui::TextureHandle>>,
    r: egui::TextureHandle,
) -> bool {
    match before[index] {
        Some(h) => after == before && r == h,
        None => after == before.update(index, Some(r)),
    }
}

/// The tiles of a sheet and, in lockstep, one texture slot per tile. A slot is
/// empty until the tile is first shown.
pub struct TextureCache {
    tiles: Vec<TileBitmap>,
    slots: Vec<Option<egui::TextureHandle>>,
}

impl TextureCache {
    /// The tiles, in sheet order.
    pub closed spec fn tiles(&self) -> Seq<TileBitmap> {
        self.tiles@
    }

    /// The texture slots, one per tile.
    pub closed spec fn slots(&self) -> Seq<Option<egui::TextureHandle>> {
        self.slots@
    }

    /// As many slots as tiles, every tile a full bitmap.
    pub open spec fn wf(&self) -> bool {
        &&& self.slots().len() == self.tiles().len()
        &&& forall|i: int| 0 <= i < self.tiles().len() ==> (#[trigger] self.tiles()[i]).wf()
    }

    /// A cache over `tiles` with every slot empty.
    pub fn new(tiles: Vec<TileBitmap>) -> (r: TextureCache)
        requires
            forall|i: int| 0 <= i < tiles@.len() ==> (#[trigger] tiles@[i]).wf(),
        ensures
            r.wf(),
            r.tiles() == tiles@,
            r.slots() == Seq::new(tiles@.len(), |i: int| None::<egui::TextureHandle>),
    {
        let mut slots: Vec<Option<egui::TextureHandle>> = Vec::new();
        let mut i: usize = 0;
        while i < tiles.len()
            invariant
                i <= tiles@.len(),
                slots@ == Seq::new(i as nat, |k: int| None::<egui::TextureHandle>),
            decreases tiles@.len() - i,
        {
            slots.push(None);
            i = i + 1;
            assert(slots@ =~= Seq::new(i as nat, |k: int| None::<egui::TextureHandle>));
        }
        TextureCache { tiles, slots }
    }

    /// A cache over the tiles of `sheet`, cut at edge `tile_edge`, with every
    /// slot empty.
    pub fn from_sheet(sheet: &SpriteSheet, tile_edge: u32) -> (r: TextureCache)
        requires
            sheet.wf(),
            0 < tile_edge,
            sheet.width < tile_edge || tile_edge <= sheet.height,
        ensures
            r.wf(),
            r.tiles().len() == sheet.width / tile_edge,
            forall|i: int|
                0 <= i < r.tiles().len() ==> is_tile_of(sheet.pixels@, sheet.width as int, tile_edge as int, i, &#[trigger] r.tiles()[i]),
            forall|i: int| 0 <= i < r.slots().len() ==> #[trigger] r.slots()[i] is None,
    {
        let tiles = slice(sheet, tile_edge);
        TextureCache::new(tiles)
    }

    /// The number of tiles.
    pub fn len(&self) -> (r: usize)
        requires
            self.wf(),
        ensures
            r == self.tiles().len(),
            r == self.slots().len(),
    {
        self.tiles.len()
    }

    /// The bitmap of tile `index`.
    pub fn tile(&self, index: usize) -> (r: &TileBitmap)
        requires
            index < self.tiles().len(),
        ensures
            *r == self.tiles()[index as int],
    {
        &self.tiles[index]
    }

    /// The texture of tile `index`, uploaded through `ctx` on the first call for
    /// that index and returned unchanged by every later call.
    pub fn get_or_create(&mut self, ctx: &egui::Context, index: usize) -> (r: &egui::TextureHandle)
        requires
            old(self).wf(),
            index < old(self).tiles().len(),
        ensures
            final(self).wf(),
            final(self).tiles() == old(self).tiles(),
            get_or_create_step(old(self).slots(), index as int, final(self).slots(), *r),
    {
        if self.slots[index].is_none() {
            let handle = upload_tile(ctx, index, &self.tiles[index]);
            self.slots.set(index, Some(handle));
        }
        self.slots[index].as_ref().unwrap()
    }
}

/// A second `get_or_create` for the same index returns the handle of the first
/// and changes nothing: a tile is uploaded at most once.
pub proof fn get_or_create_is_idempotent(
    c0: Seq<Option<egui::TextureHandle>>,
    index: int,
    c1: Seq<Option<egui::TextureHandle>>,
    r1: egui::TextureHandle,
    c2: Seq<Option<egui::TextureHandle>>,
    r2: egui::TextureHandle,
)
    requires
        0 <= index < c0.len(),
        get_or_create_step(c0, index, c1, r1),
        get_or_create_step(c1, index, c2, r2),
    ensures
        r2 == r1,
        c2 == c1,
        c1[index] == Some(r1),
{
}

} // verus!
