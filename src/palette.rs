//! The palette's application state: the label, the tiles with their textures,
//! and the selection, with the subset that is saved between runs.
use vstd::prelude::*;
use crate::selection::{SelectionState, index_view, revalidated, toggled};
use crate::sheet::{DecodeError, SpriteSheet, TileBitmap, decoded_rgb, is_tile_of};
use crate::textures::{TextureCache, get_or_create_step};

verus! {

/// Edge of a tile in the sprite sheet, in pixels.
pub const TILE_SIZE: u32 = 16;

/// The label shown before any state has been saved.
pub open spec fn default_label() -> Seq<char> {
    seq!['H', 'e', 'l', 'l', 'o', ' ', 'W', 'o', 'r', 'l', 'd', '!']
}

/// The part of the state that is saved on shutdown and read on startup.
pub struct PersistedState {
    pub label: String,
    pub tile_selection: Option<usize>,
    pub num_tiles: usize,
}

impl PersistedState {
    /// The state of a first run: the default label, nothing selected, no tiles.
    pub fn initial() -> (r: PersistedState)
        ensures
            r.label@ == default_label(),
            r.tile_selection is None,
            r.num_tiles == 0,
    {
        proof {
            reveal_strlit("Hello World!");
        }
        PersistedState { label: "Hello World!".to_owned(), tile_selection: None, num_tiles: 0 }
    }
}

impl Default for PersistedState {
    fn default() -> (r: PersistedState)
        ensures
            r.label@ == default_label(),
            r.tile_selection is None,
            r.num_tiles == 0,
    {
        PersistedState::initial()
    }
}

/// The palette application: a label, the tiles of the sprite sheet with their
/// textures, and the selected tile.
pub struct WfcApp {
    label: String,
    selection: SelectionState,
    textures: TextureCache,
}

impl WfcApp {
    /// The selected tile, as a ghost value.
    pub closed spec fn selection_view(&self) -> Option<nat> {
        self.selection@
    }

    /// The label text, as a ghost value.
    pub closed spec fn label_view(&self) -> Seq<char> {
        self.label@
    }

    /// The tiles, in sheet order.
    pub closed spec fn tiles(&self) -> Seq<TileBitmap> {
        self.textures.tiles()
    }

    /// The texture slots, one per tile.
    pub closed spec fn slots(&self) -> Seq<Option<egui::TextureHandle>> {
        self.textures.slots()
    }

    /// Tiles and slots in lockstep, every tile a full bitmap, and a selection,
    /// if any, names a tile.
    pub open spec fn wf(&self) -> bool {
        &&& self.slots().len() == self.tiles().len()
        &&& forall|i: int| 0 <= i < self.tiles().len() ==> (#[trigger] self.tiles()[i]).wf()
        &&& self.selection_view() matches Some(s) ==> s < self.tiles().len()
    }

    /// The tile count, as a ghost value.
    pub open spec fn tile_count(&self) -> nat {
        self.tiles().len()
    }

    /// Starts the palette on a decoded sheet: the tiles are cut at
    /// `TILE_SIZE`, every texture slot is empty, the label is the stored one,
    /// and the stored selection is kept only if it names one of the new tiles.
    pub fn from_sheet(stored: PersistedState, sheet: &SpriteSheet) -> (r: WfcApp)
        requires
            sheet.wf(),
            sheet.width < TILE_SIZE || TILE_SIZE <= sheet.height,
        ensures
            r.wf(),
            r.label_view() == stored.label@,
            r.tile_count() == sheet.width / TILE_SIZE,
            forall|i: int|
                0 <= i < r.tile_count() ==> is_tile_of(
                    sheet.pixels@,
                    sheet.width as int,
                    TILE_SIZE as int,
                    i,
                    &#[trigger] r.tiles()[i],
                ),
            forall|i: int| 0 <= i < r.tile_count() ==> #[trigger] r.slots()[i] is None,
            r.selection_view() == revalidated(index_view(stored.tile_selection), r.tile_count()),
    {
        let textures = TextureCache::from_sheet(sheet, TILE_SIZE);
        let count = textures.len();
        let selection = SelectionState::restore(stored.tile_selection, count);
        WfcApp { label: stored.label, selection, textures }
    }

    /// Starts the palette from the encoded sprite sheet `sheet_bytes` and the
    /// state saved by an earlier run, if any. Fails with `Undecodable` where the
    /// codec cannot read the bytes and with `ShorterThanTile` where the sheet
    /// is at least one tile wide but less than `TILE_SIZE` pixels high. A sheet
    /// narrower than one tile gives a palette with no tiles.
    pub fn new(stored: Option<PersistedState>, sheet_bytes: &[u8]) -> (r: Result<WfcApp, DecodeError>)
        ensures
            decoded_rgb(sheet_bytes@) is None ==> r == Err::<WfcApp, DecodeError>(
                DecodeError::Undecodable,
            ),
            decoded_rgb(sheet_bytes@) matches Some((w, h, p)) ==> {
                &&& (w >= TILE_SIZE && h < TILE_SIZE) ==> r == Err::<WfcApp, DecodeError>(
                    DecodeError::ShorterThanTile,
                )
                &&& (w < TILE_SIZE || h >= TILE_SIZE) ==> r is Ok
            },
            r matches Ok(app) ==> {
                &&& decoded_rgb(sheet_bytes@) matches Some((w, h, p))
                &&& app.wf()
                &&& app.label_view() == (match stored {
                    Some(s) => s.label@,
                    None => default_label(),
                })
                &&& app.tile_count() == w / TILE_SIZE
                &&& forall|i: int|
                    0 <= i < app.tile_count() ==> is_tile_of(
                        p,
                        w as int,
                        TILE_SIZE as int,
                        i,
                        &#[trigger] app.tiles()[i],
                    )
                &&& forall|i: int| 0 <= i < app.tile_count() ==> #[trigger] app.slots()[i] is None
                &&& app.selection_view() == revalidated(
                    (match stored {
                        Some(s) => index_view(s.tile_selection),
                        None => None,
                    }),
                    app.tile_count(),
                )
            },
    {
        let sheet = match SpriteSheet::decode(sheet_bytes) {
            Ok(sheet) => sheet,
            Err(e) => {
                return Err(e);
            },
        };
        if sheet.width >= TILE_SIZE && sheet.height < TILE_SIZE {
            return Err(DecodeError::ShorterThanTile);
        }
        let state = match stored {
            Some(s) => s,
            None => PersistedState::initial(),
        };
        Ok(WfcApp::from_sheet(state, &sheet))
    }

    /// The state to save: the label, the selection and the tile count.
    pub fn persisted(&self) -> (r: PersistedState)
        requires
            self.wf(),
        ensures
            r.label@ == self.label_view(),
            index_view(r.tile_selection) == self.selection_view(),
            r.num_tiles == self.tile_count(),
    {
        PersistedState {
            label: self.label.clone(),
            tile_selection: self.selection.selected(),
            num_tiles: self.textures.len(),
        }
    }

    /// The label text.
    pub fn label(&self) -> (r: &str)
        ensures
            r@ == self.label_view(),
    {
        self.label.as_str()
    }

    /// The number of tiles.
    pub fn num_tiles(&self) -> (r: usize)
        requires
            self.wf(),
        ensures
            r == self.tile_count(),
    {
        self.textures.len()
    }

    /// The selected tile, if any.
    pub fn tile_selection(&self) -> (r: Option<usize>)
        ensures
            index_view(r) == self.selection_view(),
    {
        self.selection.selected()
    }

    /// Whether tile `index` is the selected one.
    pub fn is_selected(&self, index: usize) -> (r: bool)
        ensures
            r == (self.selection_view() == Some(index as nat)),
    {
        self.selection.is_selected(index)
    }

    /// Handles a click on the thumbnail of tile `index`.
    pub fn click(&mut self, index: usize)
        requires
            old(self).wf(),
            index < old(self).tile_count(),
        ensures
            final(self).wf(),
            final(self).selection_view() == toggled(old(self).selection_view(), index as nat),
            final(self).tiles() == old(self).tiles(),
            final(self).slots() == old(self).slots(),
            final(self).label_view() == old(self).label_view(),
    {
        self.selection.toggle(index);
    }

    /// The texture of tile `index`, uploaded through `ctx` the first time it
    /// is asked for and the same handle on every later call.
    pub fn texture(&mut self, ctx: &egui::Context, index: usize) -> (r: &egui::TextureHandle)
        requires
            old(self).wf(),
            index < old(self).tile_count(),
        ensures
            final(self).wf(),
            final(self).tiles() == old(self).tiles(),
            final(self).selection_view() == old(self).selection_view(),
            final(self).label_view() == old(self).label_view(),
            get_or_create_step(old(self).slots(), index as int, final(self).slots(), *r),
    {
        self.textures.get_or_create(ctx, index)
    }
}

/// Saving the state of `app` and loading it next to a sheet that yields the
/// same number of tiles gives back the selection of `app`; next to a sheet
/// with too few tiles to hold the saved index, it gives no selection.
pub proof fn persisted_selection_round_trip(app: &WfcApp, saved: PersistedState, loaded_count: nat)
    requires
        app.wf(),
        saved.label@ == app.label_view(),
        index_view(saved.tile_selection) == app.selection_view(),
        saved.num_tiles == app.tile_count(),
    ensures
        loaded_count == saved.num_tiles ==> revalidated(index_view(saved.tile_selection), loaded_count)
            == app.selection_view(),
        (saved.tile_selection matches Some(s) && loaded_count <= s) ==> revalidated(
            index_view(saved.tile_selection),
            loaded_count,
        ) is None,
{
}

} // verus!
