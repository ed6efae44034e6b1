//! Single-tile selection with toggle semantics.
use vstd::prelude::*;

verus! {

/// The selection after clicking tile `index` while `current` is selected.
pub open spec fn toggled(current: Option<nat>, index: nat) -> Option<nat> {
    match current {
        Some(s) if s == index => None,
        _ => Some(index),
    }
}

/// The selection kept when state saved with `stored` is loaded next to a sheet
/// of `tile_count` tiles: an index past the end is dropped.
pub open spec fn revalidated(stored: Option<nat>, tile_count: nat) -> Option<nat> {
    match stored {
        Some(s) if s < tile_count => Some(s),
        _ => None,
    }
}

/// The ghost view of an optional tile index.
pub open spec fn index_view(o: Option<usize>) -> Option<nat> {
    match o {
        Some(s) => Some(s as nat),
        None => None,
    }
}

/// At most one selected tile. Clicking the selected tile clears the selection;
/// clicking any other tile replaces it.
pub struct SelectionState {
    pub current: Option<usize>,
}

impl View for SelectionState {
    type V = Option<nat>;

    open spec fn view(&self) -> Option<nat> {
        index_view(self.current)
    }
}

impl SelectionState {
    /// Nothing selected.
    pub fn new() -> (r: SelectionState)
        ensures
            r@ == None::<nat>,
    {
        SelectionState { current: None }
    }

    /// Restores a persisted selection, discarding an index that does not fit a
    /// sheet of `tile_count` tiles.
    pub fn restore(stored: Option<usize>, tile_count: usize) -> (r: SelectionState)
        ensures
            r@ == revalidated(index_view(stored), tile_count as nat),
    {
        match stored {
            Some(s) => {
                if s < tile_count {
                    SelectionState { current: Some(s) }
                } else {
                    SelectionState { current: None }
                }
            },
            None => SelectionState { current: None },
        }
    }

    /// The selected tile, if any.
    pub fn selected(&self) -> (r: Option<usize>)
        ensures
            index_view(r) == self@,
            r == self.current,
    {
        self.current
    }

    /// Whether tile `index` is the selected one.
    pub fn is_selected(&self, index: usize) -> (r: bool)
        ensures
            r == (self@ == Some(index as nat)),
    {
        match self.current {
            Some(s) => s == index,
            None => false,
        }
    }

    /// Handles a click on tile `index`.
    pub fn toggle(&mut self, index: usize)
        ensures
            final(self)@ == toggled(old(self)@, index as nat),
    {
        let next = match self.current {
            Some(s) => {
                if s == index {
                    None
                } else {
                    Some(index)
                }
            },
            None => Some(index),
        };
        self.current = next;
    }
}

/// Clicking the same tile twice starting from no selection leaves nothing
/// selected.
pub proof fn toggle_twice_from_none(index: nat)
    ensures
        toggled(toggled(None, index), index) == None::<nat>,
{
}

/// Clicking tile `a` and then a different tile `b` leaves exactly `b` selected,
/// whatever was selected before.
pub proof fn toggle_distinct_selects_last(current: Option<nat>, a: nat, b: nat)
    requires
        a != b,
    ensures
        toggled(toggled(current, a), b) == Some(b),
{
}

} // verus!
