//! The cursor threaded through flattening.
use vstd::prelude::*;

verus! {

/// Counters kept across the shapes of a conversion: `index` counts the
/// shapes seen, `id` the features emitted, `line_index` the polyline parts
/// seen.
pub struct AppState {
    pub index: usize,
    pub id: u32,
    pub line_index: usize,
}

impl AppState {
    /// A cursor with every counter at zero.
    pub fn new() -> (r: Self)
        ensures
            r.index == 0,
            r.id == 0,
            r.line_index == 0,
    {
        AppState { index: 0, id: 0, line_index: 0 }
    }

    pub fn increment_index(&mut self)
        requires
            old(self).index < usize::MAX,
        ensures
            final(self).index == old(self).index + 1,
            final(self).id == old(self).id,
            final(self).line_index == old(self).line_index,
    {
        self.index += 1
    }

    pub fn increment_id(&mut self)
        requires
            old(self).id < u32::MAX,
        ensures
            final(self).id == old(self).id + 1,
            final(self).index == old(self).index,
            final(self).line_index == old(self).line_index,
    {
        self.id += 1
    }

    pub fn increment_line_index(&mut self)
        requires
            old(self).line_index < usize::MAX,
        ensures
            final(self).line_index == old(self).line_index + 1,
            final(self).index == old(self).index,
            final(self).id == old(self).id,
    {
        self.line_index += 1
    }
}

} // verus!
