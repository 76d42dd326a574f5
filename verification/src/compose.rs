//! The compositor: maps every heat cell through the palette to the flat
//! frame buffer of packed pixels, fully overwriting it each frame.

use vstd::prelude::*;
use crate::heat::HeatField;

verus! {

/// The composited frame: pixel `k` is the palette entry selected by heat
/// cell `k`.
pub open spec fn composited(cells: Seq<u8>, palette: Seq<u32>) -> Seq<u32> {
    Seq::new(cells.len(), |k: int| palette[cells[k] as int])
}

/// Overwrite `frame` with one pixel per heat cell, each intensity looked
/// up in the palette; whatever the buffer held before is discarded.
pub fn composite(field: &HeatField, palette: &Vec<u32>, frame: &mut Vec<u32>)
    requires
        field.wf(),
        palette@.len() == 256,
    ensures
        final(frame)@ == composited(field.cells@, palette@),
{
    frame.clear();
    let n = field.cells.len();
    let mut k: usize = 0;
    while k < n
        invariant
            n == field.cells@.len(),
            palette@.len() == 256,
            k <= n,
            frame@.len() == k,
            forall|j: int| 0 <= j < k ==> frame@[j] == palette@[field.cells@[j] as int],
        decreases n - k,
    {
        let heat = field.cells[k];
        frame.push(palette[heat as usize]);
        k = k + 1;
    }
    proof {
        assert(frame@ =~= composited(field.cells@, palette@));
    }
}

} // verus!
