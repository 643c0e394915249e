//! Which tiles have their label shown in the highlight colour.
//!
//! Each frame the overlay resets every label it highlighted before to the
//! plain colour and re-colours the label of the tile now under the cursor,
//! if there is one.  This module keeps the book of highlighted tiles and
//! decides, from the hovered tile, which labels to reset and which to
//! colour; painting them is the engine's work.

use vstd::prelude::*;

verus! {

/// The tiles whose labels are currently shown in the highlight colour.
pub struct HighlightState {
    highlighted: Vec<u64>,
}

impl View for HighlightState {
    type V = Seq<u64>;

    closed spec fn view(&self) -> Seq<u64> {
        self.highlighted@
    }
}

impl HighlightState {
    /// Before the first frame no label is highlighted.
    pub fn new() -> (s: Self)
        ensures
            s@ == Seq::<u64>::empty(),
    {
        HighlightState { highlighted: Vec::new() }
    }

    /// Moves the highlight to the hovered tile.  Every previously
    /// highlighted tile is handed back so its label can be reset to the
    /// plain colour; afterwards exactly the hovered tile, if any, is
    /// highlighted.
    pub fn retarget(&mut self, hovered: Option<u64>) -> (to_reset: Vec<u64>)
        ensures
            to_reset@ == old(self)@,
            final(self)@ == match hovered {
                Some(t) => seq![t],
                None => Seq::<u64>::empty(),
            },
    {
        let mut to_reset: Vec<u64> = Vec::new();
        core::mem::swap(&mut to_reset, &mut self.highlighted);
        match hovered {
            Some(t) => {
                self.highlighted.push(t);
                proof {
                    assert(self.highlighted@ =~= seq![t]);
                }
            },
            None => {},
        }
        to_reset
    }

    /// The tiles currently highlighted, oldest first.
    pub fn currently_highlighted(&self) -> (ts: Vec<u64>)
        ensures
            ts@ == self@,
    {
        self.highlighted.clone()
    }
}

} // verus!
