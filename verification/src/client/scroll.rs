//! Scroll positions of the normal and the alternate screen.

use vstd::prelude::*;

verus! {

/// How far each screen is scrolled back into its history.
#[derive(Clone, Copy, Debug)]
pub struct ScrollState {
    /// The normal screen's offset, saved while the alternate screen is active.
    pub saved_normal_offset_for_alt: Option<usize>,
    /// Offset of the normal screen (0 = at the bottom).
    pub normal_offset: usize,
    /// Offset of the alternate screen.
    pub alternate_offset: usize,
}

/// The offset of one of the two screens.
pub open spec fn offset_of(scroll: ScrollState, alternate: bool) -> usize {
    if alternate {
        scroll.alternate_offset
    } else {
        scroll.normal_offset
    }
}

/// The scroll state with the offset of one of the two screens replaced.
pub open spec fn with_offset(scroll: ScrollState, alternate: bool, offset: usize) -> ScrollState {
    if alternate {
        ScrollState { alternate_offset: offset, ..scroll }
    } else {
        ScrollState { normal_offset: offset, ..scroll }
    }
}

/// The scroll state after output has been processed, given which screen was
/// active before and after it: entering the alternate screen saves the normal
/// screen's offset, and leaving it brings a saved offset back.
pub open spec fn after_output(scroll: ScrollState, before: bool, after: bool) -> ScrollState {
    if !before && after {
        ScrollState { saved_normal_offset_for_alt: Some(scroll.normal_offset), ..scroll }
    } else if before && !after {
        match scroll.saved_normal_offset_for_alt {
            Some(saved) => ScrollState {
                saved_normal_offset_for_alt: None,
                normal_offset: saved,
                ..scroll
            },
            None => scroll,
        }
    } else {
        scroll
    }
}

impl ScrollState {
    /// Both screens at the bottom.
    pub fn new() -> (state: Self)
        ensures
            state == (ScrollState {
                saved_normal_offset_for_alt: None,
                normal_offset: 0,
                alternate_offset: 0,
            }),
    {
        ScrollState { saved_normal_offset_for_alt: None, normal_offset: 0, alternate_offset: 0 }
    }

    /// The offset of the alternate or the normal screen.
    pub fn offset(&self, alternate: bool) -> (offset: usize)
        ensures
            offset == offset_of(*self, alternate),
    {
        if alternate {
            self.alternate_offset
        } else {
            self.normal_offset
        }
    }

    /// Sets the offset of the alternate or the normal screen.
    pub fn set_offset(&mut self, alternate: bool, offset: usize)
        ensures
            *final(self) == with_offset(*old(self), alternate, offset),
    {
        if alternate {
            self.alternate_offset = offset;
        } else {
            self.normal_offset = offset;
        }
    }
}

/// What is set is read back, and the other screen keeps its offset.
pub proof fn lemma_offset_is_read_back(scroll: ScrollState, alternate: bool, offset: usize)
    ensures
        offset_of(with_offset(scroll, alternate, offset), alternate) == offset,
        offset_of(with_offset(scroll, alternate, offset), !alternate) == offset_of(
            scroll,
            !alternate,
        ),
{
}

/// A visit to the alternate screen leaves the normal screen where it was,
/// whatever offset the alternate screen is given meanwhile.
pub proof fn lemma_alternate_screen_visit_keeps_normal_offset(scroll: ScrollState, meanwhile: usize)
    ensures
        ({
            let entered = after_output(scroll, false, true);
            let scrolled = with_offset(entered, true, meanwhile);
            let left = after_output(scrolled, true, false);
            left.normal_offset == scroll.normal_offset && left.saved_normal_offset_for_alt is None
        }),
{
}

/// Output that stays on one screen scrolls neither of them, and none that
/// changes the screen scrolls the alternate one or, on the way there, the
/// normal one.
pub proof fn lemma_output_does_not_scroll(scroll: ScrollState, before: bool, after: bool)
    ensures
        after_output(scroll, before, before) == scroll,
        after_output(scroll, before, after).alternate_offset == scroll.alternate_offset,
        after ==> after_output(scroll, before, after).normal_offset == scroll.normal_offset,
        scroll.saved_normal_offset_for_alt is None ==> after_output(scroll, true, false) == scroll,
{
}

} // verus!
