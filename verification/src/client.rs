//! Per-participant view state: owned exclusively by one session, never
//! shared, so no lock guards it.

use vstd::prelude::*;

use crate::canvas::CanvasView;
use crate::drawing::{Color, Pen};

verus! {

/// One session's own state: its slot into the shared in-progress list,
/// assigned exactly once at first contact, and its pen palette.
pub struct PaintClientData {
    /// This participant's index into the shared in-progress list; `None`
    /// until first contact, then stable for the session's lifetime.
    pub id: Option<usize>,
    /// The participant's configurable pen choices; never empty.
    pub palette: Vec<Pen>,
    /// Index into `palette` of the currently selected pen.
    pub palette_select: usize,
}

/// The mathematical value of a session's view state.
pub struct ClientView {
    pub id: Option<usize>,
    pub palette: Seq<Pen>,
    pub palette_select: usize,
}

impl View for PaintClientData {
    type V = ClientView;

    open spec fn view(&self) -> ClientView {
        ClientView { id: self.id, palette: self.palette@, palette_select: self.palette_select }
    }
}

impl ClientView {
    /// The palette is never empty and the selection points into it.
    pub open spec fn wf(self) -> bool {
        &&& self.palette.len() >= 1
        &&& self.palette_select < self.palette.len()
    }

    /// The session's slot, if assigned, indexes an existing in-progress
    /// entry of `canvas`.
    pub open spec fn compatible(self, canvas: CanvasView) -> bool {
        match self.id {
            Some(slot) => slot < canvas.in_progress.len(),
            None => true,
        }
    }

    /// The currently selected pen.
    pub open spec fn selected_pen(self) -> Pen
        recommends
            self.wf(),
    {
        self.palette[self.palette_select as int]
    }
}

/// The palette a new participant starts with: one opaque white pen of
/// width one.
pub open spec fn spec_default_palette() -> Seq<Pen> {
    seq![Pen { color: Color { r: 255, g: 255, b: 255, a: 255 }, width: 1 }]
}

/// The view state a session is created with on first contact.
pub open spec fn spec_new_client() -> ClientView {
    ClientView { id: None, palette: spec_default_palette(), palette_select: 0 }
}

impl Default for PaintClientData {
    /// Fresh view state: unregistered, default palette, first pen selected.
    fn default() -> (c: PaintClientData)
        ensures
            c@ == spec_new_client(),
            c@.wf(),
    {
        let mut palette: Vec<Pen> = Vec::new();
        palette.push(Pen { color: Color { r: 255, g: 255, b: 255, a: 255 }, width: 1 });
        let c = PaintClientData { id: None, palette, palette_select: 0 };
        proof {
            assert(c@.palette =~= spec_default_palette());
        }
        c
    }
}

} // verus!
