//! The shared canvas: the one piece of cross-session state.  All sessions
//! see the same completed drawings and the same set of in-progress slots;
//! the host mutates it under mutual exclusion, one logical operation at a
//! time.

use vstd::prelude::*;

use crate::drawing::{spec_empty_drawing, Drawing, DrawingView, Pen};
use crate::geom::Pos;

verus! {

/// Shared canvas state: completed drawings in insertion order, plus exactly
/// one in-progress drawing slot per registered participant.
pub struct PaintServerData {
    /// All completed drawings, insertion-ordered; the index is the display
    /// and deletion order.
    pub completed: Vec<Drawing>,
    /// Exactly one drawing per registered participant, indexed by the
    /// participant's slot.
    pub in_progress: Vec<Drawing>,
}

/// The mathematical value of the shared canvas.
pub struct CanvasView {
    pub completed: Seq<DrawingView>,
    pub in_progress: Seq<DrawingView>,
}

/// The values of a list of drawings.
pub open spec fn views(s: Seq<Drawing>) -> Seq<DrawingView> {
    s.map_values(|d: Drawing| d@)
}

impl View for PaintServerData {
    type V = CanvasView;

    open spec fn view(&self) -> CanvasView {
        CanvasView { completed: views(self.completed@), in_progress: views(self.in_progress@) }
    }
}

impl CanvasView {
    /// Every completed drawing has at least one point: a drawing reaches
    /// `completed` only by ending an active drag.
    pub open spec fn wf(self) -> bool {
        forall|i: int| 0 <= i < self.completed.len() ==> self.completed[i].points.len() >= 1
    }
}

impl PaintServerData {
    /// An empty canvas: no completed drawings, no registered participants.
    pub fn new() -> (s: PaintServerData)
        ensures
            s@.completed == Seq::<DrawingView>::empty(),
            s@.in_progress == Seq::<DrawingView>::empty(),
            s@.wf(),
    {
        let s = PaintServerData { completed: Vec::new(), in_progress: Vec::new() };
        proof {
            assert(s@.completed =~= Seq::<DrawingView>::empty());
            assert(s@.in_progress =~= Seq::<DrawingView>::empty());
        }
        s
    }

    /// Append a fresh empty in-progress slot and return its index: the
    /// registration step for a participant's first contact.
    pub fn register_slot(&mut self) -> (slot: usize)
        ensures
            slot == old(self)@.in_progress.len(),
            final(self)@.in_progress == old(self)@.in_progress.push(spec_empty_drawing()),
            final(self)@.completed == old(self)@.completed,
    {
        let slot = self.in_progress.len();
        self.in_progress.push(Drawing::empty());
        proof {
            assert(self@.in_progress =~= old(self)@.in_progress.push(spec_empty_drawing()));
            assert(self@.completed =~= old(self)@.completed);
        }
        slot
    }

    /// Delete the completed drawing at index `k`, shifting later entries
    /// down by one.  An index that is no longer present (the list shrank
    /// under a concurrent delete) is ignored rather than fatal.
    pub fn delete_completed(&mut self, k: usize)
        ensures
            k < old(self)@.completed.len() ==> final(self)@.completed == old(
                self,
            )@.completed.remove(k as int),
            k >= old(self)@.completed.len() ==> final(self)@.completed == old(self)@.completed,
            final(self)@.in_progress == old(self)@.in_progress,
            old(self)@.wf() ==> final(self)@.wf(),
    {
        if k < self.completed.len() {
            self.completed.remove(k);
            proof {
                assert(self@.completed =~= old(self)@.completed.remove(k as int));
                assert(self@.in_progress =~= old(self)@.in_progress);
            }
        } else {
            proof {
                assert(self@.completed =~= old(self)@.completed);
                assert(self@.in_progress =~= old(self)@.in_progress);
            }
        }
    }

    /// Restyle the completed drawing at index `k` with `pen`.  An index
    /// that is no longer present is ignored.
    pub fn edit_completed_pen(&mut self, k: usize, pen: Pen)
        ensures
            k < old(self)@.completed.len() ==> final(self)@.completed == old(
                self,
            )@.completed.update(
                k as int,
                DrawingView { pen, ..old(self)@.completed[k as int] },
            ),
            k >= old(self)@.completed.len() ==> final(self)@.completed == old(self)@.completed,
            final(self)@.in_progress == old(self)@.in_progress,
            old(self)@.wf() ==> final(self)@.wf(),
    {
        if k < self.completed.len() {
            let d = &mut self.completed[k];
            d.pen = pen;
            proof {
                assert(self@.completed =~= old(self)@.completed.update(
                    k as int,
                    DrawingView { pen, ..old(self)@.completed[k as int] },
                ));
                assert(self@.in_progress =~= old(self)@.in_progress);
            }
        } else {
            proof {
                assert(self@.completed =~= old(self)@.completed);
                assert(self@.in_progress =~= old(self)@.in_progress);
            }
        }
    }

    /// Restyle the in-progress drawing in `slot` with `pen`: the first half
    /// of handling an active drag.
    pub fn set_slot_pen(&mut self, slot: usize, pen: Pen)
        requires
            slot < old(self)@.in_progress.len(),
        ensures
            final(self)@.in_progress == old(self)@.in_progress.update(
                slot as int,
                DrawingView { pen, ..old(self)@.in_progress[slot as int] },
            ),
            final(self)@.completed == old(self)@.completed,
    {
        let d = &mut self.in_progress[slot];
        d.pen = pen;
        proof {
            assert(self@.in_progress =~= old(self)@.in_progress.update(
                slot as int,
                DrawingView { pen, ..old(self)@.in_progress[slot as int] },
            ));
            assert(self@.completed =~= old(self)@.completed);
        }
    }

    /// Append `pos` to the in-progress drawing in `slot`: the second half
    /// of handling an active drag with a known pointer position.
    pub fn push_slot_point(&mut self, slot: usize, pos: Pos)
        requires
            slot < old(self)@.in_progress.len(),
        ensures
            final(self)@.in_progress == old(self)@.in_progress.update(
                slot as int,
                DrawingView {
                    points: old(self)@.in_progress[slot as int].points.push(pos),
                    ..old(self)@.in_progress[slot as int]
                },
            ),
            final(self)@.completed == old(self)@.completed,
    {
        let d = &mut self.in_progress[slot];
        d.points.push(pos);
        proof {
            assert(self@.in_progress =~= old(self)@.in_progress.update(
                slot as int,
                DrawingView {
                    points: old(self)@.in_progress[slot as int].points.push(pos),
                    ..old(self)@.in_progress[slot as int]
                },
            ));
            assert(self@.completed =~= old(self)@.completed);
        }
    }

    /// End the drag in `slot`: move its drawing to `completed` and leave a
    /// fresh empty drawing in its place.  A slot with no points is left
    /// alone — a drag-stop with no prior drag-active is a no-op, never an
    /// empty completed entry.
    pub fn finish_slot(&mut self, slot: usize)
        requires
            slot < old(self)@.in_progress.len(),
        ensures
            old(self)@.in_progress[slot as int].points.len() >= 1 ==> {
                &&& final(self)@.completed == old(self)@.completed.push(
                    old(self)@.in_progress[slot as int],
                )
                &&& final(self)@.in_progress == old(self)@.in_progress.update(
                    slot as int,
                    spec_empty_drawing(),
                )
            },
            old(self)@.in_progress[slot as int].points.len() == 0 ==> {
                &&& final(self)@.completed == old(self)@.completed
                &&& final(self)@.in_progress == old(self)@.in_progress
            },
            old(self)@.wf() ==> final(self)@.wf(),
    {
        if self.in_progress[slot].points.len() >= 1 {
            let mut taken = Drawing::empty();
            let d = &mut self.in_progress[slot];
            core::mem::swap(d, &mut taken);
            self.completed.push(taken);
            proof {
                assert(self@.in_progress =~= old(self)@.in_progress.update(
                    slot as int,
                    spec_empty_drawing(),
                ));
                assert(self@.completed =~= old(self)@.completed.push(
                    old(self)@.in_progress[slot as int],
                ));
            }
        } else {
            proof {
                assert(self@.completed =~= old(self)@.completed);
                assert(self@.in_progress =~= old(self)@.in_progress);
            }
        }
    }
}

} // verus!
