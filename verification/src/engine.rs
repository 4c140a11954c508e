//! The canvas interaction engine: one session's tick against the shared
//! canvas, as a pure transition — registration, pen configuration,
//! management panel, canvas input, then emission of this tick's visual
//! primitives, in that order.

use vstd::prelude::*;

use crate::canvas::{CanvasView, PaintServerData};
use crate::client::{ClientView, PaintClientData};
use crate::drawing::{spec_empty_drawing, Drawing, DrawingView, Pen};
use crate::geom::{bounding_rect, bounds, Pos, Rect};

verus! {

/// A request to restyle one list entry with a new pen.
#[derive(Clone, Copy, Debug)]
pub struct PenEdit {
    pub index: usize,
    pub pen: Pen,
}

/// One tick's input to the side panel for one session.  Every action is
/// optional; a stale index (the shared list shrank under a concurrent
/// delete) is ignored rather than fatal.
#[derive(Clone, Copy, Debug)]
pub struct PanelInput {
    /// Restyle one pen of the session's own palette.
    pub palette_edit: Option<PenEdit>,
    /// Choose the palette entry used for subsequent strokes.
    pub palette_select: Option<usize>,
    /// The completed entry whose delete control is hovered this tick.
    pub hovered: Option<usize>,
    /// Restyle one completed drawing (shared state, last write wins).
    pub pen_edit: Option<PenEdit>,
    /// Delete one completed drawing by its current index.
    pub delete: Option<usize>,
}

impl PanelInput {
    /// A tick in which the session touches no panel control.
    pub fn idle() -> (p: PanelInput)
        ensures
            p.palette_edit is None,
            p.palette_select is None,
            p.hovered is None,
            p.pen_edit is None,
            p.delete is None,
    {
        PanelInput {
            palette_edit: None,
            palette_select: None,
            hovered: None,
            pen_edit: None,
            delete: None,
        }
    }
}

/// One tick's pointer signal for the session's canvas region.
#[derive(Clone, Copy, Debug)]
pub struct CanvasInput {
    /// A drag is currently active.
    pub drag_active: bool,
    /// The pointer position, when one is known this tick.
    pub pointer: Option<Pos>,
    /// The drag ended this tick.
    pub drag_stopped: bool,
}

/// A drawable primitive handed to the external rendering toolkit.
#[derive(Clone, Debug)]
pub enum Primitive {
    /// A stroke, drawn as a polyline with its pen.
    Polyline(Drawing),
    /// The transient hover highlight: a rectangle outline and its stroke.
    Highlight(Rect, Pen),
}

/// The mathematical value of a [`Primitive`].
pub enum PrimitiveView {
    Polyline(DrawingView),
    Highlight(Rect, Pen),
}

impl View for Primitive {
    type V = PrimitiveView;

    open spec fn view(&self) -> PrimitiveView {
        match self {
            Primitive::Polyline(d) => PrimitiveView::Polyline(d@),
            Primitive::Highlight(r, p) => PrimitiveView::Highlight(*r, *p),
        }
    }
}

/// The values of a primitive list.
pub open spec fn prim_views(s: Seq<Primitive>) -> Seq<PrimitiveView> {
    s.map_values(|pr: Primitive| pr@)
}

/// Each drawing of `s` as a polyline primitive, in order.
pub open spec fn polylines(s: Seq<DrawingView>) -> Seq<PrimitiveView> {
    s.map_values(|d: DrawingView| PrimitiveView::Polyline(d))
}

/// Step 1 — registration: a session seen for the first time is given the
/// next in-progress slot; a registered session is left alone.
pub open spec fn spec_register(c: ClientView, s: CanvasView) -> (ClientView, CanvasView) {
    match c.id {
        Some(_) => (c, s),
        None => (
            ClientView { id: Some(s.in_progress.len() as usize), ..c },
            CanvasView { in_progress: s.in_progress.push(spec_empty_drawing()), completed: s.completed },
        ),
    }
}

/// Step 2 — pen configuration: edits to the session-owned palette, then
/// the selection; out-of-range indices are ignored.
pub open spec fn spec_configure(c: ClientView, p: PanelInput) -> ClientView {
    let c1 = match p.palette_edit {
        Some(e) => if e.index < c.palette.len() {
            ClientView { palette: c.palette.update(e.index as int, e.pen), ..c }
        } else {
            c
        },
        None => c,
    };
    match p.palette_select {
        Some(i) => if i < c1.palette.len() {
            ClientView { palette_select: i, ..c1 }
        } else {
            c1
        },
        None => c1,
    }
}

/// The transient highlight of step 3: the hovered completed drawing's
/// bounding box, drawn with that drawing's own pen.
pub open spec fn spec_highlight(s: CanvasView, p: PanelInput) -> Option<(Rect, Pen)> {
    match p.hovered {
        Some(i) => if i < s.completed.len() && s.completed[i as int].points.len() >= 1 {
            Some((bounds(s.completed[i as int].points), s.completed[i as int].pen))
        } else {
            None
        },
        None => None,
    }
}

/// Step 3 — management panel effects on the shared list: restyle one
/// completed drawing, then delete one; stale indices are ignored.
pub open spec fn spec_manage(s: CanvasView, p: PanelInput) -> CanvasView {
    let s1 = match p.pen_edit {
        Some(e) => if e.index < s.completed.len() {
            CanvasView {
                completed: s.completed.update(
                    e.index as int,
                    DrawingView { pen: e.pen, ..s.completed[e.index as int] },
                ),
                in_progress: s.in_progress,
            }
        } else {
            s
        },
        None => s,
    };
    match p.delete {
        Some(k) => if k < s1.completed.len() {
            CanvasView { completed: s1.completed.remove(k as int), in_progress: s1.in_progress }
        } else {
            s1
        },
        None => s1,
    }
}

/// Step 4 — canvas input: an active drag restyles the session's slot with
/// the selected pen and appends the pointer position; a drag-stop moves a
/// non-empty slot to `completed` and clears it.  A drag-stop on an empty
/// slot is a no-op — never an empty completed entry.
pub open spec fn spec_stroke(slot: int, sel: Pen, s: CanvasView, inp: CanvasInput) -> CanvasView
    recommends
        0 <= slot < s.in_progress.len(),
{
    let s1 = if inp.drag_active {
        let d0 = s.in_progress[slot];
        let d1 = DrawingView {
            pen: sel,
            points: match inp.pointer {
                Some(q) => d0.points.push(q),
                None => d0.points,
            },
        };
        CanvasView { completed: s.completed, in_progress: s.in_progress.update(slot, d1) }
    } else {
        s
    };
    if inp.drag_stopped {
        let d = s1.in_progress[slot];
        if d.points.len() >= 1 {
            CanvasView {
                completed: s1.completed.push(d),
                in_progress: s1.in_progress.update(slot, spec_empty_drawing()),
            }
        } else {
            s1
        }
    } else {
        s1
    }
}

/// Step 5 — emission: every completed drawing first (beneath), then every
/// in-progress stroke (all sessions see all other sessions drawing live),
/// then the optional hover highlight, topmost.
pub open spec fn spec_emit(s: CanvasView, hl: Option<(Rect, Pen)>) -> Seq<PrimitiveView> {
    let base = polylines(s.completed) + polylines(s.in_progress);
    match hl {
        Some(h) => base.push(PrimitiveView::Highlight(h.0, h.1)),
        None => base,
    }
}

/// One session's whole tick: the composition of the five steps, in the
/// one order that keeps the highlight and the canvas in agreement within
/// a tick.
pub open spec fn spec_paint(c: ClientView, s: CanvasView, panel: PanelInput, inp: CanvasInput)
    -> (ClientView, CanvasView, Seq<PrimitiveView>) {
    let (c1, s1) = spec_register(c, s);
    let c2 = spec_configure(c1, panel);
    let hl = spec_highlight(s1, panel);
    let s2 = spec_manage(s1, panel);
    let s3 = match c1.id {
        Some(slot) => spec_stroke(slot as int, c2.selected_pen(), s2, inp),
        None => s2,
    };
    (c2, s3, spec_emit(s3, hl))
}

/// Emit this tick's primitives for one session: the canvas as it stands,
/// with the session's transient hover highlight on top.
pub fn emit_primitives(server: &PaintServerData, hl: Option<(Rect, Pen)>) -> (out: Vec<
    Primitive,
>)
    ensures
        prim_views(out@) == spec_emit(server@, hl),
{
    let mut out: Vec<Primitive> = Vec::new();
    let mut i: usize = 0;
    proof {
        assert(prim_views(out@) =~= polylines(server@.completed.take(0)));
    }
    while i < server.completed.len()
        invariant
            i <= server@.completed.len(),
            server@.completed.len() == server.completed@.len(),
            prim_views(out@) == polylines(server@.completed.take(i as int)),
        decreases server@.completed.len() - i,
    {
        let d = server.completed[i].duplicate();
        proof {
            let t = server@.completed;
            assert(d@ == t[i as int]);
            assert(t.take(i as int + 1) =~= t.take(i as int).push(t[i as int]));
            assert(prim_views(out@.push(Primitive::Polyline(d))) =~= prim_views(out@).push(
                PrimitiveView::Polyline(d@),
            ));
            assert(polylines(t.take(i as int).push(t[i as int])) =~= polylines(
                t.take(i as int),
            ).push(PrimitiveView::Polyline(t[i as int])));
        }
        out.push(Primitive::Polyline(d));
        i = i + 1;
    }
    proof {
        assert(server@.completed.take(server@.completed.len() as int) =~= server@.completed);
    }
    let mut j: usize = 0;
    proof {
        assert(prim_views(out@) =~= polylines(server@.completed) + polylines(
            server@.in_progress.take(0),
        ));
    }
    while j < server.in_progress.len()
        invariant
            j <= server@.in_progress.len(),
            server@.in_progress.len() == server.in_progress@.len(),
            prim_views(out@) == polylines(server@.completed) + polylines(
                server@.in_progress.take(j as int),
            ),
        decreases server@.in_progress.len() - j,
    {
        let d = server.in_progress[j].duplicate();
        proof {
            let t = server@.completed;
            let u = server@.in_progress;
            assert(d@ == u[j as int]);
            assert(u.take(j as int + 1) =~= u.take(j as int).push(u[j as int]));
            assert(prim_views(out@.push(Primitive::Polyline(d))) =~= prim_views(out@).push(
                PrimitiveView::Polyline(d@),
            ));
            assert(polylines(u.take(j as int).push(u[j as int])) =~= polylines(
                u.take(j as int),
            ).push(PrimitiveView::Polyline(u[j as int])));
            assert((polylines(t) + polylines(u.take(j as int))).push(
                PrimitiveView::Polyline(u[j as int]),
            ) =~= polylines(t) + polylines(u.take(j as int)).push(
                PrimitiveView::Polyline(u[j as int]),
            ));
        }
        out.push(Primitive::Polyline(d));
        j = j + 1;
    }
    proof {
        assert(server@.in_progress.take(server@.in_progress.len() as int)
            =~= server@.in_progress);
    }
    match hl {
        Some(h) => {
            proof {
                assert(prim_views(out@.push(Primitive::Highlight(h.0, h.1))) =~= prim_views(out@)
                    .push(PrimitiveView::Highlight(h.0, h.1)));
            }
            out.push(Primitive::Highlight(h.0, h.1));
        },
        None => {},
    }
    out
}

/// One session's tick: registration, palette configuration, management
/// panel, canvas input, emission — the whole canvas interaction, as
/// one verified transition on the session's own state and the shared
/// canvas.
pub fn paint(
    client: &mut PaintClientData,
    server: &mut PaintServerData,
    panel: &PanelInput,
    input: &CanvasInput,
) -> (out: Vec<Primitive>)
    requires
        old(client)@.wf(),
        old(client)@.compatible(old(server)@),
        old(server)@.wf(),
    ensures
        ({
            let (c2, s3, prims) = spec_paint(old(client)@, old(server)@, *panel, *input);
            &&& final(client)@ == c2
            &&& final(server)@ == s3
            &&& prim_views(out@) == prims
        }),
        final(client)@.wf(),
        final(client)@.compatible(final(server)@),
        final(server)@.wf(),
        final(client)@.id is Some,
        old(client)@.id is Some ==> final(client)@.id == old(client)@.id,
        final(server)@.in_progress.len() >= old(server)@.in_progress.len(),
{
    let ghost c0 = old(client)@;
    let ghost s0 = old(server)@;

    // Step 1: registration on first contact.
    let slot: usize = match client.id {
        Some(s) => s,
        None => {
            let s = server.register_slot();
            client.id = Some(s);
            s
        },
    };
    let ghost c1 = client@;
    let ghost s1 = server@;
    proof {
        assert((c1, s1) == spec_register(c0, s0));
        assert(slot < s1.in_progress.len());
        assert(s1.completed == s0.completed);
        assert(s1.wf());
    }

    // Step 2: pen configuration, on session-owned state only.
    if let Some(e) = panel.palette_edit {
        if e.index < client.palette.len() {
            client.palette[e.index] = e.pen;
        }
    }
    if let Some(i) = panel.palette_select {
        if i < client.palette.len() {
            client.palette_select = i;
        }
    }
    let ghost c2 = client@;
    proof {
        assert(c2 == spec_configure(c1, *panel));
        assert(c2.wf());
        assert(c2.id == c1.id);
    }

    // Step 3: management panel.  The hover highlight is computed from the
    // list as it stands this tick, before the restyle and the delete.
    let hl: Option<(Rect, Pen)> = match panel.hovered {
        Some(i) => {
            if i < server.completed.len() {
                proof {
                    assert(server@.completed[i as int].points.len() >= 1);
                }
                let d = &server.completed[i];
                proof {
                    assert(d@ == server@.completed[i as int]);
                }
                Some((bounding_rect(&d.points), d.pen))
            } else {
                None
            }
        },
        None => None,
    };
    proof {
        assert(hl == spec_highlight(s1, *panel));
    }
    if let Some(e) = panel.pen_edit {
        server.edit_completed_pen(e.index, e.pen);
    }
    if let Some(k) = panel.delete {
        server.delete_completed(k);
    }
    let ghost s2 = server@;
    proof {
        assert(s2 == spec_manage(s1, *panel));
        assert(s2.wf());
        assert(s2.in_progress == s1.in_progress);
    }

    // Step 4: canvas input for this session's slot.
    if input.drag_active {
        let pen = client.palette[client.palette_select];
        proof {
            assert(pen == c2.selected_pen());
        }
        server.set_slot_pen(slot, pen);
        if let Some(q) = input.pointer {
            server.push_slot_point(slot, q);
        }
        proof {
            let d0 = s2.in_progress[slot as int];
            let d1 = DrawingView {
                pen: c2.selected_pen(),
                points: match input.pointer {
                    Some(q) => d0.points.push(q),
                    None => d0.points,
                },
            };
            assert(server@.in_progress =~= s2.in_progress.update(slot as int, d1));
            assert(server@.completed == s2.completed);
        }
    }
    if input.drag_stopped {
        server.finish_slot(slot);
    }
    let ghost s3 = server@;
    proof {
        assert(s3 == spec_stroke(slot as int, c2.selected_pen(), s2, *input));
        assert(s3.wf());
    }

    // Step 5: emission.
    let out = emit_primitives(server, hl);
    proof {
        assert(prim_views(out@) == spec_emit(s3, spec_highlight(s1, *panel)));
        assert((c2, s3, spec_emit(s3, spec_highlight(s1, *panel))) == spec_paint(
            c0,
            s0,
            *panel,
            *input,
        ));
    }
    out
}

/// Law: slot stability — once a session's slot is assigned, any further
/// tick leaves it unchanged, whatever the inputs.
pub proof fn lemma_slot_stable(
    c: ClientView,
    s: CanvasView,
    panel: PanelInput,
    inp: CanvasInput,
)
    requires
        c.id is Some,
    ensures
        spec_paint(c, s, panel, inp).0.id == c.id,
{
}

/// Law: idempotent registration — the registration step maps a registered
/// session to itself, so applying it twice in one tick is the same as
/// applying it once: no second slot is appended.
pub proof fn lemma_register_idempotent(c: ClientView, s: CanvasView)
    ensures
        spec_register(spec_register(c, s).0, spec_register(c, s).1) == spec_register(c, s),
{
}

/// Law: cross-session visibility — every completed drawing appears in the
/// emission at its own index, whichever session's tick computes it, as
/// long as that tick itself neither deletes nor restyles it.  In
/// particular, a drawing one session completes is in the output of every
/// other session's very next tick.
pub proof fn lemma_cross_session_visibility(
    c: ClientView,
    s: CanvasView,
    panel: PanelInput,
    inp: CanvasInput,
    k: int,
)
    requires
        c.wf(),
        c.compatible(s),
        s.wf(),
        panel.delete is None,
        panel.pen_edit is None,
        0 <= k < s.completed.len(),
    ensures
        spec_paint(c, s, panel, inp).2[k] == PrimitiveView::Polyline(s.completed[k]),
{
    let (c1, s1) = spec_register(c, s);
    let c2 = spec_configure(c1, panel);
    let s2 = spec_manage(s1, panel);
    assert(s2.completed == s.completed);
    let s3 = match c1.id {
        Some(slot) => spec_stroke(slot as int, c2.selected_pen(), s2, inp),
        None => s2,
    };
    assert(s3.completed =~= s.completed || s3.completed =~= s.completed.push(
        s3.completed.last(),
    ));
    assert(s3.completed[k] == s.completed[k]);
    assert(spec_emit(s3, spec_highlight(s1, panel))[k] == polylines(s3.completed)[k]);
}

/// Law: drag lifecycle — from a registered session whose slot is empty,
/// the input sequence drag-active at `p`, drag-active at `q`, drag-stop
/// leaves the slot empty again and appends to `completed` exactly one
/// drawing, with points `[p, q]` and the pen selected when the stroke
/// began.
pub proof fn lemma_drag_lifecycle(c: ClientView, s: CanvasView, slot: usize, p: Pos, q: Pos)
    requires
        c.wf(),
        s.wf(),
        c.id == Some(slot),
        (slot as int) < s.in_progress.len(),
        s.in_progress[slot as int].points.len() == 0,
    ensures
        ({
            let idle = (PanelInput {
                palette_edit: None,
                palette_select: None,
                hovered: None,
                pen_edit: None,
                delete: None,
            });
            let active1 = (CanvasInput { drag_active: true, pointer: Some(p), drag_stopped: false });
            let active2 = (CanvasInput { drag_active: true, pointer: Some(q), drag_stopped: false });
            let stop = (CanvasInput { drag_active: false, pointer: None, drag_stopped: true });
            let (ca, sa, _) = spec_paint(c, s, idle, active1);
            let (cb, sb, _) = spec_paint(ca, sa, idle, active2);
            let (cc, sc, _) = spec_paint(cb, sb, idle, stop);
            &&& sc.in_progress == s.in_progress.update(slot as int, spec_empty_drawing())
            &&& sc.completed == s.completed.push(
                DrawingView { points: seq![p, q], pen: c.selected_pen() },
            )
        }),
{
    let idle = (PanelInput {
        palette_edit: None,
        palette_select: None,
        hovered: None,
        pen_edit: None,
        delete: None,
    });
    let active1 = (CanvasInput { drag_active: true, pointer: Some(p), drag_stopped: false });
    let active2 = (CanvasInput { drag_active: true, pointer: Some(q), drag_stopped: false });
    let stop = (CanvasInput { drag_active: false, pointer: None, drag_stopped: true });
    let (ca, sa, _) = spec_paint(c, s, idle, active1);
    assert(ca == c);
    let d1 = DrawingView { pen: c.selected_pen(), points: s.in_progress[slot as int].points.push(p) };
    assert(sa.in_progress =~= s.in_progress.update(slot as int, d1));
    assert(sa.completed == s.completed);
    let (cb, sb, _) = spec_paint(ca, sa, idle, active2);
    assert(cb == c);
    let d2 = DrawingView { pen: c.selected_pen(), points: d1.points.push(q) };
    assert(sb.in_progress =~= s.in_progress.update(slot as int, d2));
    assert(sb.completed == s.completed);
    let (cc, sc, _) = spec_paint(cb, sb, idle, stop);
    assert(d2.points =~= seq![p, q]);
    assert(sc.completed =~= s.completed.push(
        DrawingView { points: seq![p, q], pen: c.selected_pen() },
    ));
    assert(sc.in_progress =~= s.in_progress.update(slot as int, spec_empty_drawing()));
}

} // verus!

