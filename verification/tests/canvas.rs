use canvas_host::canvas::PaintServerData;
use canvas_host::client::PaintClientData;
use canvas_host::drawing::{Color, Drawing, Pen};
use canvas_host::engine::{paint, CanvasInput, PanelInput, PenEdit, Primitive};
use canvas_host::geom::Pos;

fn idle_canvas() -> CanvasInput {
    CanvasInput { drag_active: false, pointer: None, drag_stopped: false }
}

fn drag_at(x: i32, y: i32) -> CanvasInput {
    CanvasInput { drag_active: true, pointer: Some(Pos { x, y }), drag_stopped: false }
}

fn drag_stop() -> CanvasInput {
    CanvasInput { drag_active: false, pointer: None, drag_stopped: true }
}

fn red() -> Pen {
    Pen { color: Color { r: 255, g: 0, b: 0, a: 255 }, width: 3 }
}

#[test]
fn registration_assigns_first_slot() {
    let mut server = PaintServerData::new();
    let mut client = PaintClientData::default();
    let out = paint(&mut client, &mut server, &PanelInput::idle(), &idle_canvas());
    assert_eq!(client.id, Some(0));
    assert_eq!(server.in_progress.len(), 1);
    assert_eq!(server.in_progress[0].points.len(), 0);
    assert_eq!(server.completed.len(), 0);
    // one empty in-progress polyline is still emitted
    assert_eq!(out.len(), 1);
}

#[test]
fn registration_is_idempotent_across_ticks() {
    let mut server = PaintServerData::new();
    let mut client = PaintClientData::default();
    paint(&mut client, &mut server, &PanelInput::idle(), &idle_canvas());
    paint(&mut client, &mut server, &PanelInput::idle(), &idle_canvas());
    paint(&mut client, &mut server, &PanelInput::idle(), &idle_canvas());
    assert_eq!(client.id, Some(0));
    assert_eq!(server.in_progress.len(), 1);
}

#[test]
fn two_sessions_get_distinct_slots() {
    let mut server = PaintServerData::new();
    let mut a = PaintClientData::default();
    let mut b = PaintClientData::default();
    paint(&mut a, &mut server, &PanelInput::idle(), &idle_canvas());
    paint(&mut b, &mut server, &PanelInput::idle(), &idle_canvas());
    assert_eq!(a.id, Some(0));
    assert_eq!(b.id, Some(1));
    assert_eq!(server.in_progress.len(), 2);
}

#[test]
fn drag_lifecycle_moves_one_drawing_to_completed() {
    let mut server = PaintServerData::new();
    let mut client = PaintClientData::default();
    let idle = PanelInput::idle();
    paint(&mut client, &mut server, &idle, &drag_at(0, 0));
    paint(&mut client, &mut server, &idle, &drag_at(10, 10));
    paint(&mut client, &mut server, &idle, &drag_stop());
    assert_eq!(server.completed.len(), 1);
    assert_eq!(server.completed[0].points, vec![Pos { x: 0, y: 0 }, Pos { x: 10, y: 10 }]);
    // the pen selected at the time of the drag: the default palette's
    // white pen of width one
    assert_eq!(
        server.completed[0].pen,
        Pen { color: Color { r: 255, g: 255, b: 255, a: 255 }, width: 1 }
    );
    // the slot is reset to an empty drawing
    assert_eq!(server.in_progress.len(), 1);
    assert_eq!(server.in_progress[0].points.len(), 0);
}

#[test]
fn drag_stop_without_drag_is_a_no_op() {
    let mut server = PaintServerData::new();
    let mut client = PaintClientData::default();
    paint(&mut client, &mut server, &PanelInput::idle(), &drag_stop());
    // no empty drawing ever reaches `completed`
    assert_eq!(server.completed.len(), 0);
    assert_eq!(server.in_progress.len(), 1);
}

#[test]
fn completed_entries_are_never_empty() {
    let mut server = PaintServerData::new();
    let mut client = PaintClientData::default();
    let idle = PanelInput::idle();
    paint(&mut client, &mut server, &idle, &drag_stop());
    paint(&mut client, &mut server, &idle, &drag_at(1, 1));
    paint(&mut client, &mut server, &idle, &drag_stop());
    paint(&mut client, &mut server, &idle, &drag_stop());
    for d in &server.completed {
        assert!(d.points.len() >= 1);
    }
    assert_eq!(server.completed.len(), 1);
}

#[test]
fn drag_without_pointer_sets_pen_but_adds_no_point() {
    let mut server = PaintServerData::new();
    let mut client = PaintClientData::default();
    let active_blind = CanvasInput { drag_active: true, pointer: None, drag_stopped: false };
    paint(&mut client, &mut server, &PanelInput::idle(), &active_blind);
    assert_eq!(server.in_progress[0].points.len(), 0);
    assert_eq!(
        server.in_progress[0].pen,
        Pen { color: Color { r: 255, g: 255, b: 255, a: 255 }, width: 1 }
    );
}

#[test]
fn deletion_shifts_indices() {
    let mut server = PaintServerData::new();
    let mut client = PaintClientData::default();
    let idle = PanelInput::idle();
    for i in 0..4 {
        paint(&mut client, &mut server, &idle, &drag_at(i, i));
        paint(&mut client, &mut server, &idle, &drag_stop());
    }
    assert_eq!(server.completed.len(), 4);
    let delete_1 = PanelInput { delete: Some(1), ..PanelInput::idle() };
    paint(&mut client, &mut server, &delete_1, &idle_canvas());
    assert_eq!(server.completed.len(), 3);
    // the former element at index 2 is now at index 1
    assert_eq!(server.completed[1].points, vec![Pos { x: 2, y: 2 }]);
    assert_eq!(server.completed[0].points, vec![Pos { x: 0, y: 0 }]);
    assert_eq!(server.completed[2].points, vec![Pos { x: 3, y: 3 }]);
}

#[test]
fn stale_delete_index_is_ignored() {
    let mut server = PaintServerData::new();
    let mut client = PaintClientData::default();
    let idle = PanelInput::idle();
    paint(&mut client, &mut server, &idle, &drag_at(5, 5));
    paint(&mut client, &mut server, &idle, &drag_stop());
    let delete_7 = PanelInput { delete: Some(7), ..PanelInput::idle() };
    paint(&mut client, &mut server, &delete_7, &idle_canvas());
    assert_eq!(server.completed.len(), 1);
}

#[test]
fn pen_edit_of_completed_drawing_is_shared() {
    let mut server = PaintServerData::new();
    let mut a = PaintClientData::default();
    let mut b = PaintClientData::default();
    let idle = PanelInput::idle();
    paint(&mut a, &mut server, &idle, &drag_at(5, 5));
    paint(&mut a, &mut server, &idle, &drag_stop());
    // session B restyles A's completed drawing
    let edit = PanelInput {
        pen_edit: Some(PenEdit { index: 0, pen: red() }),
        ..PanelInput::idle()
    };
    paint(&mut b, &mut server, &edit, &idle_canvas());
    assert_eq!(server.completed[0].pen, red());
    // the points are untouched
    assert_eq!(server.completed[0].points, vec![Pos { x: 5, y: 5 }]);
}

#[test]
fn stale_pen_edit_index_is_ignored() {
    let mut server = PaintServerData::new();
    let mut client = PaintClientData::default();
    let edit = PanelInput {
        pen_edit: Some(PenEdit { index: 3, pen: red() }),
        ..PanelInput::idle()
    };
    paint(&mut client, &mut server, &edit, &idle_canvas());
    assert_eq!(server.completed.len(), 0);
}

#[test]
fn palette_edit_changes_later_strokes() {
    let mut server = PaintServerData::new();
    let mut client = PaintClientData::default();
    let edit = PanelInput {
        palette_edit: Some(PenEdit { index: 0, pen: red() }),
        ..PanelInput::idle()
    };
    paint(&mut client, &mut server, &edit, &idle_canvas());
    assert_eq!(client.palette[0], red());
    let idle = PanelInput::idle();
    paint(&mut client, &mut server, &idle, &drag_at(2, 3));
    paint(&mut client, &mut server, &idle, &drag_stop());
    assert_eq!(server.completed[0].pen, red());
}

#[test]
fn out_of_range_palette_select_is_ignored() {
    let mut server = PaintServerData::new();
    let mut client = PaintClientData::default();
    let select = PanelInput { palette_select: Some(9), ..PanelInput::idle() };
    paint(&mut client, &mut server, &select, &idle_canvas());
    assert_eq!(client.palette_select, 0);
}

#[test]
fn cross_session_visibility_on_next_tick() {
    let mut server = PaintServerData::new();
    let mut a = PaintClientData::default();
    let mut b = PaintClientData::default();
    let idle = PanelInput::idle();
    paint(&mut b, &mut server, &idle, &idle_canvas());
    // session A completes a drawing
    paint(&mut a, &mut server, &idle, &drag_at(7, 8));
    paint(&mut a, &mut server, &idle, &drag_stop());
    // session B's very next tick emits it, first, as a polyline
    let out = paint(&mut b, &mut server, &idle, &idle_canvas());
    match &out[0] {
        Primitive::Polyline(d) => {
            assert_eq!(d.points, vec![Pos { x: 7, y: 8 }]);
        }
        other => panic!("expected a polyline first, got {:?}", other),
    }
}

#[test]
fn emission_orders_completed_then_in_progress_then_highlight() {
    let mut server = PaintServerData::new();
    let mut client = PaintClientData::default();
    let idle = PanelInput::idle();
    paint(&mut client, &mut server, &idle, &drag_at(0, 0));
    paint(&mut client, &mut server, &idle, &drag_stop());
    // leave a partial stroke in progress and hover the completed entry
    paint(&mut client, &mut server, &idle, &drag_at(4, 4));
    let hover = PanelInput { hovered: Some(0), ..PanelInput::idle() };
    let out = paint(&mut client, &mut server, &hover, &drag_at(6, 6));
    assert_eq!(out.len(), 3);
    match &out[0] {
        Primitive::Polyline(d) => assert_eq!(d.points, vec![Pos { x: 0, y: 0 }]),
        other => panic!("expected the completed polyline, got {:?}", other),
    }
    match &out[1] {
        Primitive::Polyline(d) => {
            assert_eq!(d.points, vec![Pos { x: 4, y: 4 }, Pos { x: 6, y: 6 }])
        }
        other => panic!("expected the in-progress polyline, got {:?}", other),
    }
    match &out[2] {
        Primitive::Highlight(rect, pen) => {
            assert_eq!(rect.min, Pos { x: 0, y: 0 });
            assert_eq!(rect.max, Pos { x: 0, y: 0 });
            assert_eq!(
                *pen,
                Pen { color: Color { r: 255, g: 255, b: 255, a: 255 }, width: 1 }
            );
        }
        other => panic!("expected the highlight last, got {:?}", other),
    }
}

#[test]
fn hover_highlight_is_the_bounding_box() {
    let mut server = PaintServerData::new();
    let mut client = PaintClientData::default();
    let idle = PanelInput::idle();
    paint(&mut client, &mut server, &idle, &drag_at(3, -2));
    paint(&mut client, &mut server, &idle, &drag_at(-1, 9));
    paint(&mut client, &mut server, &idle, &drag_at(4, 0));
    paint(&mut client, &mut server, &idle, &drag_stop());
    let hover = PanelInput { hovered: Some(0), ..PanelInput::idle() };
    let out = paint(&mut client, &mut server, &hover, &idle_canvas());
    match out.last().unwrap() {
        Primitive::Highlight(rect, _) => {
            assert_eq!(rect.min, Pos { x: -1, y: -2 });
            assert_eq!(rect.max, Pos { x: 4, y: 9 });
        }
        other => panic!("expected a highlight, got {:?}", other),
    }
}

#[test]
fn highlight_is_computed_before_the_delete() {
    let mut server = PaintServerData::new();
    let mut client = PaintClientData::default();
    let idle = PanelInput::idle();
    paint(&mut client, &mut server, &idle, &drag_at(2, 2));
    paint(&mut client, &mut server, &idle, &drag_stop());
    // hover and delete the same entry in one tick: the highlight still
    // shows this tick, from the list as it stood
    let both = PanelInput { hovered: Some(0), delete: Some(0), ..PanelInput::idle() };
    let out = paint(&mut client, &mut server, &both, &idle_canvas());
    assert_eq!(server.completed.len(), 0);
    match out.last().unwrap() {
        Primitive::Highlight(rect, _) => {
            assert_eq!(rect.min, Pos { x: 2, y: 2 });
        }
        other => panic!("expected a highlight, got {:?}", other),
    }
}

#[test]
fn duplicate_is_identical() {
    let d = Drawing { points: vec![Pos { x: 1, y: 2 }, Pos { x: 3, y: 4 }], pen: red() };
    let c = d.duplicate();
    assert_eq!(c.points, d.points);
    assert_eq!(c.pen, d.pen);
}
