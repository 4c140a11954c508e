use canvas_host::canvas::PaintServerData;
use canvas_host::engine::{CanvasInput, PanelInput, Primitive};
use canvas_host::geom::{bounding_rect, Pos};
use canvas_host::host::run_session_tick;
use canvas_host::sched::sleep_for;
use canvas_host::store::{SessionStore, Tab};

fn idle_canvas() -> CanvasInput {
    CanvasInput { drag_active: false, pointer: None, drag_stopped: false }
}

fn drag_at(x: i32, y: i32) -> CanvasInput {
    CanvasInput { drag_active: true, pointer: Some(Pos { x, y }), drag_stopped: false }
}

fn drag_stop() -> CanvasInput {
    CanvasInput { drag_active: false, pointer: None, drag_stopped: true }
}

#[test]
fn store_creates_lazily_and_looks_up_stably() {
    let mut store = SessionStore::new();
    assert_eq!(store.len(), 0);
    let a = store.get_or_create(17);
    let b = store.get_or_create(40);
    assert_eq!(store.len(), 2);
    // repeated lookups land on the same entries and create nothing
    assert_eq!(store.get_or_create(17), a);
    assert_eq!(store.get_or_create(40), b);
    assert_eq!(store.get_or_create(17), a);
    assert_eq!(store.len(), 2);
    assert_ne!(a, b);
}

#[test]
fn slot_id_is_stable_across_ticks() {
    let mut store = SessionStore::new();
    let mut server = PaintServerData::new();
    let idle = PanelInput::idle();
    run_session_tick(&mut store, &mut server, 7, None, &idle, &idle_canvas());
    run_session_tick(&mut store, &mut server, 9, None, &idle, &idle_canvas());
    let idx7 = store.get_or_create(7);
    let idx9 = store.get_or_create(9);
    let slot7 = store.state(idx7).paint.id;
    let slot9 = store.state(idx9).paint.id;
    assert_eq!(slot7, Some(0));
    assert_eq!(slot9, Some(1));
    for _ in 0..5 {
        run_session_tick(&mut store, &mut server, 7, None, &idle, &idle_canvas());
        run_session_tick(&mut store, &mut server, 9, None, &idle, &idle_canvas());
    }
    assert_eq!(store.state(idx7).paint.id, slot7);
    assert_eq!(store.state(idx9).paint.id, slot9);
    assert_eq!(server.in_progress.len(), 2);
}

#[test]
fn off_canvas_tab_emits_nothing_and_leaves_the_canvas_alone() {
    let mut store = SessionStore::new();
    let mut server = PaintServerData::new();
    let idle = PanelInput::idle();
    // draw something first
    run_session_tick(&mut store, &mut server, 1, None, &idle, &drag_at(1, 1));
    run_session_tick(&mut store, &mut server, 1, None, &idle, &drag_stop());
    assert_eq!(server.completed.len(), 1);
    // switch to the text tab: nothing is emitted, nothing changes
    let out = run_session_tick(&mut store, &mut server, 1, Some(Tab::Text), &idle, &drag_at(9, 9));
    assert!(out.is_empty());
    assert_eq!(server.completed.len(), 1);
    assert_eq!(server.in_progress[0].points.len(), 0);
    // the tab choice persists on the next tick
    let out2 = run_session_tick(&mut store, &mut server, 1, None, &idle, &idle_canvas());
    assert!(out2.is_empty());
    // and switching back resumes the canvas
    let out3 = run_session_tick(&mut store, &mut server, 1, Some(Tab::Paint), &idle, &idle_canvas());
    assert_eq!(out3.len(), 2);
}

#[test]
fn session_tick_emits_the_shared_canvas_for_every_session() {
    let mut store = SessionStore::new();
    let mut server = PaintServerData::new();
    let idle = PanelInput::idle();
    run_session_tick(&mut store, &mut server, 5, None, &idle, &drag_at(3, 3));
    run_session_tick(&mut store, &mut server, 5, None, &idle, &drag_stop());
    // a brand new session sees the completed drawing on its first tick
    let out = run_session_tick(&mut store, &mut server, 6, None, &idle, &idle_canvas());
    match &out[0] {
        Primitive::Polyline(d) => assert_eq!(d.points, vec![Pos { x: 3, y: 3 }]),
        other => panic!("expected the completed polyline, got {:?}", other),
    }
}

#[test]
fn sleep_fills_the_period_exactly() {
    // 90 ticks per second, in nanoseconds
    let period: u64 = 1_000_000_000 / 90;
    assert_eq!(sleep_for(period, 0), period);
    assert_eq!(sleep_for(period, 1_000_000), period - 1_000_000);
    assert_eq!(sleep_for(period, 0) + 0, period);
    assert_eq!(1_000_000 + sleep_for(period, 1_000_000), period);
}

#[test]
fn overrun_sleeps_zero() {
    let period: u64 = 11_111_111;
    assert_eq!(sleep_for(period, period), 0);
    assert_eq!(sleep_for(period, period + 5), 0);
    assert_eq!(sleep_for(period, u64::MAX), 0);
}

#[test]
fn bounding_rect_folds_min_and_max() {
    let pts = vec![
        Pos { x: 3, y: -2 },
        Pos { x: -1, y: 9 },
        Pos { x: 4, y: 0 },
        Pos { x: 3, y: 3 },
    ];
    let r = bounding_rect(&pts);
    assert_eq!(r.min, Pos { x: -1, y: -2 });
    assert_eq!(r.max, Pos { x: 4, y: 9 });

    let one = vec![Pos { x: 8, y: 8 }];
    let r1 = bounding_rect(&one);
    assert_eq!(r1.min, Pos { x: 8, y: 8 });
    assert_eq!(r1.max, Pos { x: 8, y: 8 });
}
