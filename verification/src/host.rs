//! The per-session render callback: what the external transport invokes
//! once per connected session per tick.  It looks the session's state up
//! (creating it on first contact), applies the session's tab click, and,
//! on the canvas tab, runs the canvas engine against the shared state.

use vstd::prelude::*;

use crate::canvas::{CanvasView, PaintServerData};
use crate::engine::{
    paint, prim_views, spec_paint, CanvasInput, PanelInput, Primitive, PrimitiveView,
};
use crate::store::{spec_new_session, ClientDataView, SessionStore, StoreView, Tab};

verus! {

/// Every stored session state is well formed, its slot, if assigned,
/// indexes an existing in-progress entry of the shared canvas, and no
/// two sessions hold the same slot: a slot is assigned at first contact
/// and never reused.
pub open spec fn sessions_ok(st: StoreView, s: CanvasView) -> bool {
    &&& forall|i: int|
        0 <= i < st.states.len() ==> (#[trigger] st.states[i]).paint.wf()
            && st.states[i].paint.compatible(s)
    &&& forall|i: int, j: int|
        #![trigger st.states[i], st.states[j]]
        0 <= i < j < st.states.len() && st.states[i].paint.id is Some
            && st.states[j].paint.id is Some ==> st.states[i].paint.id != st.states[j].paint.id
}

/// The store as it stands once `key` has an entry: unchanged if the key
/// is present, grown by one fresh session otherwise.
pub open spec fn spec_with_key(st: StoreView, key: u64) -> StoreView {
    if st.keys.contains(key) {
        st
    } else {
        StoreView { keys: st.keys.push(key), states: st.states.push(spec_new_session()) }
    }
}

/// What one session's tick does to its stored entry and the shared
/// canvas, and what it emits.  Off the canvas tab the core emits nothing
/// and the shared canvas is untouched.
pub open spec fn spec_session_tick(
    entry: ClientDataView,
    s: CanvasView,
    tab_click: Option<Tab>,
    panel: PanelInput,
    inp: CanvasInput,
) -> (ClientDataView, CanvasView, Seq<PrimitiveView>) {
    let tab = match tab_click {
        Some(t) => t,
        None => entry.tab,
    };
    if tab is Paint {
        let (c2, s3, prims) = spec_paint(entry.paint, s, panel, inp);
        (ClientDataView { tab, paint: c2 }, s3, prims)
    } else {
        (ClientDataView { tab, paint: entry.paint }, s, Seq::empty())
    }
}

/// One session's whole tick, from its opaque identity key: lazy lookup,
/// tab selection, canvas engine, emission.
pub fn run_session_tick(
    store: &mut SessionStore,
    server: &mut PaintServerData,
    key: u64,
    tab_click: Option<Tab>,
    panel: &PanelInput,
    input: &CanvasInput,
) -> (out: Vec<Primitive>)
    requires
        old(store)@.wf(),
        sessions_ok(old(store)@, old(server)@),
        old(server)@.wf(),
    ensures
        ({
            let st0 = spec_with_key(old(store)@, key);
            let idx = choose|i: int| 0 <= i < st0.keys.len() && st0.keys[i] == key;
            let (e2, s3, prims) = spec_session_tick(
                st0.states[idx],
                old(server)@,
                tab_click,
                *panel,
                *input,
            );
            &&& final(store)@.keys == st0.keys
            &&& final(store)@.states == st0.states.update(idx, e2)
            &&& final(server)@ == s3
            &&& prim_views(out@) == prims
        }),
        final(store)@.wf(),
        sessions_ok(final(store)@, final(server)@),
        final(server)@.wf(),
        final(server)@.in_progress.len() >= old(server)@.in_progress.len(),
{
    let idx = store.get_or_create(key);
    let ghost st0 = store@;
    proof {
        assert(st0 == spec_with_key(old(store)@, key));
        assert(sessions_ok(st0, server@));
        let ch = choose|i: int| 0 <= i < st0.keys.len() && st0.keys[i] == key;
        assert(0 <= ch < st0.keys.len() && st0.keys[ch] == key) by {
            assert(st0.keys[idx as int] == key);
        }
        crate::store::lemma_lookup_stable(st0, key, ch, idx as int);
    }
    let c = store.state_mut(idx);
    if let Some(t) = tab_click {
        c.tab = t;
    }
    let out: Vec<Primitive> = match c.tab {
        Tab::Paint => paint(&mut c.paint, server, panel, input),
        _ => Vec::new(),
    };
    proof {
        let ghost idx_ = idx as int;
        assert(store@.states =~= st0.states.update(
            idx_,
            spec_session_tick(st0.states[idx_], old(server)@, tab_click, *panel, *input).0,
        ));
        assert(prim_views(out@) =~= spec_session_tick(
            st0.states[idx_],
            old(server)@,
            tab_click,
            *panel,
            *input,
        ).2);
        let e2 = store@.states[idx_];
        assert forall|i: int, j: int|
            #![trigger store@.states[i], store@.states[j]]
            0 <= i < j < store@.states.len() && store@.states[i].paint.id is Some
                && store@.states[j].paint.id is Some implies store@.states[i].paint.id
            != store@.states[j].paint.id by {
            if i != idx_ && j != idx_ {
                assert(store@.states[i] == st0.states[i]);
                assert(store@.states[j] == st0.states[j]);
            } else {
                let k = if i == idx_ { j } else { i };
                assert(store@.states[k] == st0.states[k]);
                if st0.states[idx_].paint.id is Some {
                    assert(e2.paint.id == st0.states[idx_].paint.id);
                } else {
                    let n = old(server)@.in_progress.len();
                    assert(old(server).in_progress.len() == n);
                    assert(e2.paint.id is Some);
                    assert(e2.paint.id == Some(n as usize));
                    assert(st0.states[k].paint.compatible(old(server)@));
                    match st0.states[k].paint.id {
                        Some(m) => {
                            assert(m < n);
                            assert(m != n as usize);
                        },
                        None => {},
                    }
                }
            }
        }
        assert(sessions_ok(store@, server@));
    }
    out
}

} // verus!
