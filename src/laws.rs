use vstd::prelude::*;

use crate::game::{draw_of, draws, needs_draw, rendered};
use crate::net::{apply_roster, apply_update};
use crate::structs::{EntityRecord, Position, StateView};

verus! {

/// A roster only creates: afterwards the registered identifiers are those
/// registered before and those the roster names; each one registered before
/// keeps its entity and its position; each new one stands where its first
/// entry in the roster puts it.
pub proof fn lemma_roster_creates_only(m: StateView, entries: Seq<(Seq<char>, Position)>)
    requires
        m.wf(),
        m.entities.len() + entries.len() <= usize::MAX,
    ensures
        ({
            let r = apply_roster(m, entries);
            &&& r.wf()
            &&& r.entities.len() <= m.entities.len() + entries.len()
            &&& forall|id: Seq<char>|
                #[trigger] r.registered(id) <==> (m.registered(id) || exists|i: int|
                    0 <= i < entries.len() && (#[trigger] entries[i]).0 == id)
            &&& forall|id: Seq<char>| #[trigger]
                m.registered(id) ==> r.players[id] == m.players[id] && r.pos_of(id) == m.pos_of(id)
            &&& forall|i: int|
                0 <= i < entries.len() && !m.registered((#[trigger] entries[i]).0)
                    && (forall|j: int| 0 <= j < i ==> (#[trigger] entries[j]).0 != entries[i].0)
                    ==> r.pos_of(entries[i].0) == entries[i].1
        }),
    decreases entries.len(),
{
    if entries.len() > 0 {
        let prev = entries.drop_last();
        lemma_roster_creates_only(m, prev);
        let m1 = apply_roster(m, prev);
        let r = apply_roster(m, entries);
        let (nid, npos) = entries.last();
        let last = entries.len() - 1;
        if !m1.registered(nid) {
            m1.lemma_created_wf(nid, npos);
        }
        assert forall|id: Seq<char>| #[trigger]
            r.registered(id) <==> (m.registered(id) || exists|i: int|
                0 <= i < entries.len() && (#[trigger] entries[i]).0 == id) by {
            if m1.registered(id) && !m.registered(id) {
                let i = choose|i: int| 0 <= i < prev.len() && (#[trigger] prev[i]).0 == id;
                assert(entries[i] == prev[i]);
            }
            if exists|i: int| 0 <= i < entries.len() && (#[trigger] entries[i]).0 == id {
                let i = choose|i: int| 0 <= i < entries.len() && (#[trigger] entries[i]).0 == id;
                if i < last {
                    assert(prev[i] == entries[i]);
                    assert(m1.registered(id));
                }
            }
        }
        assert forall|id: Seq<char>| #[trigger] m.registered(id) implies r.players[id] == m.players[id]
            && r.pos_of(id) == m.pos_of(id) by {
            assert(m1.registered(id));
            if !m1.registered(nid) {
                assert(m1.entities.push(crate::structs::fresh_record(
                    crate::structs::player_renderable(),
                    npos,
                    false,
                ))[m1.players[id].index as int] == m1.entities[m1.players[id].index as int]);
            }
        }
        assert forall|i: int|
            0 <= i < entries.len() && !m.registered((#[trigger] entries[i]).0)
                && (forall|j: int| 0 <= j < i ==> (#[trigger] entries[j]).0 != entries[i].0)
                implies r.pos_of(entries[i].0) == entries[i].1 by {
            let id = entries[i].0;
            if i < last {
                assert(prev[i] == entries[i]);
                assert forall|j: int| 0 <= j < i implies (#[trigger] prev[j]).0 != id by {
                    assert(prev[j] == entries[j]);
                }
                assert(m1.registered(id));
                assert(m1.pos_of(id) == entries[i].1);
                if !m1.registered(nid) {
                    assert(m1.entities.push(crate::structs::fresh_record(
                        crate::structs::player_renderable(),
                        npos,
                        false,
                    ))[m1.players[id].index as int] == m1.entities[m1.players[id].index as int]);
                }
            } else {
                assert forall|j: int| 0 <= j < prev.len() implies (#[trigger] prev[j]).0 != id by {
                    assert(prev[j] == entries[j]);
                }
                assert(!m1.registered(id));
            }
        }
    }
}

/// After an update the player is registered and stands at the update's
/// position, whether or not it was registered before.
pub proof fn lemma_update_places(m: StateView, id: Seq<char>, pos: Position)
    requires
        m.wf(),
        m.entities.len() < usize::MAX,
    ensures
        apply_update(m, id, pos).wf(),
        apply_update(m, id, pos).registered(id),
        apply_update(m, id, pos).pos_of(id) == pos,
{
    if m.registered(id) {
        m.lemma_moved_wf(id, pos);
    } else {
        m.lemma_created_wf(id, pos);
    }
}

/// Applying the same update twice leaves the world as applying it once.
pub proof fn lemma_update_idempotent(m: StateView, id: Seq<char>, pos: Position)
    requires
        m.wf(),
        m.entities.len() < usize::MAX,
    ensures
        apply_update(apply_update(m, id, pos), id, pos) == apply_update(m, id, pos),
{
    let once = apply_update(m, id, pos);
    lemma_update_places(m, id, pos);
    let twice = apply_update(once, id, pos);
    assert(twice.entities =~= once.entities);
}

proof fn lemma_draws_none(es: Seq<EntityRecord>)
    requires
        forall|j: int| 0 <= j < es.len() ==> !needs_draw(#[trigger] es[j]),
    ensures
        draws(es) == Seq::<crate::structs::DrawCall>::empty(),
    decreases es.len(),
{
    if es.len() > 0 {
        let p = es.drop_last();
        assert forall|j: int| 0 <= j < p.len() implies !needs_draw(#[trigger] p[j]) by {
            assert(p[j] == es[j]);
        }
        lemma_draws_none(p);
    }
}

proof fn lemma_draws_single(es: Seq<EntityRecord>, k: int)
    requires
        0 <= k < es.len(),
        needs_draw(es[k]),
        forall|j: int| 0 <= j < es.len() && j != k ==> !needs_draw(#[trigger] es[j]),
    ensures
        draws(es) == seq![draw_of(es[k])],
    decreases es.len(),
{
    let p = es.drop_last();
    if k == es.len() - 1 {
        assert forall|j: int| 0 <= j < p.len() implies !needs_draw(#[trigger] p[j]) by {
            assert(p[j] == es[j]);
        }
        lemma_draws_none(p);
        assert(draws(p).push(draw_of(es[k])) =~= seq![draw_of(es[k])]);
    } else {
        assert forall|j: int| 0 <= j < p.len() && j != k implies !needs_draw(#[trigger] p[j]) by {
            assert(p[j] == es[j]);
        }
        assert(p[k] == es[k]);
        lemma_draws_single(p, k);
    }
}

/// A render pass leaves no entity dirty; an update that follows marks the
/// player's entity again, and the next render pass draws that entity, and
/// nothing else, once.
pub proof fn lemma_dirty_discipline(m: StateView, id: Seq<char>, pos: Position)
    requires
        m.wf(),
        m.entities.len() < usize::MAX,
    ensures
        forall|j: int| 0 <= j < rendered(m).entities.len() ==> !(#[trigger] rendered(m).entities[j]).dirty,
        apply_update(rendered(m), id, pos).record_of(id).dirty,
        draws(apply_update(rendered(m), id, pos).entities) == seq![
            draw_of(apply_update(rendered(m), id, pos).record_of(id)),
        ],
{
    let r = rendered(m);
    crate::game::lemma_rendered_wf(m);
    lemma_update_places(r, id, pos);
    let u = apply_update(r, id, pos);
    let k = u.players[id].index as int;
    assert forall|j: int| 0 <= j < u.entities.len() && j != k implies !needs_draw(#[trigger] u.entities[j]) by {
        assert(u.entities[j] == r.entities[j]);
    }
    lemma_draws_single(u.entities, k);
}

} // verus!
