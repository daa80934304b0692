use vstd::prelude::*;

use crate::net::{applied, process_server_data};
use crate::player::{after_input, input_fits, player_input};
use crate::protocol::decoded;
use crate::structs::{Direction, DrawCall, EntityRecord, State, StateView};

verus! {

/// The draw call for an entity.
pub open spec fn draw_of(e: EntityRecord) -> DrawCall {
    DrawCall { x: e.pos.x, y: e.pos.y, glyph: e.render.glyph, fg: e.render.fg, bg: e.render.bg }
}

/// Whether a render pass draws the entity: it moved and is not ignored.
pub open spec fn needs_draw(e: EntityRecord) -> bool {
    e.dirty && !e.ignore
}

/// The draw calls of a render pass over `es`, in store order.
pub open spec fn draws(es: Seq<EntityRecord>) -> Seq<DrawCall>
    decreases es.len(),
{
    if es.len() == 0 {
        Seq::empty()
    } else {
        let prev = draws(es.drop_last());
        if needs_draw(es.last()) {
            prev.push(draw_of(es.last()))
        } else {
            prev
        }
    }
}

/// An entity once a render pass has consumed its change.
pub open spec fn cleaned(e: EntityRecord) -> EntityRecord {
    EntityRecord { dirty: false, ..e }
}

/// The world after a render pass: no entity is left dirty.
pub open spec fn rendered(m: StateView) -> StateView {
    StateView {
        entities: m.entities.map_values(|e: EntityRecord| cleaned(e)),
        players: m.players,
        outbox: m.outbox,
    }
}

/// The world after the network step of a tick.
pub open spec fn after_network(m: StateView, incoming: Option<String>) -> StateView {
    match incoming {
        Some(d) => applied(m, decoded(d@)),
        None => m,
    }
}

pub proof fn lemma_rendered_wf(m: StateView)
    requires
        m.wf(),
    ensures
        rendered(m).wf(),
{
    let r = rendered(m);
    assert forall|k: Seq<char>| #[trigger] r.players.contains_key(k) implies {
        &&& r.players[k].index < r.entities.len()
        &&& !r.entities[r.players[k].index as int].ignore
    } by {
        assert(m.players.contains_key(k));
    }
}

impl State {
    /// Computes the draw calls for the entities that moved since the last
    /// pass and are not ignored, then clears every change marker.
    pub fn render_set(&mut self) -> (r: Vec<DrawCall>)
        requires
            old(self)@.wf(),
        ensures
            r@ == draws(old(self)@.entities),
            final(self)@ == rendered(old(self)@),
            final(self)@.wf(),
    {
        let ghost m = self@;
        let mut out: Vec<DrawCall> = Vec::new();
        let mut i: usize = 0;
        while i < self.entities.len()
            invariant
                i <= self.entities@.len(),
                self.entities@.len() == m.entities.len(),
                self.players@ == m.players,
                self@.outbox == m.outbox,
                out@ == draws(m.entities.take(i as int)),
                forall|j: int| 0 <= j < i ==> #[trigger] self.entities@[j] == cleaned(m.entities[j]),
                forall|j: int|
                    i <= j < self.entities@.len() ==> #[trigger] self.entities@[j] == m.entities[j],
            decreases self.entities.len() - i,
        {
            let e = self.entities[i];
            assert(m.entities.take(i as int + 1).drop_last() =~= m.entities.take(i as int));
            assert(m.entities.take(i as int + 1).last() == e);
            if e.dirty && !e.ignore {
                out.push(
                    DrawCall {
                        x: e.pos.x,
                        y: e.pos.y,
                        glyph: e.render.glyph,
                        fg: e.render.fg,
                        bg: e.render.bg,
                    },
                );
            }
            self.entities.set(i, EntityRecord { dirty: false, ..e });
            i = i + 1;
        }
        assert(m.entities.take(i as int) =~= m.entities);
        assert(self@.entities =~= rendered(m).entities);
        proof {
            lemma_rendered_wf(m);
        }
        out
    }

    /// One frame: applies the datagram received in this tick if there is
    /// one, then the local input, then computes the draw calls.
    pub fn tick(&mut self, incoming: Option<String>, key: Option<Direction>) -> (r: Vec<DrawCall>)
        requires
            old(self)@.wf(),
            input_fits(after_network(old(self)@, incoming), key),
        ensures
            ({
                let m = after_input(after_network(old(self)@, incoming), key);
                &&& r@ == draws(m.entities)
                &&& final(self)@ == rendered(m)
            }),
            final(self)@.wf(),
    {
        if let Some(data) = incoming {
            process_server_data(self, data);
        }
        player_input(self, key);
        self.render_set()
    }
}

} // verus!
