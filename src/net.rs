use vstd::prelude::*;

use crate::player::{create_player, get_player_entry, move_player};
use crate::protocol::{decode, decoded, EventView, ServerEvent};
use crate::structs::{Player, Position, State, StateView};

verus! {

/// The world after a roster: each entry whose identifier is not yet
/// registered is created, in order; the others are left as they are.
pub open spec fn apply_roster(m: StateView, entries: Seq<(Seq<char>, Position)>) -> StateView
    decreases entries.len(),
{
    if entries.len() == 0 {
        m
    } else {
        let m1 = apply_roster(m, entries.drop_last());
        let (id, pos) = entries.last();
        if m1.registered(id) {
            m1
        } else {
            m1.created(id, pos)
        }
    }
}

/// The world after an update: a registered player is moved to `pos`, an
/// unknown one is created there.
pub open spec fn apply_update(m: StateView, id: Seq<char>, pos: Position) -> StateView {
    if m.registered(id) {
        m.moved(id, pos)
    } else {
        m.created(id, pos)
    }
}

/// The world after a server event.
pub open spec fn applied(m: StateView, ev: EventView) -> StateView {
    match ev {
        EventView::Roster(entries) => apply_roster(m, entries),
        EventView::Update(id, pos) => apply_update(m, id, pos),
        EventView::Ignored => m,
    }
}

/// Applies a decoded server event to the world.
pub fn apply_event(gs: &mut State, ev: ServerEvent)
    requires
        old(gs)@.wf(),
    ensures
        final(gs)@ == applied(old(gs)@, ev@),
        final(gs)@.wf(),
{
    match ev {
        ServerEvent::Roster(entries) => {
            let ghost es = entries@.map_values(|e: (Player, Position)| (e.0.id@, e.1));
            let ghost m0 = gs@;
            let mut i: usize = 0;
            while i < entries.len()
                invariant
                    i <= entries@.len(),
                    es == entries@.map_values(|e: (Player, Position)| (e.0.id@, e.1)),
                    gs@ == apply_roster(m0, es.take(i as int)),
                    gs@.wf(),
                decreases entries.len() - i,
            {
                assert(es.take(i as int + 1).drop_last() =~= es.take(i as int));
                let id = entries[i].0.id.clone();
                let pos = entries[i].1;
                assert(es.take(i as int + 1).last() == (id@, pos));
                let known = get_player_entry(gs, id.clone());
                if known.is_none() {
                    create_player(gs, Player { id }, pos);
                }
                i = i + 1;
            }
            assert(es.take(entries.len() as int) =~= es);
        },
        ServerEvent::Update(player, pos) => {
            let known = get_player_entry(gs, player.id.clone());
            if known.is_some() {
                move_player(gs, player.id, pos.x, pos.y);
            } else {
                create_player(gs, player, pos);
            }
        },
        ServerEvent::Ignored => {},
    }
}

/// Decodes a datagram from the server and applies it to the world.
pub fn process_server_data(gs: &mut State, data: String)
    requires
        old(gs)@.wf(),
    ensures
        final(gs)@ == applied(old(gs)@, decoded(data@)),
        final(gs)@.wf(),
{
    let ev = decode(data.as_str());
    apply_event(gs, ev);
}

} // verus!
