use vstd::prelude::*;

use crate::protocol::{command_text, encode_command};
use crate::structs::{
    local_id, Color, Direction, Entity, EntityRecord, Player, Position, Renderable, State,
    StateView,
};

verus! {

/// The offset of one move in direction `d`; `y` grows downwards.
pub open spec fn delta(d: Direction) -> (i32, i32) {
    match d {
        Direction::Left => (-1i32, 0i32),
        Direction::Right => (1i32, 0i32),
        Direction::Up => (0i32, -1i32),
        Direction::Down => (0i32, 1i32),
    }
}

/// Whether moving a registered player by `(dx, dy)` stays within `i32`.
pub open spec fn shift_fits(m: StateView, id: Seq<char>, dx: i32, dy: i32) -> bool {
    m.registered(id) ==> {
        &&& i32::MIN <= m.pos_of(id).x + dx <= i32::MAX
        &&& i32::MIN <= m.pos_of(id).y + dy <= i32::MAX
    }
}

/// The world after a registered player moved by `(dx, dy)`.
pub open spec fn shifted(m: StateView, id: Seq<char>, dx: i32, dy: i32) -> StateView {
    if m.registered(id) {
        let p = m.pos_of(id);
        m.moved(id, Position { x: (p.x + dx) as i32, y: (p.y + dy) as i32 })
    } else {
        m
    }
}

/// Whether the local move `key` stays within `i32`.
pub open spec fn input_fits(m: StateView, key: Option<Direction>) -> bool {
    match key {
        Some(d) => shift_fits(m, local_id(), delta(d).0, delta(d).1),
        None => true,
    }
}

/// The world after the local input `key`: the local player moves, and the
/// matching command is queued for the server whether or not it exists.
pub open spec fn after_input(m: StateView, key: Option<Direction>) -> StateView {
    match key {
        Some(d) => {
            let m1 = shifted(m, local_id(), delta(d).0, delta(d).1);
            StateView { entities: m1.entities, players: m1.players, outbox: m1.outbox.push(command_text(d)) }
        },
        None => m,
    }
}

/// The offset of one move in direction `d`.
pub fn direction_delta(d: Direction) -> (r: (i32, i32))
    ensures
        r == delta(d),
{
    match d {
        Direction::Left => (-1, 0),
        Direction::Right => (1, 0),
        Direction::Up => (0, -1),
        Direction::Down => (0, 1),
    }
}

/// Whether the local input `key` keeps the local player's coordinates
/// within `i32`, as `player_input` requires.
pub fn input_within_range(gs: &State, key: Option<Direction>) -> (r: bool)
    requires
        gs@.wf(),
    ensures
        r == input_fits(gs@, key),
{
    match key {
        None => true,
        Some(d) => {
            let (dx, dy) = direction_delta(d);
            let id = String::from_str("me");
            proof {
                reveal_strlit("me");
                assert(id@ =~= local_id());
            }
            match gs.position_of(id.as_str()) {
                None => true,
                Some(p) => {
                    let x = p.x as i64 + dx as i64;
                    let y = p.y as i64 + dy as i64;
                    i32::MIN as i64 <= x && x <= i32::MAX as i64 && i32::MIN as i64 <= y && y
                        <= i32::MAX as i64
                },
            }
        },
    }
}

/// Registers `player` at `pos` with a new entity drawn as a white `@`.
pub fn create_player(gs: &mut State, player: Player, pos: Position)
    requires
        old(gs)@.wf(),
    ensures
        final(gs)@ == old(gs)@.created(player.id@, pos),
        final(gs)@.wf(),
{
    let ghost m = gs@;
    let render = Renderable { glyph: '@', fg: Color::white(), bg: Color::black() };
    let entity = gs.spawn(render, pos, false);
    gs.players.insert(player.id, entity);
    proof {
        m.lemma_created_wf(player.id@, pos);
    }
}

/// The entity of the player `player_id`, if it is registered.
pub fn get_player_entry(gs: &State, player_id: String) -> (r: Option<Entity>)
    ensures
        r == (if gs@.registered(player_id@) {
            Some(gs@.players[player_id@])
        } else {
            None
        }),
{
    match gs.players.get(player_id.as_str()) {
        Some(e) => Some(*e),
        None => None,
    }
}

/// Overwrites the position of the player `player_id` and marks it for
/// drawing; does nothing for an unknown player.
pub fn move_player(gs: &mut State, player_id: String, x: i32, y: i32)
    requires
        old(gs)@.wf(),
    ensures
        final(gs)@ == old(gs)@.moved(player_id@, Position { x, y }),
        final(gs)@.wf(),
{
    let ghost m = gs@;
    if let Some(e) = get_player_entry(gs, player_id) {
        let rec = gs.entities[e.index];
        gs.entities.set(e.index, EntityRecord { pos: Position { x, y }, dirty: true, ..rec });
        proof {
            m.lemma_moved_wf(player_id@, Position { x, y });
        }
    }
}

/// Moves the player `player_id` by `(delta_x, delta_y)` and marks it for
/// drawing; does nothing for an unknown player.
pub fn move_player_delta(gs: &mut State, player_id: String, delta_x: i32, delta_y: i32)
    requires
        old(gs)@.wf(),
        shift_fits(old(gs)@, player_id@, delta_x, delta_y),
    ensures
        final(gs)@ == shifted(old(gs)@, player_id@, delta_x, delta_y),
        final(gs)@.wf(),
{
    let ghost m = gs@;
    if let Some(e) = get_player_entry(gs, player_id) {
        let rec = gs.entities[e.index];
        let pos = Position { x: rec.pos.x + delta_x, y: rec.pos.y + delta_y };
        gs.entities.set(e.index, EntityRecord { pos, dirty: true, ..rec });
        proof {
            m.lemma_moved_wf(player_id@, pos);
        }
    }
}

/// Applies one local input: moves the local player one cell and queues the
/// command that tells the server.
pub fn player_input(gs: &mut State, key: Option<Direction>)
    requires
        old(gs)@.wf(),
        input_fits(old(gs)@, key),
    ensures
        final(gs)@ == after_input(old(gs)@, key),
        final(gs)@.wf(),
{
    if let Some(d) = key {
        let (dx, dy) = direction_delta(d);
        let id = String::from_str("me");
        proof {
            reveal_strlit("me");
            assert(id@ =~= local_id());
        }
        move_player_delta(gs, id, dx, dy);
        let ghost before = gs@;
        let cmd = encode_command(d);
        gs.outbox.push(cmd);
        assert(gs@.outbox =~= before.outbox.push(command_text(d)));
    }
}

impl State {
    /// The position of the player `id`, if it is registered.
    pub fn position_of(&self, id: &str) -> (r: Option<Position>)
        requires
            self@.wf(),
        ensures
            r == (if self@.registered(id@) {
                Some(self@.pos_of(id@))
            } else {
                None
            }),
    {
        match self.players.get(id) {
            Some(e) => {
                assert(self@.players.contains_key(id@));
                Some(self.entities[e.index].pos)
            },
            None => None,
        }
    }

    /// Hands out the queued commands, oldest first, and empties the queue.
    pub fn take_outbox(&mut self) -> (r: Vec<String>)
        requires
            old(self)@.wf(),
        ensures
            r@.map_values(|s: String| s@) == old(self)@.outbox,
            final(self)@.outbox.len() == 0,
            final(self)@.entities == old(self)@.entities,
            final(self)@.players == old(self)@.players,
            final(self)@.wf(),
    {
        let mut out: Vec<String> = Vec::new();
        std::mem::swap(&mut out, &mut self.outbox);
        out
    }
}

} // verus!
