use vstd::hash_map::StringHashMap;
use vstd::prelude::*;

verus! {

/// A position on the grid, in cells.
#[derive(Clone, Copy, Debug, PartialEq, Eq, Structural)]
pub struct Position {
    pub x: i32,
    pub y: i32,
}

/// A color, eight bits per channel.
#[derive(Clone, Copy, Debug, PartialEq, Eq, Structural)]
pub struct Color {
    pub r: u8,
    pub g: u8,
    pub b: u8,
}

impl Color {
    pub fn white() -> (c: Color)
        ensures
            c == (Color { r: 255, g: 255, b: 255 }),
    {
        Color { r: 255, g: 255, b: 255 }
    }

    pub fn black() -> (c: Color)
        ensures
            c == (Color { r: 0, g: 0, b: 0 }),
    {
        Color { r: 0, g: 0, b: 0 }
    }
}

/// What is drawn for an entity: a glyph and its two colors.
#[derive(Clone, Copy, Debug, PartialEq, Eq, Structural)]
pub struct Renderable {
    pub glyph: char,
    pub fg: Color,
    pub bg: Color,
}

/// A player, known by the identifier the server gave it.
#[derive(Clone, Debug)]
pub struct Player {
    pub id: String,
}

/// A handle to an entity of the world: its index in the entity store.
#[derive(Clone, Copy, Debug, PartialEq, Eq, Structural)]
pub struct Entity {
    pub index: usize,
}

/// One entity of the world with its components.
///
/// `ignore` excludes the entity from rendering; `dirty` records that its
/// position changed since the last render pass.
#[derive(Clone, Copy, Debug, PartialEq, Eq, Structural)]
pub struct EntityRecord {
    pub pos: Position,
    pub render: Renderable,
    pub ignore: bool,
    pub dirty: bool,
}

/// One draw call handed to the renderer.
#[derive(Clone, Copy, Debug, PartialEq, Eq, Structural)]
pub struct DrawCall {
    pub x: i32,
    pub y: i32,
    pub glyph: char,
    pub fg: Color,
    pub bg: Color,
}

/// A local move, one cell in one direction.
#[derive(Clone, Copy, Debug, PartialEq, Eq, Structural)]
pub enum Direction {
    Left,
    Right,
    Up,
    Down,
}

/// The client's world: the entity store, the registry of players and the
/// commands waiting to be sent to the server.
pub struct State {
    pub entities: Vec<EntityRecord>,
    pub players: StringHashMap<Entity>,
    pub outbox: Vec<String>,
}

/// The mathematical model of a `State`.
pub struct StateView {
    pub entities: Seq<EntityRecord>,
    pub players: Map<Seq<char>, Entity>,
    pub outbox: Seq<Seq<char>>,
}

impl View for State {
    type V = StateView;

    open spec fn view(&self) -> StateView {
        StateView {
            entities: self.entities@,
            players: self.players@,
            outbox: self.outbox@.map_values(|s: String| s@),
        }
    }
}

/// The reserved identifier of the local player.
pub open spec fn local_id() -> Seq<char> {
    seq!['m', 'e']
}

/// The renderable every player is drawn with.
pub open spec fn player_renderable() -> Renderable {
    Renderable {
        glyph: '@',
        fg: Color { r: 255, g: 255, b: 255 },
        bg: Color { r: 0, g: 0, b: 0 },
    }
}

/// A freshly spawned entity: not yet drawn, hence dirty.
pub open spec fn fresh_record(render: Renderable, pos: Position, ignore: bool) -> EntityRecord {
    EntityRecord { pos, render, ignore, dirty: true }
}

impl StateView {
    /// Every registered player has its own rendered entity in the store.
    pub open spec fn wf(self) -> bool {
        &&& forall|k: Seq<char>| #[trigger]
            self.players.contains_key(k) ==> {
                &&& self.players[k].index < self.entities.len()
                &&& !self.entities[self.players[k].index as int].ignore
            }
        &&& forall|k1: Seq<char>, k2: Seq<char>|
            #![trigger self.players[k1], self.players[k2]]
            self.players.contains_key(k1) && self.players.contains_key(k2) && k1 != k2
                ==> self.players[k1] != self.players[k2]
    }

    pub open spec fn registered(self, id: Seq<char>) -> bool {
        self.players.contains_key(id)
    }

    /// The record of a registered player's entity.
    pub open spec fn record_of(self, id: Seq<char>) -> EntityRecord {
        self.entities[self.players[id].index as int]
    }

    pub open spec fn pos_of(self, id: Seq<char>) -> Position {
        self.record_of(id).pos
    }

    /// The world after a new entity was added to the store.
    pub open spec fn spawned(self, rec: EntityRecord) -> StateView {
        StateView { entities: self.entities.push(rec), players: self.players, outbox: self.outbox }
    }

    /// The world after a player was registered at `pos`, with a new entity.
    pub open spec fn created(self, id: Seq<char>, pos: Position) -> StateView {
        StateView {
            entities: self.entities.push(fresh_record(player_renderable(), pos, false)),
            players: self.players.insert(id, Entity { index: self.entities.len() as usize }),
            outbox: self.outbox,
        }
    }

    /// The world after a registered player's position was overwritten; an
    /// unknown identifier leaves it as it was.
    pub open spec fn moved(self, id: Seq<char>, pos: Position) -> StateView {
        if self.registered(id) {
            let i = self.players[id].index as int;
            StateView {
                entities: self.entities.update(
                    i,
                    EntityRecord { pos, dirty: true, ..self.entities[i] },
                ),
                players: self.players,
                outbox: self.outbox,
            }
        } else {
            self
        }
    }

    pub proof fn lemma_spawned_wf(self, rec: EntityRecord)
        requires
            self.wf(),
        ensures
            self.spawned(rec).wf(),
    {
        let m = self.spawned(rec);
        assert forall|k: Seq<char>| #[trigger] m.players.contains_key(k) implies {
            &&& m.players[k].index < m.entities.len()
            &&& !m.entities[m.players[k].index as int].ignore
        } by {
            assert(m.entities[m.players[k].index as int] == self.entities[self.players[k].index as int]);
        }
    }

    pub proof fn lemma_created_wf(self, id: Seq<char>, pos: Position)
        requires
            self.wf(),
            self.entities.len() <= usize::MAX,
        ensures
            self.created(id, pos).wf(),
    {
        let m = self.created(id, pos);
        assert forall|k: Seq<char>| #[trigger] m.players.contains_key(k) implies {
            &&& m.players[k].index < m.entities.len()
            &&& !m.entities[m.players[k].index as int].ignore
        } by {
            if k != id {
                assert(self.players.contains_key(k));
                assert(m.entities[m.players[k].index as int] == self.entities[self.players[k].index as int]);
            }
        }
        assert forall|k1: Seq<char>, k2: Seq<char>|
            #![trigger m.players[k1], m.players[k2]]
            m.players.contains_key(k1) && m.players.contains_key(k2) && k1 != k2
                implies m.players[k1] != m.players[k2] by {
            if k1 != id && k2 != id {
                assert(self.players[k1] != self.players[k2]);
            } else if k1 == id {
                assert(self.players.contains_key(k2));
            } else {
                assert(self.players.contains_key(k1));
            }
        }
    }

    pub proof fn lemma_moved_wf(self, id: Seq<char>, pos: Position)
        requires
            self.wf(),
        ensures
            self.moved(id, pos).wf(),
    {
        let m = self.moved(id, pos);
        if self.registered(id) {
            assert forall|k: Seq<char>| #[trigger] m.players.contains_key(k) implies {
                &&& m.players[k].index < m.entities.len()
                &&& !m.entities[m.players[k].index as int].ignore
            } by {
                assert(self.players.contains_key(k));
            }
        }
    }
}

impl State {
    pub fn new() -> (s: State)
        ensures
            s@.entities.len() == 0,
            s@.players.is_empty(),
            s@.outbox.len() == 0,
            s@.wf(),
    {
        let s = State { entities: Vec::new(), players: StringHashMap::new(), outbox: Vec::new() };
        assert(s@.outbox =~= Seq::empty());
        s
    }

    /// Adds an entity to the store and returns its handle. It is dirty, so
    /// that the next render pass draws it.
    pub fn spawn(&mut self, render: Renderable, pos: Position, ignore: bool) -> (e: Entity)
        requires
            old(self)@.wf(),
        ensures
            final(self)@ == old(self)@.spawned(fresh_record(render, pos, ignore)),
            final(self)@.wf(),
            e.index == old(self)@.entities.len(),
    {
        let e = Entity { index: self.entities.len() };
        self.entities.push(EntityRecord { pos, render, ignore, dirty: true });
        proof {
            assert(self@.outbox =~= old(self)@.outbox);
            old(self)@.lemma_spawned_wf(fresh_record(render, pos, ignore));
        }
        e
    }
}

} // verus!
