use vstd::prelude::*;

use crate::protocol::{lemma_split_bounds, lemma_split_nonempty, split, split_fields};
use crate::structs::{fresh_record, Color, EntityRecord, Position, Renderable, State};

verus! {

/// The record of a scenery item added to the store.
pub open spec fn scenery_record(item: (Renderable, Position)) -> EntityRecord {
    fresh_record(item.0, item.1, false)
}

/// Whether field `i` of `f` was ended by a line feed.
pub open spec fn ends_with_cr(f: Seq<Seq<char>>, i: int) -> bool {
    i < f.len() - 1 && f[i].len() > 0 && f[i].last() == '\r'
}

/// The lines of `s` as `str::lines` gives them: the text between line
/// feeds, without a carriage return that stands right before a line feed,
/// and with no empty line after a final line feed.
pub open spec fn text_lines(s: Seq<char>) -> Seq<Seq<char>> {
    let f = split(s, '\n');
    let n: int = if f.last().len() == 0 { f.len() - 1 } else { f.len() as int };
    Seq::new(n as nat, |i: int| if ends_with_cr(f, i) { f[i].drop_last() } else { f[i] })
}

/// The white-on-black scenery glyph `c` at `(x, y)`.
pub open spec fn art_record(c: char, x: int, y: int) -> EntityRecord {
    fresh_record(
        Renderable { glyph: c, fg: Color { r: 255, g: 255, b: 255 }, bg: Color { r: 0, g: 0, b: 0 } },
        Position { x: x as i32, y: y as i32 },
        false,
    )
}

/// The glyphs of one line of art whose first character stands at `(x0, y)`;
/// spaces are left out.
pub open spec fn row_records(line: Seq<char>, x0: int, y: int) -> Seq<EntityRecord>
    decreases line.len(),
{
    if line.len() == 0 {
        Seq::empty()
    } else {
        let prev = row_records(line.drop_last(), x0, y);
        if line.last() != ' ' {
            prev.push(art_record(line.last(), x0 + line.len() - 1, y))
        } else {
            prev
        }
    }
}

/// The glyphs of lines of art whose top left corner stands at `(x0, y0)`,
/// row by row.
pub open spec fn art_records(lines: Seq<Seq<char>>, x0: int, y0: int) -> Seq<EntityRecord>
    decreases lines.len(),
{
    if lines.len() == 0 {
        Seq::empty()
    } else {
        art_records(lines.drop_last(), x0, y0) + row_records(lines.last(), x0, y0 + lines.len() - 1)
    }
}

/// Adds one glyph of scenery at `(x, y)`; a space adds nothing.
pub fn render_glyph(gs: &mut State, c: char, x: i32, y: i32, fg: Color, bg: Color)
    requires
        old(gs)@.wf(),
    ensures
        final(gs)@ == (if c != ' ' {
            old(gs)@.spawned(fresh_record(Renderable { glyph: c, fg, bg }, Position { x, y }, false))
        } else {
            old(gs)@
        }),
        final(gs)@.wf(),
{
    if c != ' ' {
        gs.spawn(Renderable { glyph: c, fg, bg }, Position { x, y }, false);
    }
}

impl State {
    /// Adds scenery items to the store, in order.
    pub fn extend(&mut self, items: Vec<(Renderable, Position)>)
        requires
            old(self)@.wf(),
        ensures
            final(self)@.entities == old(self)@.entities + items@.map_values(
                |item: (Renderable, Position)| scenery_record(item),
            ),
            final(self)@.players == old(self)@.players,
            final(self)@.outbox == old(self)@.outbox,
            final(self)@.wf(),
    {
        let ghost m = self@;
        let mut i: usize = 0;
        while i < items.len()
            invariant
                i <= items@.len(),
                self@.entities == m.entities + items@.take(i as int).map_values(
                    |item: (Renderable, Position)| scenery_record(item),
                ),
                self@.players == m.players,
                self@.outbox == m.outbox,
                self@.wf(),
            decreases items.len() - i,
        {
            let ghost before = self@.entities;
            let (render, pos) = items[i];
            self.spawn(render, pos, false);
            assert(items@.take(i as int + 1) =~= items@.take(i as int).push(items@[i as int]));
            assert(self@.entities =~= m.entities + items@.take(i as int + 1).map_values(
                |item: (Renderable, Position)| scenery_record(item),
            ));
            i = i + 1;
        }
        assert(items@.take(items.len() as int) =~= items@);
    }
}

/// Adds multi-line ASCII art as scenery, its top left corner at
/// `(x_offset, y_offset)`; spaces add nothing.
pub fn draw_ascii(gs: &mut State, ascii: &str, x_offset: i32, y_offset: i32)
    requires
        old(gs)@.wf(),
        ascii@.len() <= i32::MAX,
        x_offset + ascii@.len() <= i32::MAX,
        y_offset + ascii@.len() <= i32::MAX,
    ensures
        final(gs)@.entities == old(gs)@.entities + art_records(text_lines(ascii@), x_offset as int, y_offset as int),
        final(gs)@.players == old(gs)@.players,
        final(gs)@.outbox == old(gs)@.outbox,
        final(gs)@.wf(),
{
    let ghost m = gs@;
    let f = split_fields(ascii, '\n');
    let ghost sf = split(ascii@, '\n');
    let ghost lines = text_lines(ascii@);
    proof {
        lemma_split_nonempty(ascii@, '\n');
        lemma_split_bounds(ascii@, '\n');
    }
    let n: usize = if f[f.len() - 1].unicode_len() == 0 {
        f.len() - 1
    } else {
        f.len()
    };
    assert(n == lines.len());
    let mut i: usize = 0;
    while i < n
        invariant
            n == lines.len(),
            lines == text_lines(ascii@),
            sf == split(ascii@, '\n'),
            f@.len() == sf.len(),
            forall|k: int| 0 <= k < f@.len() ==> #[trigger] f@[k]@ == sf[k],
            forall|k: int| 0 <= k < sf.len() ==> (#[trigger] sf[k]).len() <= ascii@.len(),
            sf.len() <= ascii@.len() + 1,
            n <= f@.len(),
            i <= n,
            ascii@.len() <= i32::MAX,
            x_offset + ascii@.len() <= i32::MAX,
            y_offset + ascii@.len() <= i32::MAX,
            gs@.entities == m.entities + art_records(lines.take(i as int), x_offset as int, y_offset as int),
            gs@.players == m.players,
            gs@.outbox == m.outbox,
            gs@.wf(),
        decreases n - i,
    {
        let line = f[i].as_str();
        let full = line.unicode_len();
        let cut = i + 1 < f.len() && full > 0 && line.get_char(full - 1) == '\r';
        let len: usize = if cut {
            full - 1
        } else {
            full
        };
        let ghost row = lines[i as int];
        assert(row =~= line@.take(len as int));
        let ghost base = gs@.entities;
        let mut j: usize = 0;
        while j < len
            invariant
                row == line@.take(len as int),
                len <= line@.len(),
                line@.len() <= ascii@.len(),
                i < n,
                n <= ascii@.len() + 1,
                j <= len,
                ascii@.len() <= i32::MAX,
                x_offset + ascii@.len() <= i32::MAX,
                y_offset + ascii@.len() <= i32::MAX,
                gs@.entities == base + row_records(row.take(j as int), x_offset as int, y_offset + i),
                gs@.players == m.players,
                gs@.outbox == m.outbox,
                gs@.wf(),
            decreases len - j,
        {
            let c = line.get_char(j);
            assert(row.take(j as int + 1).drop_last() =~= row.take(j as int));
            assert(row.take(j as int + 1).last() == c);
            render_glyph(gs, c, j as i32 + x_offset, i as i32 + y_offset, Color::white(), Color::black());
            assert(gs@.entities =~= base + row_records(row.take(j as int + 1), x_offset as int, y_offset + i));
            j = j + 1;
        }
        assert(row.take(len as int) =~= row);
        assert(lines.take(i as int + 1).drop_last() =~= lines.take(i as int));
        assert(gs@.entities =~= m.entities + art_records(lines.take(i as int + 1), x_offset as int, y_offset as int));
        i = i + 1;
    }
    assert(lines.take(n as int) =~= lines);
}

} // verus!
