use vstd::prelude::*;

use crate::structs::{Direction, Player, Position};

verus! {

/// The fields of `s` between occurrences of `sep`, as `str::split` gives
/// them: one more field than there are separators, empty ones included.
pub open spec fn split(s: Seq<char>, sep: char) -> Seq<Seq<char>>
    decreases s.len(),
{
    if s.len() == 0 {
        seq![Seq::empty()]
    } else {
        let fields = split(s.drop_last(), sep);
        if s.last() == sep {
            fields.push(Seq::empty())
        } else {
            fields.update(fields.len() - 1, fields.last().push(s.last()))
        }
    }
}

pub proof fn lemma_split_nonempty(s: Seq<char>, sep: char)
    ensures
        split(s, sep).len() >= 1,
    decreases s.len(),
{
    if s.len() > 0 {
        lemma_split_nonempty(s.drop_last(), sep);
    }
}

pub proof fn lemma_split_bounds(s: Seq<char>, sep: char)
    ensures
        split(s, sep).len() <= s.len() + 1,
        forall|i: int| 0 <= i < split(s, sep).len() ==> (#[trigger] split(s, sep)[i]).len() <= s.len(),
    decreases s.len(),
{
    if s.len() > 0 {
        lemma_split_bounds(s.drop_last(), sep);
        lemma_split_nonempty(s.drop_last(), sep);
    }
}

pub open spec fn is_digit(c: char) -> bool {
    '0' <= c <= '9'
}

pub open spec fn all_digits(d: Seq<char>) -> bool {
    forall|i: int| 0 <= i < d.len() ==> is_digit(#[trigger] d[i])
}

/// The number a string of decimal digits denotes.
pub open spec fn digits_value(d: Seq<char>) -> int
    decreases d.len(),
{
    if d.len() == 0 {
        0
    } else {
        digits_value(d.drop_last()) * 10 + (d.last() as int - '0' as int)
    }
}

/// The integer a decimal numeral denotes: an optional sign, then one or
/// more digits.
pub open spec fn numeral_value(s: Seq<char>) -> Option<int> {
    if s.len() > 0 && (s[0] == '-' || s[0] == '+') {
        let d = s.drop_first();
        if d.len() > 0 && all_digits(d) {
            Some(if s[0] == '-' { -digits_value(d) } else { digits_value(d) })
        } else {
            None
        }
    } else if s.len() > 0 && all_digits(s) {
        Some(digits_value(s))
    } else {
        None
    }
}

/// A coordinate: a numeral whose value fits in an `i32`.
pub open spec fn coordinate(s: Seq<char>) -> Option<i32> {
    match numeral_value(s) {
        Some(v) => if i32::MIN <= v <= i32::MAX {
            Some(v as i32)
        } else {
            None
        },
        None => None,
    }
}

/// An entry `<id>,<x>,<y>`: exactly three fields, both coordinates numerals.
pub open spec fn player_info(s: Seq<char>) -> Option<(Seq<char>, Position)> {
    let f = split(s, ',');
    if f.len() == 3 && coordinate(f[1]) is Some && coordinate(f[2]) is Some {
        Some((f[0], Position { x: coordinate(f[1])->0, y: coordinate(f[2])->0 }))
    } else {
        None
    }
}

/// The well-formed entries among `parts`, in order; the others are dropped.
pub open spec fn roster_entries(parts: Seq<Seq<char>>) -> Seq<(Seq<char>, Position)>
    decreases parts.len(),
{
    if parts.len() == 0 {
        Seq::empty()
    } else {
        let prev = roster_entries(parts.drop_last());
        match player_info(parts.last()) {
            Some(e) => prev.push(e),
            None => prev,
        }
    }
}

/// The model of a message from the server.
pub enum EventView {
    Roster(Seq<(Seq<char>, Position)>),
    Update(Seq<char>, Position),
    Ignored,
}

/// A message from the server, decoded.
pub enum ServerEvent {
    /// The players the server knows of, with their positions.
    Roster(Vec<(Player, Position)>),
    /// One player's new position.
    Update(Player, Position),
    /// An unknown operation, or a message that carries nothing usable.
    Ignored,
}

impl View for ServerEvent {
    type V = EventView;

    open spec fn view(&self) -> EventView {
        match self {
            ServerEvent::Roster(v) => EventView::Roster(
                v@.map_values(|e: (Player, Position)| (e.0.id@, e.1)),
            ),
            ServerEvent::Update(p, pos) => EventView::Update(p.id@, *pos),
            ServerEvent::Ignored => EventView::Ignored,
        }
    }
}

/// What a datagram `<op>:<payload>` means. The payload is the text between
/// the first and the second colon.
pub open spec fn decoded(s: Seq<char>) -> EventView {
    let parts = split(s, ':');
    if parts.len() < 2 {
        EventView::Ignored
    } else if parts[0] == seq!['c'] {
        EventView::Roster(roster_entries(split(parts[1], ';')))
    } else if parts[0] == seq!['u'] {
        match player_info(parts[1]) {
            Some(e) => EventView::Update(e.0, e.1),
            None => EventView::Ignored,
        }
    } else {
        EventView::Ignored
    }
}

/// The two-letter command that tells the server of a local move.
pub open spec fn command_text(d: Direction) -> Seq<char> {
    match d {
        Direction::Left => seq!['m', 'l'],
        Direction::Right => seq!['m', 'r'],
        Direction::Up => seq!['m', 'u'],
        Direction::Down => seq!['m', 'd'],
    }
}

/// Splits `s` at every `sep`.
pub fn split_fields(s: &str, sep: char) -> (r: Vec<String>)
    ensures
        r@.len() == split(s@, sep).len(),
        forall|i: int| 0 <= i < r@.len() ==> #[trigger] r@[i]@ == split(s@, sep)[i],
{
    let n = s.unicode_len();
    let mut fields: Vec<String> = Vec::new();
    let ghost mut done: Seq<Seq<char>> = Seq::empty();
    let mut start: usize = 0;
    let mut i: usize = 0;
    assert(s@.take(0) =~= Seq::<char>::empty());
    assert(done.push(s@.subrange(0, 0)) =~= seq![Seq::<char>::empty()]);
    while i < n
        invariant
            n == s@.len(),
            start <= i <= n,
            fields@.len() == done.len(),
            forall|j: int| 0 <= j < fields@.len() ==> #[trigger] fields@[j]@ == done[j],
            split(s@.take(i as int), sep) == done.push(s@.subrange(start as int, i as int)),
        decreases n - i,
    {
        let c = s.get_char(i);
        proof {
            let t = s@.take(i as int + 1);
            assert(t.drop_last() =~= s@.take(i as int));
            assert(t.last() == c);
        }
        if c == sep {
            let f = String::from_str(s.substring_char(start, i));
            proof {
                done = done.push(s@.subrange(start as int, i as int));
            }
            fields.push(f);
            start = i + 1;
            assert(s@.subrange(start as int, i as int + 1) =~= Seq::<char>::empty());
        } else {
            assert(s@.subrange(start as int, i as int + 1) =~= s@.subrange(
                start as int,
                i as int,
            ).push(c));
        }
        i = i + 1;
    }
    let last = String::from_str(s.substring_char(start, n));
    proof {
        assert(s@.take(n as int) =~= s@);
        done = done.push(s@.subrange(start as int, n as int));
    }
    fields.push(last);
    fields
}

/// Reads a coordinate: an optional sign and decimal digits whose value fits
/// in an `i32`.
pub fn parse_coordinate(s: &str) -> (r: Option<i32>)
    ensures
        r == coordinate(s@),
{
    let n = s.unicode_len();
    if n == 0 {
        return None;
    }
    let first = s.get_char(0);
    let negative = first == '-';
    let start: usize = if first == '-' || first == '+' {
        1
    } else {
        0
    };
    if start == n {
        return None;
    }
    let ghost d = s@.subrange(start as int, n as int);
    let mut acc: i64 = 0;
    let mut big = false;
    let mut i: usize = start;
    while i < n
        invariant
            n == s@.len(),
            start <= i <= n,
            d == s@.subrange(start as int, n as int),
            0 < n,
            start == (if s@[0] == '-' || s@[0] == '+' { 1usize } else { 0usize }),
            negative == (s@[0] == '-'),
            all_digits(s@.subrange(start as int, i as int)),
            !big ==> acc == digits_value(s@.subrange(start as int, i as int)),
            !big ==> 0 <= acc <= 2147483648,
            big ==> digits_value(s@.subrange(start as int, i as int)) > 2147483648,
        decreases n - i,
    {
        let c = s.get_char(i);
        let ghost sub = s@.subrange(start as int, i as int + 1);
        assert(sub.drop_last() =~= s@.subrange(start as int, i as int));
        if !('0' <= c && c <= '9') {
            assert(!all_digits(d)) by {
                assert(d[i - start] == c);
            }
            if start == 1 {
                assert(s@.drop_first() =~= d);
            } else {
                assert(s@ =~= d);
            }
            return None;
        }
        let digit = (c as u32 - '0' as u32) as i64;
        if !big {
            let next = acc * 10 + digit;
            if next > 2147483648 {
                big = true;
            } else {
                acc = next;
            }
        } else {
            assert(digits_value(sub) >= digits_value(sub.drop_last())) by (nonlinear_arith)
                requires
                    digits_value(sub) == digits_value(sub.drop_last()) * 10 + digit,
                    digits_value(sub.drop_last()) > 2147483648,
                    0 <= digit,
            ;
        }
        assert(all_digits(sub)) by {
            assert forall|j: int| 0 <= j < sub.len() implies is_digit(#[trigger] sub[j]) by {
                if j < sub.len() - 1 {
                    assert(sub[j] == s@.subrange(start as int, i as int)[j]);
                }
            }
        }
        i = i + 1;
    }
    assert(d =~= s@.subrange(start as int, i as int));
    if start == 1 {
        assert(s@.drop_first() =~= d);
    } else {
        assert(s@ =~= d);
    }
    if big {
        None
    } else if negative {
        Some((-acc) as i32)
    } else if acc <= 2147483647 {
        Some(acc as i32)
    } else {
        None
    }
}

/// Reads one entry `<id>,<x>,<y>`. Anything else, a wrong number of fields
/// or a coordinate that is no `i32` numeral, gives `None`.
pub fn get_player_info(info: &str) -> (r: Option<(Player, Position)>)
    ensures
        r is Some <==> player_info(info@) is Some,
        r matches Some(e) ==> (e.0.id@, e.1) == player_info(info@)->0,
{
    let f = split_fields(info, ',');
    if f.len() != 3 {
        return None;
    }
    let x = parse_coordinate(f[1].as_str());
    let y = parse_coordinate(f[2].as_str());
    match (x, y) {
        (Some(x), Some(y)) => {
            let id = String::from_str(f[0].as_str());
            Some((Player { id }, Position { x, y }))
        },
        _ => None,
    }
}

/// Returns whether `s` is the one-letter text `c`.
fn is_op(s: &str, c: char) -> (r: bool)
    ensures
        r == (s@ == seq![c]),
{
    let n = s.unicode_len();
    if n != 1 {
        assert(s@.len() != seq![c].len());
        return false;
    }
    let first = s.get_char(0);
    if first == c {
        assert(s@ =~= seq![c]);
        true
    } else {
        assert(s@[0] != seq![c][0]);
        false
    }
}

/// Decodes a datagram from the server. Unknown operations and malformed
/// messages decode to `Ignored`; malformed roster entries are dropped.
pub fn decode(data: &str) -> (r: ServerEvent)
    ensures
        r@ == decoded(data@),
{
    let parts = split_fields(data, ':');
    if parts.len() < 2 {
        return ServerEvent::Ignored;
    }
    if is_op(parts[0].as_str(), 'c') {
        let entries = split_fields(parts[1].as_str(), ';');
        let ghost es = split(parts[1]@, ';');
        let mut roster: Vec<(Player, Position)> = Vec::new();
        let mut i: usize = 0;
        while i < entries.len()
            invariant
                entries@.len() == es.len(),
                forall|j: int| 0 <= j < entries@.len() ==> #[trigger] entries@[j]@ == es[j],
                i <= entries@.len(),
                roster@.map_values(|e: (Player, Position)| (e.0.id@, e.1)) == roster_entries(
                    es.take(i as int),
                ),
            decreases entries.len() - i,
        {
            let ghost before = roster@;
            assert(es.take(i as int + 1).drop_last() =~= es.take(i as int));
            assert(es.take(i as int + 1).last() == entries@[i as int]@);
            match get_player_info(entries[i].as_str()) {
                Some(e) => {
                    roster.push(e);
                    assert(roster@.map_values(|e: (Player, Position)| (e.0.id@, e.1))
                        =~= before.map_values(|e: (Player, Position)| (e.0.id@, e.1)).push(
                        (e.0.id@, e.1),
                    ));
                },
                None => {},
            }
            i = i + 1;
        }
        assert(es.take(entries.len() as int) =~= es);
        ServerEvent::Roster(roster)
    } else if is_op(parts[0].as_str(), 'u') {
        match get_player_info(parts[1].as_str()) {
            Some((p, pos)) => ServerEvent::Update(p, pos),
            None => ServerEvent::Ignored,
        }
    } else {
        ServerEvent::Ignored
    }
}

/// The text of the command that tells the server of a local move.
pub fn encode_command(d: Direction) -> (r: String)
    ensures
        r@ == command_text(d),
{
    match d {
        Direction::Left => {
            proof {
                reveal_strlit("ml");
            }
            String::from_str("ml")
        },
        Direction::Right => {
            proof {
                reveal_strlit("mr");
            }
            String::from_str("mr")
        },
        Direction::Up => {
            proof {
                reveal_strlit("mu");
            }
            String::from_str("mu")
        },
        Direction::Down => {
            proof {
                reveal_strlit("md");
            }
            String::from_str("md")
        },
    }
}

} // verus!
