use sync_client::net::{apply_event, process_server_data};
use sync_client::player::{
    create_player, direction_delta, get_player_entry, input_within_range, move_player,
    move_player_delta, player_input,
};
use sync_client::protocol::{decode, encode_command, get_player_info, parse_coordinate, split_fields, ServerEvent};
use sync_client::structs::{Color, Direction, DrawCall, Entity, Player, Position, Renderable, State};
use sync_client::utils::{draw_ascii, render_glyph};

fn player(id: &str) -> Player {
    Player { id: String::from(id) }
}

fn white_at(x: i32, y: i32) -> DrawCall {
    DrawCall { x, y, glyph: '@', fg: Color::white(), bg: Color::black() }
}

fn world_with_me() -> State {
    let mut gs = State::new();
    create_player(&mut gs, player("me"), Position { x: 0, y: 0 });
    gs
}

#[test]
fn malformed_roster_entry_is_dropped() {
    match decode("c:bad,1;x,2,3") {
        ServerEvent::Roster(entries) => {
            assert_eq!(entries.len(), 1);
            assert_eq!(entries[0].0.id, "x");
            assert_eq!(entries[0].1, Position { x: 2, y: 3 });
        }
        _ => panic!("expected a roster"),
    }
}

#[test]
fn non_numeric_coordinate_is_dropped() {
    match decode("c:a,1,zz;b,4,-5;c,1,2,3") {
        ServerEvent::Roster(entries) => {
            assert_eq!(entries.len(), 1);
            assert_eq!(entries[0].0.id, "b");
            assert_eq!(entries[0].1, Position { x: 4, y: -5 });
        }
        _ => panic!("expected a roster"),
    }
}

#[test]
fn unknown_op_is_ignored() {
    assert!(matches!(decode("z:whatever"), ServerEvent::Ignored));
    let mut gs = world_with_me();
    process_server_data(&mut gs, String::from("z:whatever"));
    assert_eq!(gs.entities.len(), 1);
    assert_eq!(gs.position_of("me"), Some(Position { x: 0, y: 0 }));
    assert_eq!(gs.players.len(), 1);
}

#[test]
fn message_without_colon_is_ignored() {
    assert!(matches!(decode("connect"), ServerEvent::Ignored));
    assert!(matches!(decode(""), ServerEvent::Ignored));
}

#[test]
fn malformed_update_is_ignored() {
    assert!(matches!(decode("u:alice,1"), ServerEvent::Ignored));
    assert!(matches!(decode("u:alice,1,x"), ServerEvent::Ignored));
}

#[test]
fn empty_roster_decodes_to_no_entries() {
    match decode("c:") {
        ServerEvent::Roster(entries) => assert_eq!(entries.len(), 0),
        _ => panic!("expected a roster"),
    }
}

#[test]
fn payload_stops_at_second_colon() {
    match decode("u:alice,1,2:junk") {
        ServerEvent::Update(p, pos) => {
            assert_eq!(p.id, "alice");
            assert_eq!(pos, Position { x: 1, y: 2 });
        }
        _ => panic!("expected an update"),
    }
}

#[test]
fn four_left_moves() {
    let mut gs = world_with_me();
    for _ in 0..4 {
        player_input(&mut gs, Some(Direction::Left));
    }
    assert_eq!(gs.position_of("me"), Some(Position { x: -4, y: 0 }));
    let sent = gs.take_outbox();
    assert_eq!(sent, vec!["ml", "ml", "ml", "ml"]);
    assert!(gs.outbox.is_empty());
}

#[test]
fn each_direction_moves_and_queues_its_command() {
    let mut gs = world_with_me();
    player_input(&mut gs, Some(Direction::Right));
    player_input(&mut gs, Some(Direction::Down));
    player_input(&mut gs, Some(Direction::Down));
    player_input(&mut gs, Some(Direction::Up));
    player_input(&mut gs, None);
    assert_eq!(gs.position_of("me"), Some(Position { x: 1, y: 1 }));
    assert_eq!(gs.take_outbox(), vec!["mr", "md", "md", "mu"]);
}

#[test]
fn move_without_local_player_still_queues_command() {
    let mut gs = State::new();
    player_input(&mut gs, Some(Direction::Up));
    assert_eq!(gs.position_of("me"), None);
    assert_eq!(gs.take_outbox(), vec!["mu"]);
}

#[test]
fn dirty_flag_discipline() {
    let mut gs = State::new();
    create_player(&mut gs, player("p"), Position { x: 3, y: 4 });
    assert!(gs.entities[0].dirty);
    assert_eq!(gs.render_set(), vec![white_at(3, 4)]);
    assert!(!gs.entities[0].dirty);
    assert_eq!(gs.render_set(), vec![]);
    process_server_data(&mut gs, String::from("u:p,7,8"));
    assert!(gs.entities[0].dirty);
    assert_eq!(gs.render_set(), vec![white_at(7, 8)]);
    assert_eq!(gs.render_set(), vec![]);
}

#[test]
fn end_to_end_roster_then_update() {
    let mut gs = State::new();
    process_server_data(&mut gs, String::from("c:alice,5,5;bob,2,9"));
    assert_eq!(gs.position_of("alice"), Some(Position { x: 5, y: 5 }));
    assert_eq!(gs.position_of("bob"), Some(Position { x: 2, y: 9 }));
    process_server_data(&mut gs, String::from("u:alice,6,5"));
    assert_eq!(gs.position_of("alice"), Some(Position { x: 6, y: 5 }));
    assert_eq!(gs.position_of("bob"), Some(Position { x: 2, y: 9 }));
}

#[test]
fn roster_creates_only_absent_players() {
    let mut gs = State::new();
    process_server_data(&mut gs, String::from("c:alice,1,1"));
    process_server_data(&mut gs, String::from("c:alice,9,9;bob,3,4;bob,7,7"));
    assert_eq!(gs.position_of("alice"), Some(Position { x: 1, y: 1 }));
    assert_eq!(gs.position_of("bob"), Some(Position { x: 3, y: 4 }));
    assert_eq!(gs.entities.len(), 2);
    assert_eq!(gs.players.len(), 2);
}

#[test]
fn update_creates_or_overwrites() {
    let mut gs = State::new();
    process_server_data(&mut gs, String::from("u:carol,-3,12"));
    assert_eq!(gs.position_of("carol"), Some(Position { x: -3, y: 12 }));
    process_server_data(&mut gs, String::from("u:carol,4,4"));
    assert_eq!(gs.position_of("carol"), Some(Position { x: 4, y: 4 }));
    assert_eq!(gs.entities.len(), 1);
}

#[test]
fn update_twice_equals_once() {
    let mut once = State::new();
    let mut twice = State::new();
    process_server_data(&mut once, String::from("u:dan,2,2"));
    process_server_data(&mut twice, String::from("u:dan,2,2"));
    process_server_data(&mut twice, String::from("u:dan,2,2"));
    assert_eq!(once.position_of("dan"), twice.position_of("dan"));
    assert_eq!(once.entities, twice.entities);
}

#[test]
fn coordinates_parse_as_i32() {
    assert_eq!(parse_coordinate("0"), Some(0));
    assert_eq!(parse_coordinate("+5"), Some(5));
    assert_eq!(parse_coordinate("-17"), Some(-17));
    assert_eq!(parse_coordinate("007"), Some(7));
    assert_eq!(parse_coordinate("2147483647"), Some(i32::MAX));
    assert_eq!(parse_coordinate("-2147483648"), Some(i32::MIN));
    assert_eq!(parse_coordinate("2147483648"), None);
    assert_eq!(parse_coordinate("-2147483649"), None);
    assert_eq!(parse_coordinate("99999999999999999999"), None);
    assert_eq!(parse_coordinate(""), None);
    assert_eq!(parse_coordinate("-"), None);
    assert_eq!(parse_coordinate("1a"), None);
    assert_eq!(parse_coordinate(" 1"), None);
}

#[test]
fn split_keeps_empty_fields() {
    assert_eq!(split_fields("a,,b,", ','), vec!["a", "", "b", ""]);
    assert_eq!(split_fields("", ','), vec![""]);
    assert_eq!(split_fields("abc", ','), vec!["abc"]);
}

#[test]
fn player_info_needs_three_fields() {
    let (p, pos) = get_player_info("zed,10,-2").unwrap();
    assert_eq!(p.id, "zed");
    assert_eq!(pos, Position { x: 10, y: -2 });
    assert!(get_player_info("zed,10").is_none());
    assert!(get_player_info("zed,10,2,3").is_none());
    assert!(get_player_info("zed,1.5,2").is_none());
}

#[test]
fn commands_encode_to_two_letters() {
    assert_eq!(encode_command(Direction::Left), "ml");
    assert_eq!(encode_command(Direction::Right), "mr");
    assert_eq!(encode_command(Direction::Up), "mu");
    assert_eq!(encode_command(Direction::Down), "md");
}

#[test]
fn registry_lookup_and_direct_moves() {
    let mut gs = State::new();
    assert_eq!(get_player_entry(&gs, String::from("eve")), None);
    create_player(&mut gs, player("eve"), Position { x: 1, y: 2 });
    assert_eq!(get_player_entry(&gs, String::from("eve")), Some(Entity { index: 0 }));
    move_player(&mut gs, String::from("eve"), 8, 9);
    assert_eq!(gs.position_of("eve"), Some(Position { x: 8, y: 9 }));
    move_player_delta(&mut gs, String::from("eve"), -2, 3);
    assert_eq!(gs.position_of("eve"), Some(Position { x: 6, y: 12 }));
    move_player(&mut gs, String::from("nobody"), 1, 1);
    move_player_delta(&mut gs, String::from("nobody"), 1, 1);
    assert_eq!(gs.entities.len(), 1);
    assert_eq!(gs.players.len(), 1);
}

#[test]
fn ignored_entities_are_never_drawn() {
    let mut gs = State::new();
    let r = Renderable { glyph: '#', fg: Color::white(), bg: Color::black() };
    gs.spawn(r, Position { x: 1, y: 1 }, true);
    gs.spawn(r, Position { x: 2, y: 2 }, false);
    let drawn = gs.render_set();
    assert_eq!(drawn, vec![DrawCall { x: 2, y: 2, glyph: '#', fg: Color::white(), bg: Color::black() }]);
}

#[test]
fn scenery_glyphs() {
    let mut gs = State::new();
    render_glyph(&mut gs, ' ', 0, 0, Color::white(), Color::black());
    assert_eq!(gs.entities.len(), 0);
    render_glyph(&mut gs, '*', 4, 5, Color::white(), Color::black());
    assert_eq!(gs.entities.len(), 1);
    assert_eq!(gs.entities[0].pos, Position { x: 4, y: 5 });
    assert_eq!(gs.entities[0].render.glyph, '*');
    let star = Renderable { glyph: '.', fg: Color { r: 10, g: 20, b: 30 }, bg: Color::black() };
    gs.extend(vec![(star, Position { x: 0, y: 1 }), (star, Position { x: 2, y: 3 })]);
    assert_eq!(gs.entities.len(), 3);
    assert_eq!(gs.entities[2].pos, Position { x: 2, y: 3 });
    assert_eq!(gs.entities[2].render, star);
    assert_eq!(gs.players.len(), 0);
}

#[test]
fn tick_orders_network_input_render() {
    let mut gs = world_with_me();
    gs.render_set();
    let drawn = gs.tick(Some(String::from("u:me,10,10")), Some(Direction::Right));
    assert_eq!(drawn, vec![white_at(11, 10)]);
    assert_eq!(gs.take_outbox(), vec!["mr"]);
    assert_eq!(gs.tick(None, None), vec![]);
}

#[test]
fn apply_decoded_event() {
    let mut gs = State::new();
    apply_event(&mut gs, decode("c:a,1,2;b,3,4"));
    let drawn = gs.render_set();
    assert_eq!(drawn, vec![white_at(1, 2), white_at(3, 4)]);
    assert_eq!(gs.render_set(), vec![]);
}

fn expected_art(ascii: &str, x0: i32, y0: i32) -> Vec<(char, i32, i32)> {
    let mut out = Vec::new();
    for (i, line) in ascii.lines().enumerate() {
        for (j, c) in line.chars().enumerate() {
            if c != ' ' {
                out.push((c, j as i32 + x0, i as i32 + y0));
            }
        }
    }
    out
}

fn drawn_art(gs: &State) -> Vec<(char, i32, i32)> {
    gs.entities.iter().map(|e| (e.render.glyph, e.pos.x, e.pos.y)).collect()
}

#[test]
fn ascii_art_follows_lines() {
    for art in ["ab\n c\r\n\n", "", "\n", "x\r", "  /\\\n /  \\\n/____\\\n", "a\r\nb\rc\n"] {
        let mut gs = State::new();
        draw_ascii(&mut gs, art, 3, -2);
        assert_eq!(drawn_art(&gs), expected_art(art, 3, -2), "art {:?}", art);
        assert!(gs.entities.iter().all(|e| e.dirty && !e.ignore));
    }
}

#[test]
fn ascii_art_positions() {
    let mut gs = State::new();
    draw_ascii(&mut gs, "ab\n c", 10, 20);
    assert_eq!(drawn_art(&gs), vec![('a', 10, 20), ('b', 11, 20), ('c', 11, 21)]);
    assert_eq!(gs.entities[0].render.fg, Color::white());
    assert_eq!(gs.entities[0].render.bg, Color::black());
}

#[test]
fn input_range_check() {
    let mut gs = State::new();
    assert!(input_within_range(&gs, Some(Direction::Left)));
    create_player(&mut gs, player("me"), Position { x: i32::MIN, y: i32::MAX });
    assert!(!input_within_range(&gs, Some(Direction::Left)));
    assert!(!input_within_range(&gs, Some(Direction::Down)));
    assert!(input_within_range(&gs, Some(Direction::Right)));
    assert!(input_within_range(&gs, Some(Direction::Up)));
    assert!(input_within_range(&gs, None));
    assert_eq!(direction_delta(Direction::Up), (0, -1));
}
