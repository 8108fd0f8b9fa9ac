use tileworld::screen::{frame_line, render_world, Screen, SCREEN_SIZE_X, SCREEN_SIZE_Y};
use tileworld::square::SquareType::{self, Air, Grass, Player};
use tileworld::vector::Vector2;
use tileworld::world::{World, WORLD_SIZE_X, WORLD_SIZE_Y};

fn kinds(screen: &Screen) -> Vec<Vec<SquareType>> {
    let mut rows = Vec::new();
    for row in 0..screen.size_y() {
        let mut kinds = Vec::new();
        for col in 0..screen.size_x() {
            kinds.push(screen.square(row, col).squaretype());
        }
        rows.push(kinds);
    }
    rows
}

fn checkerboard() -> World {
    World::new(vec![Grass, Air, Air, Grass], 2, 2).unwrap()
}

/// The text of a painted cell without its escape sequences, if it has any.
fn bare(painted: &str) -> &str {
    match painted.strip_prefix("\u{1b}[") {
        Some(rest) => {
            let (_, text) = rest.split_once('m').unwrap();
            text.strip_suffix("\u{1b}[0m").unwrap()
        }
        None => painted,
    }
}

#[test]
fn a_new_screen_is_all_air() {
    let screen = Screen::new(3, 2);
    assert_eq!(screen.size_x(), 3);
    assert_eq!(screen.size_y(), 2);
    assert_eq!(kinds(&screen), vec![vec![Air; 3]; 2]);
}

#[test]
fn a_screen_may_be_empty() {
    let screen = Screen::new(0, 0);
    assert_eq!(kinds(&screen), Vec::<Vec<SquareType>>::new());
    assert_eq!(screen.draw(), Vec::<String>::new());
    let narrow = Screen::new(0, 2);
    assert_eq!(narrow.draw(), vec![String::new(), String::new()]);
}

#[test]
fn init_clears_the_screen_and_keeps_its_size() {
    let world = World::new(vec![Grass; 4], 2, 2).unwrap();
    let mut screen = render_world(Screen::new(2, 2), &world, Vector2::new());
    assert_eq!(kinds(&screen), vec![vec![Grass; 2]; 2]);
    screen.init();
    assert_eq!(screen.size_x(), 2);
    assert_eq!(screen.size_y(), 2);
    assert_eq!(kinds(&screen), vec![vec![Air; 2]; 2]);
    assert_eq!(screen, Screen::new(2, 2));
}

#[test]
fn the_camera_at_the_origin_shows_the_world_itself() {
    let screen = render_world(Screen::new(2, 2), &checkerboard(), Vector2 { x: 0, y: 0 });
    assert_eq!(kinds(&screen), vec![vec![Grass, Air], vec![Air, Grass]]);
}

#[test]
fn a_camera_fully_off_the_map_shows_only_air() {
    let world = checkerboard();
    for camera in [
        Vector2 { x: -2, y: -2 },
        Vector2 { x: 2, y: 0 },
        Vector2 { x: 0, y: 2 },
        Vector2 { x: -2, y: 1 },
        Vector2 { x: i16::MIN, y: i16::MIN },
        Vector2 { x: i16::MAX, y: i16::MAX },
        Vector2 { x: i16::MIN, y: i16::MAX },
    ] {
        let screen = render_world(Screen::new(2, 2), &world, camera);
        assert_eq!(kinds(&screen), vec![vec![Air; 2]; 2]);
    }
}

#[test]
fn a_camera_one_cell_up_and_left_shows_the_corner_of_the_world() {
    // Only the bottom right cell of the window lies over the world, over its
    // top left square.
    let screen = render_world(Screen::new(2, 2), &checkerboard(), Vector2 { x: -1, y: -1 });
    assert_eq!(kinds(&screen), vec![vec![Air, Air], vec![Air, Grass]]);
}

#[test]
fn a_window_partly_off_the_map_shows_air_there() {
    let world = checkerboard();
    let right = render_world(Screen::new(2, 2), &world, Vector2 { x: 1, y: 0 });
    assert_eq!(kinds(&right), vec![vec![Air, Air], vec![Grass, Air]]);
    let below = render_world(Screen::new(2, 2), &world, Vector2 { x: 0, y: 1 });
    assert_eq!(kinds(&below), vec![vec![Air, Grass], vec![Air, Air]]);
    let wide = render_world(Screen::new(4, 3), &world, Vector2 { x: -1, y: -1 });
    assert_eq!(
        kinds(&wide),
        vec![vec![Air, Air, Air, Air], vec![Air, Grass, Air, Air], vec![Air, Air, Grass, Air]]
    );
}

#[test]
fn every_cell_shows_the_square_under_it() {
    let mut tiles = Vec::new();
    for index in 0..25 {
        tiles.push(if index % 2 == 0 || index % 7 == 0 { Grass } else { Air });
    }
    let world = World::new(tiles.clone(), 5, 5).unwrap();
    for cy in -4..8i16 {
        for cx in -4..8i16 {
            let screen = render_world(Screen::new(3, 4), &world, Vector2 { x: cx, y: cy });
            for row in 0..4usize {
                for col in 0..3usize {
                    let x = cx as i64 + col as i64;
                    let y = cy as i64 + row as i64;
                    let expected = if (0..5).contains(&x) && (0..5).contains(&y) {
                        tiles[(x + y * 5) as usize]
                    } else {
                        Air
                    };
                    assert_eq!(screen.square(row, col).squaretype(), expected);
                }
            }
        }
    }
}

#[test]
fn rendering_twice_gives_the_same_buffer() {
    let world = checkerboard();
    let camera = Vector2 { x: -1, y: 0 };
    let first = render_world(Screen::new(3, 3), &world, camera);
    let second = render_world(first.clone(), &world, camera);
    assert_eq!(first, second);
    let third = render_world(Screen::new(3, 3), &world, camera);
    assert_eq!(second, third);
    for row in 0..3 {
        for col in 0..3 {
            assert_eq!(first.square(row, col).color(), third.square(row, col).color());
            assert_eq!(first.square(row, col).ascii(), third.square(row, col).ascii());
        }
    }
}

#[test]
fn rendering_leaves_no_stale_square() {
    let world = checkerboard();
    let stale =
        render_world(Screen::new(2, 2), &world, Vector2::new()).place_player(Vector2 { x: 1, y: 0 });
    let fresh = render_world(stale, &world, Vector2 { x: 5, y: 5 });
    assert_eq!(kinds(&fresh), vec![vec![Air; 2]; 2]);
}

#[test]
fn the_default_window_fits_the_default_world() {
    assert_eq!((WORLD_SIZE_X, WORLD_SIZE_Y), (50, 50));
    assert_eq!((SCREEN_SIZE_X, SCREEN_SIZE_Y), (40, 40));
    let world =
        World::new(vec![Grass; WORLD_SIZE_X * WORLD_SIZE_Y], WORLD_SIZE_X, WORLD_SIZE_Y).unwrap();
    let screen =
        render_world(Screen::new(SCREEN_SIZE_X, SCREEN_SIZE_Y), &world, Vector2 { x: 20, y: 45 });
    assert_eq!(screen.square(4, 29).squaretype(), Grass);
    assert_eq!(screen.square(5, 29).squaretype(), Air);
    assert_eq!(screen.square(4, 30).squaretype(), Air);
    assert_eq!(screen.square(0, 0).squaretype(), Grass);
}

#[test]
fn the_player_marker_covers_the_square_at_the_anchor() {
    let screen = render_world(Screen::new(2, 2), &checkerboard(), Vector2::new());
    let marked = screen.place_player(Vector2 { x: 1, y: 0 });
    assert_eq!(kinds(&marked), vec![vec![Grass, Player], vec![Air, Grass]]);
    let twice = marked.place_player(Vector2 { x: 0, y: 1 });
    assert_eq!(kinds(&twice), vec![vec![Grass, Player], vec![Player, Grass]]);
}

#[test]
fn an_anchor_off_the_screen_writes_nothing() {
    let world = checkerboard();
    let plain = render_world(Screen::new(2, 2), &world, Vector2::new());
    for anchor in [
        Vector2 { x: -1, y: 0 },
        Vector2 { x: 0, y: -1 },
        Vector2 { x: 2, y: 0 },
        Vector2 { x: 0, y: 2 },
        Vector2 { x: i16::MIN, y: i16::MIN },
        Vector2 { x: i16::MAX, y: i16::MAX },
    ] {
        let same = plain.clone().place_player(anchor);
        assert_eq!(same, plain);
    }
    let empty = Screen::new(0, 0).place_player(Vector2::new());
    assert_eq!(empty, Screen::new(0, 0));
}

#[test]
fn frame_line_joins_the_cells() {
    let cells =
        vec![String::from("GG"), String::from("\u{1b}[92mAA\u{1b}[0m"), String::from("PP")];
    assert_eq!(frame_line(&cells), "GG\u{1b}[92mAA\u{1b}[0mPP");
    assert_eq!(frame_line(&Vec::new()), "");
    assert_eq!(frame_line(&vec![String::new(), String::from("x"), String::new()]), "x");
}

#[test]
fn a_frame_has_one_line_for_each_row() {
    let screen = render_world(Screen::new(3, 2), &checkerboard(), Vector2::new())
        .place_player(Vector2 { x: 2, y: 1 });
    let lines = screen.draw();
    assert_eq!(lines.len(), 2);
    // Whatever the terminal supports, the glyphs stand in the line in order.
    let glyphs = [["GG", "AA", "AA"], ["AA", "GG", "PP"]];
    for (line, row) in lines.iter().zip(glyphs) {
        let mut rest = line.as_str();
        for glyph in row {
            let at = rest.find(glyph).unwrap();
            rest = &rest[at + glyph.len()..];
        }
    }
}

#[test]
fn glyphs_are_painted_only_where_colour_is_on() {
    let screen = render_world(Screen::new(2, 1), &checkerboard(), Vector2::new());

    colored::control::set_override(false);
    assert_eq!(screen.draw(), vec![String::from("GGAA")]);

    colored::control::set_override(true);
    let lines = screen.draw();
    colored::control::unset_override();
    assert_eq!(lines.len(), 1);
    let line = lines[0].as_str();
    assert_ne!(line, "GGAA");
    assert!(line.starts_with("\u{1b}["));
    assert!(line.ends_with("AA\u{1b}[0m"));
    // Each cell stands between its own pair of escape sequences.
    let (first, second) = line.split_at(line.find("\u{1b}[0m").unwrap() + 4);
    assert_eq!(bare(first), "GG");
    assert_eq!(bare(second), "AA");
    assert_eq!(line.matches('\u{1b}').count(), 4);
}
