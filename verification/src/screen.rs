//! The screen buffer: what is shown this frame, how the world is projected
//! onto it through the camera, and how it becomes lines of coloured text.

use colored::Colorize;
use vstd::prelude::*;
use vstd::string::*;

use crate::square::{glyph_of, square_of, Rgb, Square, SquareType, SquareView};
use crate::vector::Vector2;
use crate::world::{flat_index, is_terrain, World, WorldView};

verus! {

/// The number of columns of the screen that is played on.
pub const SCREEN_SIZE_X: usize = 40;

/// The number of rows of the screen that is played on.
pub const SCREEN_SIZE_Y: usize = 40;

/// What a `Screen` is: its squares row by row, and its size.
pub struct ScreenView {
    pub pixels: Seq<Seq<SquareView>>,
    pub size_x: nat,
    pub size_y: nat,
}

impl ScreenView {
    /// There are `size_y` rows of `size_x` squares, and each square looks as
    /// its kind says.
    pub open spec fn well_formed(self) -> bool {
        &&& self.pixels.len() == self.size_y
        &&& forall|row: int|
            0 <= row < self.size_y ==> (#[trigger] self.pixels[row]).len() == self.size_x
        &&& forall|row: int, col: int|
            0 <= row < self.size_y && 0 <= col < self.size_x ==> (
            #[trigger] self.pixels[row][col]) == square_of(self.pixels[row][col].squaretype)
    }
}

/// The screen of the given size on which every square is air.
pub open spec fn blank(size_x: nat, size_y: nat) -> ScreenView {
    ScreenView {
        pixels: Seq::new(
            size_y,
            |row: int| Seq::new(size_x, |col: int| square_of(SquareType::Air)),
        ),
        size_x,
        size_y,
    }
}

/// The kind of square that a camera at `camera` shows in column `col` of row
/// `row` of its window: the square of the world under that cell, and air
/// where the cell lies off the world.
pub open spec fn projected(world: WorldView, camera: Vector2, row: int, col: int) -> SquareType {
    match world.tile_at(camera.x + col, camera.y + row) {
        Some(kind) => kind,
        None => SquareType::Air,
    }
}

/// The window of `size_x` columns and `size_y` rows that a camera at `camera`
/// shows of `world`.
pub open spec fn rendering(
    world: WorldView,
    camera: Vector2,
    size_x: nat,
    size_y: nat,
) -> ScreenView {
    ScreenView {
        pixels: Seq::new(
            size_y,
            |row: int| Seq::new(size_x, |col: int| square_of(projected(world, camera, row, col))),
        ),
        size_x,
        size_y,
    }
}

/// Whether the cell in column `anchor.x` of row `anchor.y` lies on the screen.
pub open spec fn on_screen(screen: ScreenView, anchor: Vector2) -> bool {
    0 <= anchor.x < screen.size_x && 0 <= anchor.y < screen.size_y
}

/// The screen with the player marker laid over the cell at `anchor`; the
/// screen itself where that cell lies off it.
pub open spec fn with_player(screen: ScreenView, anchor: Vector2) -> ScreenView {
    if on_screen(screen, anchor) {
        ScreenView {
            pixels: screen.pixels.update(
                anchor.y as int,
                screen.pixels[anchor.y as int].update(
                    anchor.x as int,
                    square_of(SquareType::Player),
                ),
            ),
            size_x: screen.size_x,
            size_y: screen.size_y,
        }
    } else {
        screen
    }
}

/// What may stand in front of a painted glyph: nothing, or an escape
/// sequence that selects a graphic rendition, from the escape character and
/// `[` to the closing `m`.
pub open spec fn is_opening(text: Seq<char>) -> bool {
    text.len() == 0 || (text.len() >= 3 && text[0] == '\u{1b}' && text[1] == '[' && text.last()
        == 'm')
}

/// What may stand behind a painted glyph: nothing, or the escape sequence
/// that resets the rendition.
pub open spec fn is_closing(text: Seq<char>) -> bool {
    text.len() == 0 || text == seq!['\u{1b}', '[', '0', 'm']
}

/// `painted` shows `glyph`: the glyph itself, with at most an escape
/// sequence in front of it and one behind it.
pub open spec fn is_painted(glyph: Seq<char>, painted: Seq<char>) -> bool {
    exists|opening: Seq<char>, closing: Seq<char>|
        {
            &&& #[trigger] is_opening(opening)
            &&& #[trigger] is_closing(closing)
            &&& painted == opening + glyph + closing
        }
}

/// `line` shows the squares of one row, left to right.
pub open spec fn is_painted_row(squares: Seq<SquareView>, line: Seq<char>) -> bool {
    exists|cells: Seq<Seq<char>>|
        {
            &&& cells.len() == squares.len()
            &&& forall|col: int|
                0 <= col < cells.len() ==> is_painted(squares[col].ascii, #[trigger] cells[col])
            &&& line == cells.flatten()
        }
}

/// The texts of `cells`, one after the other.
pub open spec fn joined(cells: Seq<String>) -> Seq<char> {
    cells.map_values(|cell: String| cell@).flatten()
}

/// Colours `glyph` with `colored`'s `custom_color` and formats the result
/// with `to_string`. The crate decides from the environment whether it
/// colours at all and which rendition stands for the colour, so the contract
/// says what holds whatever it decides: the glyph comes back as it is, with
/// at most an opening escape sequence in front and the resetting one behind.
/// The glyph must hold no escape character, since the crate rewrites reset
/// sequences that it finds inside its input.
#[verifier::external_body]
fn paint(glyph: &str, color: Rgb) -> (painted: String)
    requires
        !glyph@.contains('\u{1b}'),
    ensures
        is_painted(glyph@, painted@),
{
    glyph.custom_color(colored::CustomColor { r: color.r, g: color.g, b: color.b }).to_string()
}

/// One line of a frame: the painted cells of a row, side by side.
pub fn frame_line(cells: &Vec<String>) -> (line: String)
    ensures
        line@ == joined(cells@),
{
    let mut line = String::new();
    let ghost texts = cells@.map_values(|cell: String| cell@);
    let n = cells.len();
    let mut i: usize = 0;
    assert(texts.take(0) =~= Seq::<Seq<char>>::empty());
    while i < n
        invariant
            n == cells.len(),
            i <= n,
            texts == cells@.map_values(|cell: String| cell@),
            line@ == texts.take(i as int).flatten(),
        decreases n - i,
    {
        proof {
            texts.take(i as int).lemma_flatten_push(texts[i as int]);
            assert(texts.take(i + 1) =~= texts.take(i as int).push(texts[i as int]));
        }
        line.append(cells[i].as_str());
        i += 1;
    }
    assert(texts.take(n as int) =~= texts);
    line
}

/// The rows of a screen of `size_x` columns and `size_y` rows of air.
fn blank_pixels(size_x: usize, size_y: usize) -> (pixels: Vec<Vec<Square>>)
    ensures
        pixels.len() == size_y,
        forall|row: int| 0 <= row < size_y ==> (#[trigger] pixels[row]).len() == size_x,
        forall|row: int, col: int|
            0 <= row < size_y && 0 <= col < size_x ==> (#[trigger] pixels[row][col])@ == square_of(
                SquareType::Air,
            ),
{
    let mut pixels: Vec<Vec<Square>> = Vec::new();
    let mut row: usize = 0;
    while row < size_y
        invariant
            row <= size_y,
            pixels.len() == row,
            forall|r: int| 0 <= r < row ==> (#[trigger] pixels[r]).len() == size_x,
            forall|r: int, c: int|
                0 <= r < row && 0 <= c < size_x ==> (#[trigger] pixels[r][c])@ == square_of(
                    SquareType::Air,
                ),
        decreases size_y - row,
    {
        let mut y_row: Vec<Square> = Vec::new();
        let mut col: usize = 0;
        while col < size_x
            invariant
                col <= size_x,
                y_row.len() == col,
                forall|c: int|
                    0 <= c < col ==> (#[trigger] y_row[c])@ == square_of(SquareType::Air),
            decreases size_x - col,
        {
            y_row.push(Square::new(SquareType::Air));
            col += 1;
        }
        pixels.push(y_row);
        row += 1;
    }
    pixels
}

/// `pixels` holds `size_y` rows of `size_x` squares, each of which looks as
/// its kind says.
spec fn is_grid(pixels: Vec<Vec<Square>>, size_x: usize, size_y: usize) -> bool {
    &&& pixels.len() == size_y
    &&& forall|row: int| 0 <= row < size_y ==> (#[trigger] pixels[row]).len() == size_x
    &&& forall|row: int, col: int|
        0 <= row < size_y && 0 <= col < size_x ==> (#[trigger] pixels[row][col])@ == square_of(
            pixels[row][col]@.squaretype,
        )
}

/// The buffer that holds what is shown this frame: `size_y` rows of `size_x`
/// squares. The row index is the y coordinate, the index within a row the x
/// coordinate.
#[derive(Debug, PartialEq)]
pub struct Screen {
    pixels: Vec<Vec<Square>>,
    size_x: usize,
    size_y: usize,
}

impl View for Screen {
    type V = ScreenView;

    closed spec fn view(&self) -> ScreenView {
        ScreenView {
            pixels: Seq::new(
                self.pixels.len() as nat,
                |row: int|
                    Seq::new(self.pixels[row].len() as nat, |col: int| self.pixels[row][col]@),
            ),
            size_x: self.size_x as nat,
            size_y: self.size_y as nat,
        }
    }
}

impl Screen {
    #[verifier::type_invariant]
    spec fn holds(self) -> bool {
        is_grid(self.pixels, self.size_x, self.size_y)
    }

    /// What the type's invariant says of the fields, said of the view.
    proof fn lemma_view_is_well_formed(self)
        requires
            is_grid(self.pixels, self.size_x, self.size_y),
        ensures
            self@.well_formed(),
    {
    }

    /// A screen of `size_x` columns and `size_y` rows on which every square
    /// is air.
    pub fn new(size_x: usize, size_y: usize) -> (screen: Screen)
        ensures
            screen@ == blank(size_x as nat, size_y as nat),
    {
        let pixels = blank_pixels(size_x, size_y);
        let screen = Screen { pixels, size_x, size_y };
        assert(screen@.pixels =~~= blank(size_x as nat, size_y as nat).pixels);
        screen
    }

    /// Clears the screen: every square becomes air, the size stays.
    pub fn init(&mut self)
        ensures
            final(self)@ == blank(old(self)@.size_x, old(self)@.size_y),
    {
        let screen = blank_pixels(self.size_x, self.size_y);
        self.pixels = screen;
        assert(self@.pixels =~~= blank(self.size_x as nat, self.size_y as nat).pixels);
    }

    /// The number of columns.
    pub fn size_x(&self) -> (n: usize)
        ensures
            n == self@.size_x,
            self@.well_formed(),
    {
        proof {
            use_type_invariant(self);
            self.lemma_view_is_well_formed();
        }
        self.size_x
    }

    /// The number of rows.
    pub fn size_y(&self) -> (n: usize)
        ensures
            n == self@.size_y,
            self@.well_formed(),
    {
        proof {
            use_type_invariant(self);
            self.lemma_view_is_well_formed();
        }
        self.size_y
    }

    /// The square in column `col` of row `row`.
    pub fn square(&self, row: usize, col: usize) -> (square: &Square)
        requires
            row < self@.size_y,
            col < self@.size_x,
        ensures
            square@ == self@.pixels[row as int][col as int],
            self@.well_formed(),
    {
        proof {
            use_type_invariant(self);
            self.lemma_view_is_well_formed();
        }
        &self.pixels[row][col]
    }

    /// Lays the player marker over the cell in column `anchor.x` of row
    /// `anchor.y`, whatever it held. Where that cell lies off the screen,
    /// nothing is written.
    pub fn place_player(self, anchor: Vector2) -> (marked: Screen)
        ensures
            marked@ == with_player(self@, anchor),
    {
        proof {
            use_type_invariant(&self);
        }
        let ghost before = self@;
        let Screen { mut pixels, size_x, size_y } = self;
        if anchor.x >= 0 && anchor.y >= 0 {
            let col = anchor.x as usize;
            let row = anchor.y as usize;
            if col < size_x && row < size_y {
                pixels[row][col] = Square::new(SquareType::Player);
                let marked = Screen { pixels, size_x, size_y };
                assert(marked@.pixels =~~= with_player(before, anchor).pixels);
                return marked;
            }
        }
        let same = Screen { pixels, size_x, size_y };
        assert(same@.pixels =~~= before.pixels);
        same
    }

    /// The frame as text: one line for each row, each line the row's glyphs
    /// side by side, each glyph painted in its square's colour.
    pub fn draw(&self) -> (lines: Vec<String>)
        ensures
            self@.well_formed(),
            lines.len() == self@.size_y,
            forall|row: int|
                0 <= row < self@.size_y ==> is_painted_row(
                    self@.pixels[row],
                    (#[trigger] lines[row])@,
                ),
    {
        proof {
            use_type_invariant(self);
            self.lemma_view_is_well_formed();
        }
        let mut lines: Vec<String> = Vec::new();
        let mut row: usize = 0;
        while row < self.size_y
            invariant
                row <= self.size_y,
                self.pixels.len() == self.size_y,
                forall|r: int|
                    0 <= r < self.size_y ==> (#[trigger] self.pixels[r]).len() == self.size_x,
                lines.len() == row,
                forall|r: int|
                    0 <= r < row ==> is_painted_row(self@.pixels[r], (#[trigger] lines[r])@),
            decreases self.size_y - row,
        {
            let mut cells: Vec<String> = Vec::new();
            let mut col: usize = 0;
            while col < self.size_x
                invariant
                    row < self.size_y,
                    col <= self.size_x,
                    self.pixels.len() == self.size_y,
                    self.pixels[row as int].len() == self.size_x,
                    cells.len() == col,
                    forall|c: int|
                        0 <= c < col ==> is_painted(
                            self@.pixels[row as int][c].ascii,
                            (#[trigger] cells[c])@,
                        ),
                decreases self.size_x - col,
            {
                let square = &self.pixels[row][col];
                let glyph = square.ascii();
                proof {
                    // No glyph holds an escape character.
                    assert(glyph@ == glyph_of(square@.squaretype));
                    assert(glyph@.len() == 2);
                }
                let painted = paint(glyph, square.color());
                cells.push(painted);
                col += 1;
            }
            let line = frame_line(&cells);
            proof {
                let texts = cells@.map_values(|cell: String| cell@);
                assert(texts.len() == self@.pixels[row as int].len());
                assert forall|c: int| 0 <= c < texts.len() implies is_painted(
                    self@.pixels[row as int][c].ascii,
                    #[trigger] texts[c],
                ) by {
                    assert(texts[c] == cells[c]@);
                }
                assert(line@ == texts.flatten());
            }
            lines.push(line);
            row += 1;
        }
        lines
    }
}

impl Clone for Screen {
    fn clone(&self) -> (copy: Screen)
        ensures
            copy@ == self@,
    {
        proof {
            use_type_invariant(self);
        }
        let mut pixels: Vec<Vec<Square>> = Vec::new();
        let mut row: usize = 0;
        while row < self.size_y
            invariant
                row <= self.size_y,
                self.pixels.len() == self.size_y,
                forall|r: int|
                    0 <= r < self.size_y ==> (#[trigger] self.pixels[r]).len() == self.size_x,
                pixels.len() == row,
                forall|r: int| 0 <= r < row ==> (#[trigger] pixels[r]).len() == self.size_x,
                forall|r: int, c: int|
                    0 <= r < row && 0 <= c < self.size_x ==> (#[trigger] pixels[r][c])@
                        == self.pixels[r][c]@,
            decreases self.size_y - row,
        {
            let mut y_row: Vec<Square> = Vec::new();
            let mut col: usize = 0;
            while col < self.size_x
                invariant
                    row < self.size_y,
                    col <= self.size_x,
                    self.pixels.len() == self.size_y,
                    self.pixels[row as int].len() == self.size_x,
                    y_row.len() == col,
                    forall|c: int|
                        0 <= c < col ==> (#[trigger] y_row[c])@ == self.pixels[row as int][c]@,
                decreases self.size_x - col,
            {
                y_row.push(self.pixels[row][col].clone());
                col += 1;
            }
            pixels.push(y_row);
            row += 1;
        }
        let copy = Screen { pixels, size_x: self.size_x, size_y: self.size_y };
        assert(copy@.pixels =~~= self@.pixels);
        copy
    }
}

/// Rendering stays inside the world. Wherever the camera stands, a cell of
/// its window either lies over a square that the world holds, or lies off the
/// world, reads nothing and shows air.
pub proof fn lemma_projection_reads_inside(world: WorldView, camera: Vector2, row: int, col: int)
    requires
        world.well_formed(),
    ensures
        world.contains(camera.x + col, camera.y + row) ==> 0 <= flat_index(
            camera.x + col,
            camera.y + row,
            world.size_y as int,
        ) < world.tiles.len(),
        !world.contains(camera.x + col, camera.y + row) ==> projected(world, camera, row, col)
            == SquareType::Air,
        projected(world, camera, row, col) != SquareType::Player,
{
    if world.contains(camera.x + col, camera.y + row) {
        let index = flat_index(camera.x + col, camera.y + row, world.size_y as int);
        assert(is_terrain(world.tiles[index]));
    }
}

/// Rendering is idempotent. What a camera shows of a world depends on the
/// world, the camera and the size of the screen alone: rendering again, onto
/// the screen that the first rendering left, gives that same screen, square
/// for square.
pub proof fn lemma_rendering_is_idempotent(world: WorldView, camera: Vector2, screen: ScreenView)
    ensures
        ({
            let once = rendering(world, camera, screen.size_x, screen.size_y);
            let twice = rendering(world, camera, once.size_x, once.size_y);
            twice == once
        }),
{
}

/// Projects the window of `world` whose top left cell is at `camera` onto the
/// screen. Every square of the screen is written: a cell over the world gets
/// the square under it, a cell off the world gets air. The world is only
/// read, and no camera position is refused.
pub fn render_world(screen: Screen, world: &World, camera: Vector2) -> (rendered: Screen)
    ensures
        rendered@ == rendering(world@, camera, screen@.size_x, screen@.size_y),
        forall|row: int, col: int|
            0 <= row < screen@.size_y && 0 <= col < screen@.size_x ==> (
            #[trigger] rendered@.pixels[row][col]) == square_of(
                if world@.contains(camera.x + col, camera.y + row) {
                    world@.tile_at(camera.x + col, camera.y + row)->0
                } else {
                    SquareType::Air
                },
            ),
{
    proof {
        use_type_invariant(&screen);
    }
    let Screen { mut pixels, size_x, size_y } = screen;
    let mut row: usize = 0;
    while row < size_y
        invariant
            row <= size_y,
            pixels.len() == size_y,
            forall|r: int| 0 <= r < size_y ==> (#[trigger] pixels[r]).len() == size_x,
            forall|r: int, c: int|
                0 <= r < row && 0 <= c < size_x ==> (#[trigger] pixels[r][c])@ == square_of(
                    projected(world@, camera, r, c),
                ),
        decreases size_y - row,
    {
        let mut col: usize = 0;
        while col < size_x
            invariant
                row < size_y,
                col <= size_x,
                pixels.len() == size_y,
                forall|r: int| 0 <= r < size_y ==> (#[trigger] pixels[r]).len() == size_x,
                forall|r: int, c: int|
                    0 <= r < row && 0 <= c < size_x ==> (#[trigger] pixels[r][c])@ == square_of(
                        projected(world@, camera, r, c),
                    ),
                forall|c: int|
                    0 <= c < col ==> (#[trigger] pixels[row as int][c])@ == square_of(
                        projected(world@, camera, row as int, c),
                    ),
            decreases size_x - col,
        {
            let x = camera.x as i128 + col as i128;
            let y = camera.y as i128 + row as i128;
            let kind = match world.kind_at(x, y) {
                Some(kind) => kind,
                None => SquareType::Air,
            };
            pixels[row][col] = Square::new(kind);
            col += 1;
        }
        row += 1;
    }
    let rendered = Screen { pixels, size_x, size_y };
    assert(rendered@.pixels =~~= rendering(world@, camera, size_x as nat, size_y as nat).pixels);
    rendered
}

} // verus!
