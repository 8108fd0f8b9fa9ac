//! The terrain grid and the text format it is stored in.

use vstd::prelude::*;
use vstd::string::*;

use crate::square::SquareType;

verus! {

/// The number of columns of the world that is played.
pub const WORLD_SIZE_X: usize = 50;

/// The number of rows of the world that is played.
pub const WORLD_SIZE_Y: usize = 50;

/// Why a world could not be loaded.
#[derive(Debug, Clone, Copy, PartialEq, Eq, Structural)]
pub enum LoadError {
    /// The text holds a token other than `0` and `1`, or not exactly one
    /// token for each square of the grid.
    MalformedWorldFile,
}

/// The characters that separate tokens: those that Unicode classes as
/// `White_Space`.
pub open spec fn is_whitespace(c: char) -> bool {
    ||| c == ' '
    ||| '\u{9}' <= c <= '\u{d}'
    ||| c == '\u{85}'
    ||| c == '\u{a0}'
    ||| c == '\u{1680}'
    ||| '\u{2000}' <= c <= '\u{200a}'
    ||| c == '\u{2028}'
    ||| c == '\u{2029}'
    ||| c == '\u{202f}'
    ||| c == '\u{205f}'
    ||| c == '\u{3000}'
}

/// The length of the longest prefix of `text` that holds no whitespace.
pub open spec fn word_len(text: Seq<char>) -> nat
    decreases text.len(),
{
    if text.len() == 0 || is_whitespace(text[0]) {
        0
    } else {
        1 + word_len(text.skip(1))
    }
}

/// The tokens of `text`: its maximal runs of characters other than
/// whitespace, in the order in which they stand.
pub open spec fn tokens(text: Seq<char>) -> Seq<Seq<char>>
    decreases text.len(),
{
    if text.len() == 0 {
        Seq::empty()
    } else if is_whitespace(text[0]) {
        tokens(text.skip(1))
    } else {
        proof {
            lemma_word_len_bound(text);
        }
        seq![text.take(word_len(text) as int)] + tokens(text.skip(word_len(text) as int))
    }
}

/// The kind of square that a token stands for, if it stands for one.
pub open spec fn token_kind(token: Seq<char>) -> Option<SquareType> {
    if token == seq!['0'] {
        Some(SquareType::Air)
    } else if token == seq!['1'] {
        Some(SquareType::Grass)
    } else {
        None
    }
}

/// `tiles` is what `text` says: one square for each token, of the kind the
/// token stands for.
pub open spec fn spells(text: Seq<char>, tiles: Seq<SquareType>) -> bool {
    &&& tokens(text).len() == tiles.len()
    &&& forall|i: int|
        0 <= i < tiles.len() ==> token_kind(#[trigger] tokens(text)[i]) == Some(tiles[i])
}

/// Some token of `text` stands for no kind of square.
pub open spec fn has_unknown_token(text: Seq<char>) -> bool {
    exists|i: int| 0 <= i < tokens(text).len() && token_kind(#[trigger] tokens(text)[i]) is None
}

/// A word is never longer than the text it starts.
pub proof fn lemma_word_len_bound(text: Seq<char>)
    ensures
        word_len(text) <= text.len(),
    decreases text.len(),
{
    if text.len() != 0 && !is_whitespace(text[0]) {
        lemma_word_len_bound(text.skip(1));
    }
}

/// A run of characters other than whitespace that ends at whitespace, or at
/// the end of the text, is a whole word.
proof fn lemma_word_ends(text: Seq<char>, start: int, end: int)
    requires
        0 <= start <= end <= text.len(),
        forall|j: int| start <= j < end ==> !is_whitespace(text[j]),
        end == text.len() || is_whitespace(text[end]),
    ensures
        word_len(text.skip(start)) == end - start,
    decreases end - start,
{
    let rest = text.skip(start);
    if start == end {
        if end < text.len() {
            assert(rest[0] == text[end]);
        }
    } else {
        assert(rest[0] == text[start]);
        assert(rest.skip(1) =~= text.skip(start + 1));
        lemma_word_ends(text, start + 1, end);
    }
}

/// Whitespace in front of a text adds no token.
proof fn lemma_tokens_skip_whitespace(text: Seq<char>, at: int)
    requires
        0 <= at < text.len(),
        is_whitespace(text[at]),
    ensures
        tokens(text.skip(at)) == tokens(text.skip(at + 1)),
{
    let rest = text.skip(at);
    assert(rest[0] == text[at]);
    assert(rest.skip(1) =~= text.skip(at + 1));
}

/// A whole word in front of a text is its first token.
proof fn lemma_tokens_take_word(text: Seq<char>, start: int, end: int)
    requires
        0 <= start < end <= text.len(),
        forall|j: int| start <= j < end ==> !is_whitespace(text[j]),
        end == text.len() || is_whitespace(text[end]),
    ensures
        tokens(text.skip(start)) == seq![text.subrange(start, end)] + tokens(text.skip(end)),
{
    let rest = text.skip(start);
    lemma_word_ends(text, start, end);
    assert(rest[0] == text[start]);
    assert(rest.take(end - start) =~= text.subrange(start, end));
    assert(rest.skip(end - start) =~= text.skip(end));
}

/// Whether `c` separates tokens.
pub fn whitespace(c: char) -> (b: bool)
    ensures
        b == is_whitespace(c),
{
    c == ' ' || ('\u{9}' <= c && c <= '\u{d}') || c == '\u{85}' || c == '\u{a0}' || c
        == '\u{1680}' || ('\u{2000}' <= c && c <= '\u{200a}') || c == '\u{2028}' || c
        == '\u{2029}' || c == '\u{202f}' || c == '\u{205f}' || c == '\u{3000}'
}

/// Reads the squares of a world from its text: tokens separated by
/// whitespace, `0` for air and `1` for grass, in row order. Any other token
/// makes the text malformed.
pub fn parse_tiles(contents: &str) -> (loaded: Result<Vec<SquareType>, LoadError>)
    ensures
        match loaded {
            Ok(tiles) => spells(contents@, tiles@),
            Err(e) => e == LoadError::MalformedWorldFile && has_unknown_token(contents@),
        },
{
    let mut tiles: Vec<SquareType> = Vec::new();
    // The word being read, if any, and the kind it stands for so far.
    let mut in_word = false;
    let mut kind: Option<SquareType> = None;
    let ghost text = contents@;
    let ghost mut pos: int = 0;
    let ghost mut start: int = 0;
    let ghost mut done: Seq<Seq<char>> = Seq::empty();
    assert(text.skip(0) =~= text);
    for c in chars: contents.chars()
        invariant
            chars.seq() == text,
            text == contents@,
            pos == chars.index(),
            0 <= start <= pos <= text.len(),
            tokens(text) == done + tokens(text.skip(start)),
            done.len() == tiles.len(),
            forall|k: int| 0 <= k < done.len() ==> token_kind(#[trigger] done[k]) == Some(tiles[k]),
            in_word ==> start < pos,
            !in_word ==> start == pos,
            forall|j: int| start <= j < pos ==> !is_whitespace(text[j]),
            in_word ==> kind == token_kind(text.subrange(start, pos)),
    {
        assert(c == text[pos]);
        if whitespace(c) {
            if in_word {
                proof {
                    lemma_tokens_take_word(text, start, pos);
                    lemma_tokens_skip_whitespace(text, pos);
                }
                let ghost word = text.subrange(start, pos);
                match kind {
                    Some(k) => {
                        tiles.push(k);
                        proof {
                            let rest = tokens(text.skip(pos + 1));
                            assert(done + (seq![word] + rest) =~= done.push(word) + rest);
                            done = done.push(word);
                        }
                    },
                    None => {
                        proof {
                            let all = tokens(text);
                            assert(all[done.len() as int] == word);
                            assert(token_kind(all[done.len() as int]) is None);
                        }
                        return Err(LoadError::MalformedWorldFile);
                    },
                }
                in_word = false;
            } else {
                proof {
                    lemma_tokens_skip_whitespace(text, pos);
                }
            }
            proof {
                start = pos + 1;
            }
        } else if in_word {
            proof {
                let longer = text.subrange(start, pos + 1);
                assert(longer.len() >= 2);
                assert(seq!['0'].len() == 1 && seq!['1'].len() == 1);
            }
            kind = None;
        } else {
            proof {
                let word = text.subrange(start, pos + 1);
                assert(word =~= seq![c]);
                assert(seq!['0'][0] == '0' && seq!['1'][0] == '1');
            }
            in_word = true;
            kind = if c == '0' {
                Some(SquareType::Air)
            } else if c == '1' {
                Some(SquareType::Grass)
            } else {
                None
            };
        }
        proof {
            pos = pos + 1;
        }
    }
    assert(pos == text.len());
    if in_word {
        proof {
            lemma_tokens_take_word(text, start, pos);
        }
        let ghost word = text.subrange(start, pos);
        match kind {
            Some(k) => {
                tiles.push(k);
                proof {
                    assert(tokens(text) =~= done.push(word));
                    done = done.push(word);
                }
            },
            None => {
                proof {
                    let all = tokens(text);
                    assert(all[done.len() as int] == word);
                    assert(token_kind(all[done.len() as int]) is None);
                }
                return Err(LoadError::MalformedWorldFile);
            },
        }
    } else {
        assert(tokens(text) =~= done);
    }
    Ok(tiles)
}

/// The place in the stored sequence of the square at column `x` of row `y`.
/// Rows follow one another at a distance of `size_y` squares.
pub open spec fn flat_index(x: int, y: int, size_y: int) -> int {
    x + y * size_y
}

/// A sequence of `len` squares makes a world of `size_x` columns and `size_y`
/// rows: there is one square for each cell, and every cell finds its square
/// in the sequence.
pub open spec fn grid_fits(len: nat, size_x: nat, size_y: nat) -> bool {
    &&& len == size_x * size_y
    &&& forall|x: int, y: int|
        0 <= x < size_x && 0 <= y < size_y ==> 0 <= #[trigger] flat_index(x, y, size_y as int)
            < len
}

/// Which grids there are. Since rows lie `size_y` squares apart, every cell
/// finds its square exactly where the grid is empty, has a single row, or is
/// at least as wide as it is tall.
pub proof fn lemma_grid_fits_where_wide(len: nat, size_x: nat, size_y: nat)
    ensures
        grid_fits(len, size_x, size_y) <==> len == size_x * size_y && (size_x == 0 || size_y <= 1
            || size_y <= size_x),
{
    let (w, h) = (size_x as int, size_y as int);
    if len == size_x * size_y {
        if size_x == 0 || size_y <= 1 || size_y <= size_x {
            assert forall|x: int, y: int| 0 <= x < w && 0 <= y < h implies {
                0 <= #[trigger] flat_index(x, y, h) < len
            } by {
                assert(0 <= y * h && x + y * h < w * h) by (nonlinear_arith)
                    requires
                        0 <= x < w,
                        0 <= y < h,
                        h <= 1 || h <= w,
                ;
            }
        } else {
            // The last cell of a grid that is taller than wide finds no square.
            assert(flat_index(w - 1, h - 1, h) >= w * h) by (nonlinear_arith)
                requires
                    1 <= w < h,
            ;
        }
    }
}

/// Whether a kind of square can stand in the terrain. The player marker
/// cannot: it is only ever laid over a screen.
pub open spec fn is_terrain(kind: SquareType) -> bool {
    kind != SquareType::Player
}

/// What a `World` is: its squares in stored order, and its size.
pub struct WorldView {
    pub tiles: Seq<SquareType>,
    pub size_x: nat,
    pub size_y: nat,
}

impl WorldView {
    /// The squares make a grid of the world's size, and all of them are
    /// terrain.
    pub open spec fn well_formed(self) -> bool {
        &&& grid_fits(self.tiles.len(), self.size_x, self.size_y)
        &&& forall|i: int| 0 <= i < self.tiles.len() ==> is_terrain(#[trigger] self.tiles[i])
    }

    /// Whether column `x` of row `y` lies in the world.
    pub open spec fn contains(self, x: int, y: int) -> bool {
        0 <= x < self.size_x && 0 <= y < self.size_y
    }

    /// The square at column `x` of row `y`, if that cell lies in the world.
    pub open spec fn tile_at(self, x: int, y: int) -> Option<SquareType> {
        if self.contains(x, y) {
            Some(self.tiles[flat_index(x, y, self.size_y as int)])
        } else {
            None
        }
    }
}

/// The terrain: a grid of squares that nothing changes once it is made.
#[derive(Debug)]
pub struct World {
    tiles: Vec<SquareType>,
    size_x: usize,
    size_y: usize,
}

impl View for World {
    type V = WorldView;

    closed spec fn view(&self) -> WorldView {
        WorldView { tiles: self.tiles@, size_x: self.size_x as nat, size_y: self.size_y as nat }
    }
}

impl World {
    #[verifier::type_invariant]
    spec fn holds(self) -> bool {
        self@.well_formed()
    }

    /// The world of `size_x` columns and `size_y` rows that holds `tiles`, or
    /// `None` where the squares do not make such a grid or one of them is the
    /// player marker.
    pub fn new(tiles: Vec<SquareType>, size_x: usize, size_y: usize) -> (made: Option<World>)
        ensures
            made is Some <==> (WorldView {
                tiles: tiles@,
                size_x: size_x as nat,
                size_y: size_y as nat,
            }).well_formed(),
            made matches Some(world) ==> world@ == (WorldView {
                tiles: tiles@,
                size_x: size_x as nat,
                size_y: size_y as nat,
            }),
    {
        let len = tiles.len();
        let mut i: usize = 0;
        while i < len
            invariant
                len == tiles.len(),
                i <= len,
                forall|k: int| 0 <= k < i ==> is_terrain(#[trigger] tiles[k]),
            decreases len - i,
        {
            match tiles[i] {
                SquareType::Player => {
                    return None;
                },
                _ => {},
            }
            i += 1;
        }
        proof {
            lemma_grid_fits_where_wide(len as nat, size_x as nat, size_y as nat);
        }
        match size_x.checked_mul(size_y) {
            Some(area) if area == len => {},
            _ => {
                return None;
            },
        }
        if size_x != 0 && size_y > 1 && size_y > size_x {
            return None;
        }
        Some(World { tiles, size_x, size_y })
    }

    /// The number of columns.
    pub fn size_x(&self) -> (n: usize)
        ensures
            n == self@.size_x,
            self@.well_formed(),
    {
        proof {
            use_type_invariant(self);
        }
        self.size_x
    }

    /// The number of rows.
    pub fn size_y(&self) -> (n: usize)
        ensures
            n == self@.size_y,
            self@.well_formed(),
    {
        proof {
            use_type_invariant(self);
        }
        self.size_y
    }

    /// The square at column `x` of row `y`, or `None` where that cell lies
    /// outside the world.
    pub fn kind_at(&self, x: i128, y: i128) -> (kind: Option<SquareType>)
        ensures
            kind == self@.tile_at(x as int, y as int),
            kind is Some <==> self@.contains(x as int, y as int),
            kind != Some(SquareType::Player),
            self@.well_formed(),
    {
        proof {
            use_type_invariant(self);
        }
        if 0 <= x && x < self.size_x as i128 && 0 <= y && y < self.size_y as i128 {
            let column = x as usize;
            let row = y as usize;
            let len = self.tiles.len();
            proof {
                assert(0 <= row * self.size_y) by (nonlinear_arith);
                assert(flat_index(column as int, row as int, self.size_y as int) < len);
            }
            let index = column + row * self.size_y;
            Some(self.tiles[index])
        } else {
            None
        }
    }
}

/// What a text spells is terrain: no token stands for the player marker.
pub proof fn lemma_spelled_tiles_are_terrain(text: Seq<char>, tiles: Seq<SquareType>)
    requires
        spells(text, tiles),
    ensures
        forall|i: int| 0 <= i < tiles.len() ==> is_terrain(#[trigger] tiles[i]),
{
    assert forall|i: int| 0 <= i < tiles.len() implies is_terrain(#[trigger] tiles[i]) by {
        assert(token_kind(tokens(text)[i]) == Some(tiles[i]));
    }
}

/// Loads a world of `size_x` columns and `size_y` rows from its text. The
/// text is malformed where a token is unknown, and where its tokens do not
/// make a grid of that size.
pub fn load_world(contents: &str, size_x: usize, size_y: usize) -> (loaded: Result<
    World,
    LoadError,
>)
    ensures
        match loaded {
            Ok(world) => {
                &&& spells(contents@, world@.tiles)
                &&& world@.size_x == size_x
                &&& world@.size_y == size_y
                &&& grid_fits(tokens(contents@).len(), size_x as nat, size_y as nat)
            },
            Err(e) => {
                &&& e == LoadError::MalformedWorldFile
                &&& has_unknown_token(contents@) || !grid_fits(
                    tokens(contents@).len(),
                    size_x as nat,
                    size_y as nat,
                )
            },
        },
{
    let tiles = match parse_tiles(contents) {
        Ok(tiles) => tiles,
        Err(e) => {
            return Err(e);
        },
    };
    proof {
        lemma_spelled_tiles_are_terrain(contents@, tiles@);
    }
    match World::new(tiles, size_x, size_y) {
        Some(world) => Ok(world),
        None => Err(LoadError::MalformedWorldFile),
    }
}

} // verus!
