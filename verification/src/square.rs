//! The kinds of square and what each looks like on screen.

use vstd::prelude::*;
use vstd::string::*;

verus! {

/// Every kind of square. `Player` is only ever overlaid on a screen: terrain
/// holds `Air` and `Grass`.
#[derive(Debug, Clone, Copy, PartialEq, Eq, Structural)]
pub enum SquareType {
    Air,
    Grass,
    Player,
}

/// A 24-bit colour.
#[derive(Debug, Clone, Copy, PartialEq, Eq, Structural)]
pub struct Rgb {
    pub r: u8,
    pub g: u8,
    pub b: u8,
}

/// What a `Square` is: its kind, its colour and the two characters that draw it.
pub struct SquareView {
    pub squaretype: SquareType,
    pub color: Rgb,
    pub ascii: Seq<char>,
}

/// The colour in which a kind of square is drawn.
pub open spec fn color_of(squaretype: SquareType) -> Rgb {
    match squaretype {
        SquareType::Air => Rgb { r: 0, g: 0, b: 0 },
        SquareType::Grass => Rgb { r: 0, g: 255, b: 0 },
        SquareType::Player => Rgb { r: 255, g: 255, b: 255 },
    }
}

/// The two characters with which a kind of square is drawn.
pub open spec fn glyph_of(squaretype: SquareType) -> Seq<char> {
    match squaretype {
        SquareType::Air => seq!['A', 'A'],
        SquareType::Grass => seq!['G', 'G'],
        SquareType::Player => seq!['P', 'P'],
    }
}

/// The one square of a given kind.
pub open spec fn square_of(squaretype: SquareType) -> SquareView {
    SquareView { squaretype, color: color_of(squaretype), ascii: glyph_of(squaretype) }
}

/// One cell of the world as it is drawn. Its colour and glyph always follow
/// from its kind.
#[derive(Debug, PartialEq)]
pub struct Square {
    squaretype: SquareType,
    color: Rgb,
    ascii: String,
}

impl View for Square {
    type V = SquareView;

    closed spec fn view(&self) -> SquareView {
        SquareView { squaretype: self.squaretype, color: self.color, ascii: self.ascii@ }
    }
}

impl Clone for Square {
    fn clone(&self) -> (copy: Square)
        ensures
            copy@ == self@,
    {
        proof {
            use_type_invariant(self);
        }
        Square { squaretype: self.squaretype, color: self.color, ascii: self.ascii.clone() }
    }
}

impl Square {
    #[verifier::type_invariant]
    spec fn well_formed(self) -> bool {
        self@ == square_of(self.squaretype)
    }

    /// The square of the given kind, with the colour and glyph of that kind.
    pub fn new(squaretype: SquareType) -> (square: Square)
        ensures
            square@ == square_of(squaretype),
    {
        let color = match squaretype {
            SquareType::Air => Rgb { r: 0, g: 0, b: 0 },
            SquareType::Grass => Rgb { r: 0, g: 255, b: 0 },
            SquareType::Player => Rgb { r: 255, g: 255, b: 255 },
        };
        let ascii = match squaretype {
            SquareType::Air => String::from_str("AA"),
            SquareType::Grass => String::from_str("GG"),
            SquareType::Player => String::from_str("PP"),
        };
        proof {
            reveal_strlit("AA");
            reveal_strlit("GG");
            reveal_strlit("PP");
            assert(ascii@ =~= glyph_of(squaretype));
        }
        Square { squaretype, color, ascii }
    }

    /// The kind of this square.
    pub fn squaretype(&self) -> (squaretype: SquareType)
        ensures
            squaretype == self@.squaretype,
            self@ == square_of(squaretype),
    {
        proof {
            use_type_invariant(self);
        }
        self.squaretype
    }

    /// The colour of this square.
    pub fn color(&self) -> (color: Rgb)
        ensures
            color == self@.color,
            color == color_of(self@.squaretype),
    {
        proof {
            use_type_invariant(self);
        }
        self.color
    }

    /// The glyph of this square.
    pub fn ascii(&self) -> (ascii: &str)
        ensures
            ascii@ == self@.ascii,
            ascii@ == glyph_of(self@.squaretype),
    {
        proof {
            use_type_invariant(self);
        }
        self.ascii.as_str()
    }
}

} // verus!
