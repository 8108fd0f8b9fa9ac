use tileworld::square::{Rgb, Square, SquareType};

#[test]
fn air_is_black_and_spelled_aa() {
    let square = Square::new(SquareType::Air);
    assert_eq!(square.squaretype(), SquareType::Air);
    assert_eq!(square.color(), Rgb { r: 0, g: 0, b: 0 });
    assert_eq!(square.ascii(), "AA");
}

#[test]
fn grass_is_green_and_spelled_gg() {
    let square = Square::new(SquareType::Grass);
    assert_eq!(square.squaretype(), SquareType::Grass);
    assert_eq!(square.color(), Rgb { r: 0, g: 255, b: 0 });
    assert_eq!(square.ascii(), "GG");
}

#[test]
fn player_is_white_and_spelled_pp() {
    let square = Square::new(SquareType::Player);
    assert_eq!(square.squaretype(), SquareType::Player);
    assert_eq!(square.color(), Rgb { r: 255, g: 255, b: 255 });
    assert_eq!(square.ascii(), "PP");
}

#[test]
fn squares_of_one_kind_are_equal() {
    assert_eq!(Square::new(SquareType::Grass), Square::new(SquareType::Grass));
    assert_ne!(Square::new(SquareType::Grass), Square::new(SquareType::Air));
    let square = Square::new(SquareType::Player);
    assert_eq!(square.clone(), square);
}

#[test]
fn every_glyph_has_two_characters() {
    for kind in [SquareType::Air, SquareType::Grass, SquareType::Player] {
        assert_eq!(Square::new(kind).ascii().chars().count(), 2);
    }
}
