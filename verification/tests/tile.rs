use truchet::tile::PosBit;
use truchet::tile::Tile;
use truchet::tile::TileError;

fn all_tiles() -> Vec<Tile> {
    let mut tiles = Vec::new();
    for code in 0u8..16 {
        tiles.push(Tile::from_bits(code).unwrap());
    }
    tiles
}

#[test]
fn test_value() {
    assert_eq!(PosBit::TOP.value(), 1);
    assert_eq!(PosBit::LEFT.value(), 2);
    assert_eq!(PosBit::BOTTOM.value(), 4);
    assert_eq!(PosBit::RIGHT.value(), 8);
}

#[test]
fn test_bit_on() {
    assert_eq!(PosBit::TOP.bit_on(0), false);
    assert_eq!(PosBit::LEFT.bit_on(0), false);
    assert_eq!(PosBit::BOTTOM.bit_on(0), false);
    assert_eq!(PosBit::RIGHT.bit_on(0), false);

    assert_eq!(PosBit::TOP.bit_on(1), true);
    assert_eq!(PosBit::LEFT.bit_on(2), true);
    assert_eq!(PosBit::BOTTOM.bit_on(4), true);
    assert_eq!(PosBit::RIGHT.bit_on(8), true);

    assert_eq!(PosBit::TOP.bit_on(11), true);
    assert_eq!(PosBit::LEFT.bit_on(11), true);
    assert_eq!(PosBit::BOTTOM.bit_on(11), false);
    assert_eq!(PosBit::RIGHT.bit_on(11), true);
}

#[test]
fn test_from_bits() {
    assert_eq!(Tile::from_bits(0), Ok(Tile::new(false, false, false, false)));
    assert_eq!(Tile::from_bits(1), Ok(Tile::new(true, false, false, false)));
    assert_eq!(Tile::from_bits(2), Ok(Tile::new(false, true, false, false)));
    assert_eq!(Tile::from_bits(3), Ok(Tile::new(true, true, false, false)));
    assert_eq!(Tile::from_bits(4), Ok(Tile::new(false, false, true, false)));
    assert_eq!(Tile::from_bits(5), Ok(Tile::new(true, false, true, false)));
    assert_eq!(Tile::from_bits(6), Ok(Tile::new(false, true, true, false)));
    assert_eq!(Tile::from_bits(7), Ok(Tile::new(true, true, true, false)));
    assert_eq!(Tile::from_bits(8), Ok(Tile::new(false, false, false, true)));
    assert_eq!(Tile::from_bits(9), Ok(Tile::new(true, false, false, true)));
    assert_eq!(Tile::from_bits(10), Ok(Tile::new(false, true, false, true)));
    assert_eq!(Tile::from_bits(11), Ok(Tile::new(true, true, false, true)));
    assert_eq!(Tile::from_bits(12), Ok(Tile::new(false, false, true, true)));
    assert_eq!(Tile::from_bits(13), Ok(Tile::new(true, false, true, true)));
    assert_eq!(Tile::from_bits(14), Ok(Tile::new(false, true, true, true)));
    assert_eq!(Tile::from_bits(15), Ok(Tile::new(true, true, true, true)));
}

#[test]
#[should_panic]
fn test_from_bits_panic() {
    Tile::from_bits(16).unwrap();
}

#[test]
fn from_bits_rejects_every_code_above_fifteen() {
    for code in 16u8..=255 {
        assert_eq!(Tile::from_bits(code), Err(TileError::InvalidCode));
    }
}

#[test]
fn bit_on_ignores_the_high_bits() {
    // 200 is 1100_1000: of the four edge bits only the right one is set.
    assert_eq!(PosBit::TOP.bit_on(200), false);
    assert_eq!(PosBit::LEFT.bit_on(200), false);
    assert_eq!(PosBit::BOTTOM.bit_on(200), false);
    assert_eq!(PosBit::RIGHT.bit_on(200), true);
    assert_eq!(PosBit::TOP.bit_on(255), true);
    assert_eq!(PosBit::BOTTOM.bit_on(16), false);
}

#[test]
fn new_keeps_the_order_of_the_edges() {
    let tile = Tile::new(true, false, false, true);
    assert_eq!(tile.top, true);
    assert_eq!(tile.left, false);
    assert_eq!(tile.bottom, false);
    assert_eq!(tile.right, true);
}

#[test]
fn code_eleven_is_top_left_right() {
    let tile = Tile::from_bits(11).unwrap();
    assert_eq!(tile, Tile { top: true, left: true, bottom: false, right: true });
    assert_eq!(tile.to_bits(), 11);
}

#[test]
fn to_bits_adds_the_weights() {
    assert_eq!(Tile::new(false, false, false, false).to_bits(), 0);
    assert_eq!(Tile::new(true, false, false, false).to_bits(), 1);
    assert_eq!(Tile::new(false, true, false, false).to_bits(), 2);
    assert_eq!(Tile::new(false, false, true, false).to_bits(), 4);
    assert_eq!(Tile::new(false, false, false, true).to_bits(), 8);
    assert_eq!(Tile::new(false, true, true, false).to_bits(), 6);
    assert_eq!(Tile::new(true, true, true, true).to_bits(), 15);
}

#[test]
fn decoding_then_encoding_gives_the_code_back() {
    for code in 0u8..16 {
        assert_eq!(Tile::from_bits(code).unwrap().to_bits(), code);
    }
}

#[test]
fn encoding_then_decoding_gives_the_tile_back() {
    for top in [false, true] {
        for left in [false, true] {
            for bottom in [false, true] {
                for right in [false, true] {
                    let tile = Tile::new(top, left, bottom, right);
                    assert_eq!(Tile::from_bits(tile.to_bits()), Ok(tile));
                }
            }
        }
    }
}

#[test]
fn transpose_swaps_across_the_diagonal() {
    let tile = Tile::new(true, false, false, true);
    assert_eq!(tile.transpose(), Tile::new(false, true, true, false));
    assert_eq!(Tile::from_bits(11).unwrap().transpose(), Tile::new(true, true, true, false));
}

#[test]
fn reflect_v_swaps_left_and_right() {
    let tile = Tile::new(true, true, false, false);
    assert_eq!(tile.reflect_v(), Tile::new(true, false, false, true));
    assert_eq!(Tile::from_bits(6).unwrap().reflect_v().to_bits(), 12);
}

#[test]
fn reflect_h_swaps_top_and_bottom() {
    let tile = Tile::new(true, true, false, false);
    assert_eq!(tile.reflect_h(), Tile::new(false, true, true, false));
    assert_eq!(Tile::from_bits(9).unwrap().reflect_h().to_bits(), 12);
}

#[test]
fn each_symmetry_undoes_itself() {
    for tile in all_tiles() {
        assert_eq!(tile.reflect_v().reflect_v(), tile);
        assert_eq!(tile.reflect_h().reflect_h(), tile);
        assert_eq!(tile.transpose().transpose(), tile);
    }
}

#[test]
fn the_two_reflections_commute() {
    for tile in all_tiles() {
        assert_eq!(tile.reflect_v().reflect_h(), tile.reflect_h().reflect_v());
    }
}

#[test]
fn constrain_takes_the_facing_edge_of_each_neighbour() {
    let free = Tile::new(true, true, true, true);
    let off = Tile::new(false, false, false, false);
    assert_eq!(free.constrain(None, None, None, None), free);
    assert_eq!(free.constrain(Some(&off), None, None, None), Tile::new(false, true, true, true));
    assert_eq!(free.constrain(None, Some(&off), None, None), Tile::new(true, false, true, true));
    assert_eq!(free.constrain(None, None, Some(&off), None), Tile::new(true, true, false, true));
    assert_eq!(free.constrain(None, None, None, Some(&off)), Tile::new(true, true, true, false));

    // Each neighbour is read on the side that faces the new tile.
    let above = Tile::new(true, true, false, true);
    let before = Tile::new(true, true, true, false);
    let below = Tile::new(false, true, true, true);
    let after = Tile::new(true, false, true, true);
    assert_eq!(
        free.constrain(Some(&above), Some(&before), Some(&below), Some(&after)),
        off
    );
    let on = Tile::new(true, true, true, true);
    assert_eq!(off.constrain(Some(&on), Some(&on), Some(&on), Some(&on)), on);
}

#[test]
fn new_with_constraints_matches_the_neighbours_given() {
    let above = Tile::new(false, false, true, false);
    let before = Tile::new(false, false, false, true);
    let below = Tile::new(true, false, false, false);
    let after = Tile::new(false, true, false, false);
    let none = Tile::new(false, false, false, false);
    for _ in 0..200 {
        let tile = Tile::new_with_constraints(Some(&above), Some(&before), Some(&below), Some(&after));
        assert_eq!(tile, Tile::new(true, true, true, true));
        let tile = Tile::new_with_constraints(Some(&none), Some(&none), Some(&none), Some(&none));
        assert_eq!(tile, none);
        let tile = Tile::new_with_constraints(Some(&above), None, None, Some(&none));
        assert_eq!(tile.top, true);
        assert_eq!(tile.right, false);
        let tile = Tile::new_with_constraints(None, Some(&before), Some(&none), None);
        assert_eq!(tile.left, true);
        assert_eq!(tile.bottom, false);
    }
}

#[test]
fn random_edges_take_both_values() {
    let mut on = [false; 4];
    let mut off = [false; 4];
    for _ in 0..400 {
        let tile = Tile::new_random();
        let edges = [tile.top, tile.left, tile.bottom, tile.right];
        for k in 0..4 {
            if edges[k] {
                on[k] = true;
            } else {
                off[k] = true;
            }
        }
    }
    assert_eq!(on, [true; 4]);
    assert_eq!(off, [true; 4]);
}

#[test]
fn free_edges_of_a_constrained_tile_take_both_values() {
    let above = Tile::new(false, false, true, false);
    let mut seen_on = false;
    let mut seen_off = false;
    for _ in 0..400 {
        let tile = Tile::new_with_constraints(Some(&above), None, None, None);
        assert_eq!(tile.top, true);
        if tile.left {
            seen_on = true;
        } else {
            seen_off = true;
        }
    }
    assert!(seen_on && seen_off);
}

#[test]
fn to_string_of_the_empty_tile() {
    assert_eq!(
        Tile::from_bits(0).unwrap().to_string(),
        "\u{25CC} \u{25CC} \u{25CC} \n\u{25CC} \u{25CC} \u{25CC} \n\u{25CC} \u{25CC} \u{25CC} \n"
    );
}

#[test]
fn to_string_of_code_eleven() {
    assert_eq!(
        Tile::from_bits(11).unwrap().to_string(),
        "\u{25A0} \u{25A0} \u{25A0} \n\u{25A0} \u{25AA} \u{25A0} \n\u{25AA} \u{25CC} \u{25AA} \n"
    );
}

#[test]
fn to_string_of_single_edges() {
    assert_eq!(
        Tile::from_bits(1).unwrap().to_string(),
        "\u{25AA} \u{25A0} \u{25AA} \n\u{25CC} \u{25AA} \u{25CC} \n\u{25CC} \u{25CC} \u{25CC} \n"
    );
    assert_eq!(
        Tile::from_bits(2).unwrap().to_string(),
        "\u{25AA} \u{25CC} \u{25CC} \n\u{25A0} \u{25AA} \u{25CC} \n\u{25AA} \u{25CC} \u{25CC} \n"
    );
    assert_eq!(
        Tile::from_bits(4).unwrap().to_string(),
        "\u{25CC} \u{25CC} \u{25CC} \n\u{25CC} \u{25AA} \u{25CC} \n\u{25AA} \u{25A0} \u{25AA} \n"
    );
    assert_eq!(
        Tile::from_bits(8).unwrap().to_string(),
        "\u{25CC} \u{25CC} \u{25AA} \n\u{25CC} \u{25AA} \u{25A0} \n\u{25CC} \u{25CC} \u{25AA} \n"
    );
}

#[test]
fn to_string_of_the_full_tile() {
    assert_eq!(
        Tile::from_bits(15).unwrap().to_string(),
        "\u{25A0} \u{25A0} \u{25A0} \n\u{25A0} \u{25AA} \u{25A0} \n\u{25A0} \u{25A0} \u{25A0} \n"
    );
}

#[test]
fn every_block_has_three_lines_of_three_glyphs() {
    for tile in all_tiles() {
        let text = tile.to_string();
        assert_eq!(text.chars().count(), 21);
        let lines: Vec<&str> = text.split('\n').collect();
        assert_eq!(lines.len(), 4);
        assert_eq!(lines[3], "");
        for line in &lines[0..3] {
            let glyphs: Vec<char> = line.chars().collect();
            assert_eq!(glyphs.len(), 6);
            assert_eq!(glyphs[1], ' ');
            assert_eq!(glyphs[3], ' ');
            assert_eq!(glyphs[5], ' ');
        }
        let middle: Vec<char> = lines[1].chars().collect();
        let top: Vec<char> = lines[0].chars().collect();
        let bottom: Vec<char> = lines[2].chars().collect();
        assert_eq!(top[2] == '\u{25A0}', tile.top);
        assert_eq!(middle[0] == '\u{25A0}', tile.left);
        assert_eq!(bottom[2] == '\u{25A0}', tile.bottom);
        assert_eq!(middle[4] == '\u{25A0}', tile.right);
    }
}
