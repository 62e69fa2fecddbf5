use dice_wars::geometry::{PixelPos, PointsTranslator, Rect};
use dice_wars::{FIELD_SIZE, MARGIN};

#[test]
fn cell_dims_tile_divisible_canvas() {
    // 160 and 320 are multiples of the grid side, so the cells tile exactly.
    let t = PointsTranslator::new(160, 320);
    assert_eq!(t.cell_width, 10);
    assert_eq!(t.cell_height, 20);
    assert_eq!(t.cell_width * FIELD_SIZE as u64, 160);
    assert_eq!(t.cell_height * FIELD_SIZE as u64, 320);
}

#[test]
fn cell_dims_round_down_on_indivisible_canvas() {
    let t = PointsTranslator::new(170, 170);
    assert_eq!(t.cell_width, 10);
    assert_eq!(t.cell_height, 10);
}

#[test]
fn corner_and_center_positions() {
    let t = PointsTranslator::new(160, 160);
    let corner = t.coords_to_position(2, 3);
    assert_eq!((corner.x, corner.y), (20, 30));
    let center = t.coords_to_center(2, 3);
    assert_eq!((center.x, center.y), (25, 35));
    let origin = t.coords_to_position(0, 0);
    assert_eq!((origin.x, origin.y), (0, 0));
}

#[test]
fn cell_fill_rectangles_exact() {
    let t = PointsTranslator::new(160, 160);
    let (bg, ct) = t.get_cell_fill(2, 3);
    assert_eq!(bg, Rect { x: 20, y: 30, width: 10, height: 10 });
    assert_eq!(ct, Rect { x: 22, y: 32, width: 6, height: 6 });
}

#[test]
fn content_rect_inset_by_margin_on_all_sides() {
    let t = PointsTranslator::new(160, 160);
    for i in 0..FIELD_SIZE {
        for j in 0..FIELD_SIZE {
            let (bg, ct) = t.get_cell_fill(i, j);
            assert_eq!(ct.x, bg.x + MARGIN);
            assert_eq!(ct.y, bg.y + MARGIN);
            assert_eq!(ct.x + ct.width + MARGIN, bg.x + bg.width);
            assert_eq!(ct.y + ct.height + MARGIN, bg.y + bg.height);
            assert!(bg.x < ct.x && ct.x + ct.width < bg.x + bg.width);
            assert!(bg.y < ct.y && ct.y + ct.height < bg.y + bg.height);
        }
    }
}

#[test]
fn center_round_trips_through_pixel_to_cell() {
    let t = PointsTranslator::new(160, 160);
    for i in 0..FIELD_SIZE {
        for j in 0..FIELD_SIZE {
            let center = t.coords_to_center(i, j);
            assert_eq!(t.pixel_to_cell(&center), (i, j));
        }
    }
}

#[test]
fn pixel_to_cell_clamps_to_grid() {
    let t = PointsTranslator::new(160, 160);
    assert_eq!(t.pixel_to_cell(&PixelPos { x: 0, y: 0 }), (0, 0));
    assert_eq!(t.pixel_to_cell(&PixelPos { x: 159, y: 159 }), (15, 15));
    assert_eq!(t.pixel_to_cell(&PixelPos { x: 100_000, y: 100_000 }), (15, 15));
}

#[test]
fn position_to_coords_uses_asymmetric_offsets() {
    let t = PointsTranslator::new(160, 160);
    // The column index is pulled back by one, the row index by two.
    assert_eq!(t.position_to_coords(&PixelPos { x: 25, y: 35 }), (2, 2));
    assert_eq!(t.position_to_coords(&PixelPos { x: 0, y: 0 }), (0, 0));
    assert_eq!(t.position_to_coords(&PixelPos { x: 160, y: 160 }), (15, 14));
}

#[test]
fn largest_canvas_stays_in_bounds() {
    let t = PointsTranslator::new(u64::MAX, u64::MAX);
    assert_eq!(t.cell_width, u64::MAX / 16);
    let corner = t.coords_to_position(15, 15);
    assert_eq!(corner.x, 15 * (u64::MAX / 16));
    let (bg, ct) = t.get_cell_fill(15, 15);
    assert_eq!(bg.x, corner.x);
    assert_eq!(ct.x, corner.x + MARGIN);
}

#[test]
fn smallest_wellformed_canvas() {
    // 80 pixels give 5-pixel cells, the narrowest that hold the margin inset.
    let t = PointsTranslator::new(80, 80);
    assert_eq!(t.cell_width, 5);
    let (bg, ct) = t.get_cell_fill(1, 1);
    assert_eq!(bg, Rect { x: 5, y: 5, width: 5, height: 5 });
    assert_eq!(ct, Rect { x: 7, y: 7, width: 1, height: 1 });
}
