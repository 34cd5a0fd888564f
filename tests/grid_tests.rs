use tile_captcha::grid::{partition, tile_rect, TileRect};

#[test]
fn partition_gives_n_squared_tiles_covering_the_image_once() {
    let tiles = partition(512, 512, 4);
    assert_eq!(tiles.len(), 16);
    let mut area: u64 = 0;
    for t in &tiles {
        assert_eq!((t.width, t.height), (128, 128));
        area += t.width as u64 * t.height as u64;
    }
    assert_eq!(area, 512 * 512);
    let mut hits = vec![0u32; 512 * 512];
    for t in &tiles {
        for y in t.y..t.y + t.height {
            for x in t.x..t.x + t.width {
                hits[(y * 512 + x) as usize] += 1;
            }
        }
    }
    assert!(hits.iter().all(|&h| h == 1));
}

#[test]
fn partition_of_non_square_image() {
    let tiles = partition(6, 9, 3);
    assert_eq!(tiles.len(), 9);
    assert_eq!(tiles[0], TileRect { x: 0, y: 0, width: 2, height: 3 });
    assert_eq!(tiles[5], TileRect { x: 4, y: 3, width: 2, height: 3 });
    assert_eq!(tiles[8], TileRect { x: 4, y: 6, width: 2, height: 3 });
}

#[test]
fn tile_rect_counts_cells_row_by_row() {
    assert_eq!(tile_rect(512, 512, 4, 7), TileRect { x: 384, y: 128, width: 128, height: 128 });
    assert_eq!(tile_rect(512, 512, 4, 2), TileRect { x: 256, y: 0, width: 128, height: 128 });
    assert_eq!(tile_rect(512, 512, 4, 15), TileRect { x: 384, y: 384, width: 128, height: 128 });
}

#[test]
fn single_cell_grid_is_the_whole_image() {
    let tiles = partition(10, 7, 1);
    assert_eq!(tiles, vec![TileRect { x: 0, y: 0, width: 10, height: 7 }]);
}

#[test]
fn empty_image_gives_empty_tiles() {
    let tiles = partition(0, 0, 4);
    assert_eq!(tiles.len(), 16);
    assert!(tiles.iter().all(|t| t.width == 0 && t.height == 0));
}
