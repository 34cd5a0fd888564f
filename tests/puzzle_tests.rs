use tile_captcha::challenge::{check_status, Challenge, ChallengeId, Status};
use tile_captcha::puzzle::{
    choose_cell, compose, cut_tiles, encode_puzzle, image_name_for, issue_puzzle, random_image_name, ChallengeStartDto,
    GRID_SIZE,
};
use tile_captcha::raster::{black, Raster, Rgba};

fn patterned(width: u32, height: u32) -> Raster {
    let mut pixels = Vec::new();
    for y in 0..height {
        for x in 0..width {
            pixels.push(Rgba { r: (x % 251) as u8, g: (y % 251) as u8, b: ((x * 3 + y) % 13) as u8 + 1, a: 255 });
        }
    }
    Raster { width, height, pixels }
}

fn px(img: &Raster, x: u32, y: u32) -> Rgba {
    img.pixels[(y * img.width + x) as usize]
}

#[test]
fn scenario_512_grid_4_hidden_7() {
    let img = patterned(512, 512);
    let p = compose(&img, GRID_SIZE, 7);
    assert_eq!(p.selected, 7);
    assert_eq!(p.tiles.len(), 16);
    for t in &p.tiles {
        assert_eq!((t.width, t.height), (128, 128));
    }
    for y in 0..512 {
        for x in 0..512 {
            let inside = (384..512).contains(&x) && (128..256).contains(&y);
            if inside {
                assert_eq!(px(&p.composite, x, y), black());
            } else {
                assert_eq!(px(&p.composite, x, y), px(&img, x, y));
            }
        }
    }
    assert_eq!(px(&p.tiles[7], 0, 0), px(&img, 384, 128));

    let id = ChallengeId { bytes: [7; 12] };
    let mut right = Challenge::new(id, p.selected);
    assert!(right.record_answer(7, 1_700_000_000).is_ok());
    match check_status(Some(right)) {
        Status::Answered(d) => {
            assert!(d.success);
            assert_eq!(d.timestamp, 1_700_000_000);
        }
        _ => panic!("expected a verdict"),
    }
    let mut wrong = Challenge::new(id, p.selected);
    assert!(wrong.record_answer(2, 1_700_000_001).is_ok());
    match check_status(Some(wrong)) {
        Status::Answered(d) => assert!(!d.success),
        _ => panic!("expected a verdict"),
    }
}

#[test]
fn tiles_are_cut_row_by_row() {
    let img = patterned(8, 4);
    let tiles = cut_tiles(&img, 2);
    assert_eq!(tiles.len(), 4);
    assert_eq!(px(&tiles[1], 0, 0), px(&img, 4, 0));
    assert_eq!(px(&tiles[2], 0, 0), px(&img, 0, 2));
    assert_eq!(px(&tiles[3], 3, 1), px(&img, 7, 3));
}

#[test]
fn composite_changes_only_the_hidden_cell() {
    let img = patterned(12, 12);
    for hidden in 0..9u32 {
        let p = compose(&img, 3, hidden);
        let (cx, cy) = ((hidden % 3) * 4, (hidden / 3) * 4);
        for y in 0..12 {
            for x in 0..12 {
                if x >= cx && x < cx + 4 && y >= cy && y < cy + 4 {
                    assert_eq!(px(&p.composite, x, y), black());
                } else {
                    assert_eq!(px(&p.composite, x, y), px(&img, x, y));
                }
            }
        }
    }
}

#[test]
fn hidden_cell_is_uniform() {
    let trials = 16000;
    let mut counts = [0u32; 16];
    for _ in 0..trials {
        let c = choose_cell(4);
        assert!(c < 16);
        counts[c as usize] += 1;
    }
    for c in counts {
        assert!(c > 700 && c < 1300, "cell drawn {} times in {}", c, trials);
    }
}

#[test]
fn issued_puzzle_hides_a_valid_cell() {
    let img = patterned(16, 16);
    let p = issue_puzzle(&img, 4);
    assert!(p.selected < 16);
    let t = &p.tiles[p.selected as usize];
    assert!(t.pixels.iter().all(|&q| q != black()));
    let (cx, cy) = ((p.selected % 4) * 4, (p.selected / 4) * 4);
    assert_eq!(px(&p.composite, cx, cy), black());
}

#[test]
fn encoded_puzzle_uses_base64() {
    let img = Raster { width: 2, height: 1, pixels: vec![Rgba { r: 1, g: 2, b: 3, a: 4 }, Rgba { r: 0, g: 0, b: 0, a: 255 }] };
    let p = compose(&img, 1, 0);
    let dto = encode_puzzle(String::from("abc"), &p);
    assert_eq!(dto.id, "abc");
    assert_eq!(dto.big_img, "AAAA/wAAAP8=");
    assert_eq!(dto.small_imgs, vec![String::from("AQIDBAAAAP8=")]);
}

#[test]
fn start_payload_keeps_its_parts() {
    let dto = ChallengeStartDto::new(String::from("x"), String::from("y"), vec![String::from("z")]);
    assert_eq!(dto.id, "x");
    assert_eq!(dto.big_img, "y");
    assert_eq!(dto.small_imgs, vec![String::from("z")]);
}

#[test]
fn image_name_comes_from_the_pool() {
    for _ in 0..20 {
        let name = random_image_name();
        assert!(name == "17-norway-landscape-photography.jpg" || name == "880-winter-rocky-landscape.jpg");
    }
}

#[test]
fn image_name_follows_the_draw() {
    assert_eq!(image_name_for(0), "17-norway-landscape-photography.jpg");
    assert_eq!(image_name_for(1), "880-winter-rocky-landscape.jpg");
}
