use std::io::Cursor;
use tile_captcha::grid::TileRect;
use tile_captcha::raster::{black, Raster, Rgba};

fn patterned(width: u32, height: u32) -> Raster {
    let mut pixels = Vec::new();
    for y in 0..height {
        for x in 0..width {
            pixels.push(Rgba { r: (x % 251) as u8, g: (y % 251) as u8, b: ((x + y) % 7) as u8 + 1, a: 200 });
        }
    }
    Raster { width, height, pixels }
}

#[test]
fn black_is_opaque() {
    assert_eq!(black(), Rgba { r: 0, g: 0, b: 0, a: 255 });
}

#[test]
fn bytes_round_trip() {
    let bytes: Vec<u8> = (0..24).collect();
    let img = Raster::from_rgba_bytes(3, 2, &bytes).unwrap();
    assert_eq!(img.pixels.len(), 6);
    assert_eq!(img.pixels[1], Rgba { r: 4, g: 5, b: 6, a: 7 });
    assert_eq!(img.to_rgba_bytes(), bytes);
}

#[test]
fn bytes_of_wrong_length_are_refused() {
    let bytes: Vec<u8> = (0..23).collect();
    assert!(Raster::from_rgba_bytes(3, 2, &bytes).is_none());
    let bytes: Vec<u8> = (0..28).collect();
    assert!(Raster::from_rgba_bytes(3, 2, &bytes).is_none());
    assert!(Raster::from_rgba_bytes(0, 5, &[]).is_some());
}

#[test]
fn crop_takes_the_covered_pixels() {
    let img = patterned(6, 4);
    let t = img.crop(TileRect { x: 2, y: 1, width: 3, height: 2 });
    assert_eq!((t.width, t.height), (3, 2));
    assert_eq!(t.pixels.len(), 6);
    for py in 0..2u32 {
        for px in 0..3u32 {
            assert_eq!(t.pixels[(py * 3 + px) as usize], img.pixels[((py + 1) * 6 + px + 2) as usize]);
        }
    }
}

#[test]
fn black_out_paints_only_the_rectangle() {
    let img = patterned(5, 5);
    let mut out = img.copy();
    let rect = TileRect { x: 1, y: 2, width: 2, height: 3 };
    out.black_out(rect);
    for y in 0..5u32 {
        for x in 0..5u32 {
            let k = (y * 5 + x) as usize;
            if x >= 1 && x < 3 && y >= 2 && y < 5 {
                assert_eq!(out.pixels[k], black());
            } else {
                assert_eq!(out.pixels[k], img.pixels[k]);
            }
        }
    }
}

#[test]
fn decode_reads_a_png() {
    let raw: Vec<u8> = (0..16).map(|v| v * 10).collect();
    let buf = image::RgbaImage::from_raw(2, 2, raw.clone()).unwrap();
    let mut png = Cursor::new(Vec::new());
    image::DynamicImage::ImageRgba8(buf).write_to(&mut png, image::ImageOutputFormat::Png).unwrap();
    let img = Raster::decode(png.get_ref()).unwrap();
    assert_eq!((img.width, img.height), (2, 2));
    assert_eq!(img.to_rgba_bytes(), raw);
}

#[test]
fn decode_refuses_garbage() {
    assert!(Raster::decode(&[1, 2, 3, 4, 5]).is_none());
}
