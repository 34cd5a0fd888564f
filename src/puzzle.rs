//! Building a puzzle: the tiles of an image, the hidden cell, and the image
//! with that cell painted black.

use rand::Rng;
use vstd::prelude::*;
use crate::codec::{base64_of, encode_base64};
use crate::grid::{grid_fits, partition, tile_rect, tile_spec};
use crate::raster::{black_spec, rgba_bytes, Raster};

verus! {

/// Number of tiles along each side of the grid in issued puzzles.
pub const GRID_SIZE: u32 = 4;

/// `t` is the part of `img` that `rect` covers.
pub open spec fn is_crop(t: Raster, img: Raster, rect: crate::grid::TileRect) -> bool {
    &&& t.wf()
    &&& t.width == rect.width
    &&& t.height == rect.height
    &&& forall|px: int, py: int| 0 <= px < rect.width && 0 <= py < rect.height ==>
        #[trigger] t.pixel(px, py) == img.pixel(rect.x + px, rect.y + py)
}

/// `c` is `img` with the tile of cell `hidden` painted opaque black, and
/// nothing else changed.
pub open spec fn is_composite(c: Raster, img: Raster, n: u32, hidden: int) -> bool {
    &&& c.wf()
    &&& c.width == img.width
    &&& c.height == img.height
    &&& forall|px: int, py: int| 0 <= px < img.width && 0 <= py < img.height ==>
        #[trigger] c.pixel(px, py) == if tile_spec(img.width, img.height, n, hidden).contains(px, py) {
            black_spec()
        } else {
            img.pixel(px, py)
        }
}

/// `tiles` are the `n * n` tiles of `img`, cell by cell.
pub open spec fn are_tiles(tiles: Seq<Raster>, img: Raster, n: u32) -> bool {
    &&& tiles.len() == n * n
    &&& forall|i: int| 0 <= i < tiles.len() ==>
        #[trigger] is_crop(tiles[i], img, tile_spec(img.width, img.height, n, i))
}

/// An issued puzzle before encoding: the hidden cell, the image shown to the
/// solver, and every tile of the grid.
#[derive(Clone, Debug)]
pub struct Puzzle {
    pub selected: u32,
    pub composite: Raster,
    pub tiles: Vec<Raster>,
}

/// `p` is the puzzle over `img` with an `n` × `n` grid that hides cell
/// `selected`.
pub open spec fn is_puzzle(p: Puzzle, img: Raster, n: u32, selected: int) -> bool {
    &&& p.selected == selected
    &&& is_composite(p.composite, img, n, selected)
    &&& are_tiles(p.tiles@, img, n)
}

/// Cuts `img` into the `n * n` tiles of its grid, cell by cell.
pub fn cut_tiles(img: &Raster, n: u32) -> (r: Vec<Raster>)
    requires
        img.wf(),
        grid_fits(img.width, img.height, n),
    ensures
        are_tiles(r@, *img, n),
{
    let rects = partition(img.width, img.height, n);
    let mut tiles: Vec<Raster> = Vec::new();
    let mut i: usize = 0;
    while i < rects.len()
        invariant
            img.wf(),
            grid_fits(img.width, img.height, n),
            rects@.len() == n * n,
            forall|k: int| 0 <= k < rects@.len() ==> rects@[k] == #[trigger] tile_spec(img.width, img.height, n, k),
            i <= rects@.len(),
            tiles@.len() == i,
            forall|k: int| 0 <= k < i ==>
                #[trigger] is_crop(tiles@[k], *img, tile_spec(img.width, img.height, n, k)),
        decreases rects@.len() - i,
    {
        let rect = tile_rect(img.width, img.height, n, i as u32);
        assert(rect == rects@[i as int]);
        let t = img.crop(rect);
        tiles.push(t);
        i = i + 1;
    }
    tiles
}

/// Builds the puzzle over `img` with an `n` × `n` grid that hides cell
/// `selected`: the tiles, and `img` with that cell painted black.
pub fn compose(img: &Raster, n: u32, selected: u32) -> (r: Puzzle)
    requires
        img.wf(),
        grid_fits(img.width, img.height, n),
        selected < n * n,
    ensures
        is_puzzle(r, *img, n, selected as int),
{
    let tiles = cut_tiles(img, n);
    let rect = tile_rect(img.width, img.height, n, selected);
    let mut composite = img.copy();
    composite.black_out(rect);
    Puzzle { selected, composite, tiles }
}

/// Relies on `rand::thread_rng` and `Rng::gen_range`, which draws uniformly
/// from `0 .. bound` and panics on an empty range.
#[verifier::external_body]
fn random_below(bound: u32) -> (r: u32)
    requires
        0 < bound,
    ensures
        r < bound,
{
    rand::thread_rng().gen_range(0..bound)
}

/// Draws the cell to hide in an `n` × `n` grid.
pub fn choose_cell(n: u32) -> (r: u32)
    requires
        0 < n,
        n * n <= u32::MAX,
    ensures
        r < n * n,
{
    proof {
        vstd::arithmetic::mul::lemma_mul_strictly_positive(n as int, n as int);
    }
    random_below(n * n)
}

/// Issues a puzzle over `img` with an `n` × `n` grid, hiding a cell drawn at
/// random.
pub fn issue_puzzle(img: &Raster, n: u32) -> (r: Puzzle)
    requires
        img.wf(),
        grid_fits(img.width, img.height, n),
    ensures
        r.selected < n * n,
        is_puzzle(r, *img, n, r.selected as int),
{
    let selected = choose_cell(n);
    compose(img, n, selected)
}

/// First of the images that puzzles are cut from.
pub open spec fn first_source_name() -> Seq<char> {
    "17-norway-landscape-photography.jpg"@
}

/// Second of the images that puzzles are cut from.
pub open spec fn second_source_name() -> Seq<char> {
    "880-winter-rocky-landscape.jpg"@
}

/// The name of source image number `draw` of the pool.
pub fn image_name_for(draw: u32) -> (r: &'static str)
    requires
        draw < 2,
    ensures
        draw == 0 ==> r@ == first_source_name(),
        draw == 1 ==> r@ == second_source_name(),
{
    if draw == 0 {
        "17-norway-landscape-photography.jpg"
    } else {
        "880-winter-rocky-landscape.jpg"
    }
}

/// Draws the name of the image to cut the next puzzle from.
pub fn random_image_name() -> (r: &'static str)
    ensures
        r@ == first_source_name() || r@ == second_source_name(),
{
    image_name_for(random_below(2))
}

/// What the solver receives when a challenge starts: its identifier, the
/// image with the hidden cell painted black, and every tile, each encoded in
/// base64.
#[derive(Clone, Debug)]
pub struct ChallengeStartDto {
    pub id: String,
    pub big_img: String,
    pub small_imgs: Vec<String>,
}

impl ChallengeStartDto {
    /// Gathers the three parts of a start payload.
    pub fn new(id: String, big_img: String, small_imgs: Vec<String>) -> (r: Self)
        ensures
            r.id == id,
            r.big_img == big_img,
            r.small_imgs == small_imgs,
    {
        ChallengeStartDto { id, big_img, small_imgs }
    }
}

/// Encodes a puzzle for the challenge `id`: the composite's RGBA bytes and
/// each tile's, cell by cell, in base64.
pub fn encode_puzzle(id: String, p: &Puzzle) -> (r: ChallengeStartDto)
    ensures
        r.id == id,
        r.big_img@ == base64_of(rgba_bytes(p.composite.pixels@)),
        r.small_imgs@.len() == p.tiles@.len(),
        forall|i: int| 0 <= i < p.tiles@.len() ==>
            (#[trigger] r.small_imgs@[i])@ == base64_of(rgba_bytes(p.tiles@[i].pixels@)),
{
    let big = encode_base64(p.composite.to_rgba_bytes().as_slice());
    let mut small: Vec<String> = Vec::new();
    let mut i: usize = 0;
    while i < p.tiles.len()
        invariant
            i <= p.tiles@.len(),
            small@.len() == i,
            forall|k: int| 0 <= k < i ==>
                (#[trigger] small@[k])@ == base64_of(rgba_bytes(p.tiles@[k].pixels@)),
        decreases p.tiles@.len() - i,
    {
        let bytes = p.tiles[i].to_rgba_bytes();
        small.push(encode_base64(bytes.as_slice()));
        i = i + 1;
    }
    ChallengeStartDto::new(id, big, small)
}

} // verus!
