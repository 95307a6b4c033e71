//! Tall images, cut into tiles that fit on a page.

use vstd::prelude::*;

verus! {

/// `tiny_skia::Pixmap`: an image of premultiplied RGBA pixels, opaque here.
#[verifier::external_type_specification]
#[verifier::external_body]
pub struct ExPixmap(tiny_skia::Pixmap);

/// The bytes of an image, row by row, four for each pixel.
pub uninterp spec fn pixmap_bytes(pixmap: tiny_skia::Pixmap) -> Seq<u8>;

/// The width of an image in pixels.
pub uninterp spec fn pixmap_width(pixmap: tiny_skia::Pixmap) -> u32;

/// The height of an image in pixels.
pub uninterp spec fn pixmap_height(pixmap: tiny_skia::Pixmap) -> u32;

/// `tiny_skia::Pixmap::width`: the width, which is never zero.
pub assume_specification[ tiny_skia::Pixmap::width ](pixmap: &tiny_skia::Pixmap) -> (r: u32)
    ensures
        r == pixmap_width(*pixmap),
        r > 0,
;

/// `tiny_skia::Pixmap::height`: the height, which is never zero.
pub assume_specification[ tiny_skia::Pixmap::height ](pixmap: &tiny_skia::Pixmap) -> (r: u32)
    ensures
        r == pixmap_height(*pixmap),
        r > 0,
;

/// `tiny_skia::Pixmap::data`: the bytes, four for each pixel and nothing between
/// the rows.
pub assume_specification[ tiny_skia::Pixmap::data ](pixmap: &tiny_skia::Pixmap) -> (r: &[u8])
    ensures
        r@ == pixmap_bytes(*pixmap),
        r@.len() == 4 * pixmap_width(*pixmap) * pixmap_height(*pixmap),
;

/// The bytes of the rows of an image from `start` to `end`.
pub open spec fn rows_of(pixmap: tiny_skia::Pixmap, start: u32, end: u32) -> Seq<u8> {
    pixmap_bytes(pixmap).subrange(
        4 * pixmap_width(pixmap) * start,
        4 * pixmap_width(pixmap) * end,
    )
}

/// Whether the corners of an image fit 31 bits, and the numbers of its pixels 32.
pub open spec fn splittable(width: u32, height: u32) -> bool {
    width <= i32::MAX && height <= i32::MAX && width * height <= u32::MAX
}

/// `tiny_skia::Pixmap::clone_rect` on the rectangle of all columns and the rows
/// from `start` to `end`: an image of those rows. The rectangle lies inside the
/// image, and all its corners and pixel numbers fit the types they are computed
/// in, so there is one.
#[verifier::external_body]
fn clone_rows(pixmap: &tiny_skia::Pixmap, start: u32, end: u32) -> (r: Option<tiny_skia::Pixmap>)
    requires
        start < end <= pixmap_height(*pixmap),
        splittable(pixmap_width(*pixmap), pixmap_height(*pixmap)),
    ensures
        r is Some,
        r matches Some(tile) ==> pixmap_width(tile) == pixmap_width(*pixmap),
        r matches Some(tile) ==> pixmap_height(tile) == end - start,
        r matches Some(tile) ==> pixmap_bytes(tile) == rows_of(*pixmap, start, end),
{
    tiny_skia::IntRect::from_ltrb(0, start as i32, pixmap.width() as i32, end as i32)
        .and_then(|rect| pixmap.clone_rect(rect))
}

/// The image file of pixels, where they can be encoded.
pub uninterp spec fn png_of(width: u32, height: u32, pixels: Seq<u8>) -> Option<Seq<u8>>;

/// `tiny_skia::Pixmap::encode_png`, without its error: a function of the size and
/// the pixels.
#[verifier::external_body]
fn encode(pixmap: &tiny_skia::Pixmap) -> (r: Option<Vec<u8>>)
    ensures
        opt_bytes(r) == png_of(
            pixmap_width(*pixmap),
            pixmap_height(*pixmap),
            pixmap_bytes(*pixmap),
        ),
{
    pixmap.encode_png().ok()
}

/// The size and the pixels of an image file, where it can be decoded.
pub uninterp spec fn decoded_png(data: Seq<u8>) -> Option<(u32, u32, Seq<u8>)>;

/// `tiny_skia::Pixmap::decode_png`, without its error: a function of the data.
#[verifier::external_body]
fn decode(data: &[u8]) -> (r: Option<tiny_skia::Pixmap>)
    ensures
        r is Some <==> decoded_png(data@) is Some,
        r matches Some(pixmap) ==> decoded_png(data@) == Some(
            (pixmap_width(pixmap), pixmap_height(pixmap), pixmap_bytes(pixmap)),
        ),
{
    tiny_skia::Pixmap::decode_png(data).ok()
}

/// Bytes, where there are any.
pub open spec fn opt_bytes(bytes: Option<Vec<u8>>) -> Option<Seq<u8>> {
    match bytes {
        Some(bytes) => Some(bytes@),
        None => None,
    }
}

/// Why an image could not be tiled.
#[derive(Debug, Copy, Clone, PartialEq, Eq, Structural)]
pub enum TileError {
    /// The image file could not be decoded.
    Undecodable,
    /// The image could not be split.
    Unsplittable,
    /// A tile could not be encoded.
    Unencodable,
}

impl TileError {
    /// What the error says.
    pub fn message(self) -> (r: &'static str)
        ensures
            r@ == (match self {
                TileError::Undecodable => "could not decode DOCX raster fallback"@,
                TileError::Unsplittable => "could not split DOCX raster fallback"@,
                TileError::Unencodable => "could not encode DOCX raster tile"@,
            }),
    {
        match self {
            TileError::Undecodable => "could not decode DOCX raster fallback",
            TileError::Unsplittable => "could not split DOCX raster fallback",
            TileError::Unencodable => "could not encode DOCX raster tile",
        }
    }
}

/// How many rows above the page limit are searched for a seam.
pub const SEAM_ROWS: u32 = 64;

/// Whether every pixel of a row is transparent.
pub open spec fn transparent(bytes: Seq<u8>, width: int, row: int) -> bool {
    forall|x: int| 0 <= x < width ==> #[trigger] bytes[4 * (row * width + x) + 3] == 0
}

/// The lowest transparent row from `row` up to `low`, or -1.
pub open spec fn seam(bytes: Seq<u8>, width: int, row: int, low: int) -> int
    decreases row - low + 1,
{
    if row < low {
        -1
    } else if transparent(bytes, width, row) {
        row
    } else {
        seam(bytes, width, row - 1, low)
    }
}

/// The smaller of two numbers.
pub open spec fn lesser(a: int, b: int) -> int {
    if a < b {
        a
    } else {
        b
    }
}

/// The row at which the tile that starts at `start` ends: below the lowest
/// transparent row near the limit, so that nothing is cut in half, or at the limit
/// itself where there is no such row.
pub open spec fn tile_end(bytes: Seq<u8>, width: int, height: int, start: int, max: int) -> int {
    let target = lesser(start + max, height);
    let low = if target - SEAM_ROWS > start + 1 {
        target - SEAM_ROWS
    } else {
        start + 1
    };
    let row = seam(bytes, width, target - 1, low);
    if row >= 0 {
        row + 1
    } else {
        target
    }
}

proof fn lemma_seam(bytes: Seq<u8>, width: int, row: int, low: int)
    ensures
        seam(bytes, width, row, low) == -1 || low <= seam(bytes, width, row, low) <= row,
    decreases row - low + 1,
{
    if row >= low && !transparent(bytes, width, row) {
        lemma_seam(bytes, width, row - 1, low);
    }
}

proof fn lemma_tile_end(bytes: Seq<u8>, width: int, height: int, start: int, max: int)
    requires
        0 <= start < height,
        max > 0,
    ensures
        start < tile_end(bytes, width, height, start, max) <= height,
        tile_end(bytes, width, height, start, max) <= start + max,
{
    let target = lesser(start + max, height);
    let low = if target - SEAM_ROWS > start + 1 {
        target - SEAM_ROWS
    } else {
        start + 1
    };
    lemma_seam(bytes, width, target - 1, low);
}

/// The rows at which the tiles from `start` on end.
pub open spec fn tile_ends(
    bytes: Seq<u8>,
    width: int,
    height: int,
    start: int,
    max: int,
) -> Seq<int>
    decreases height - start,
{
    let end = tile_end(bytes, width, height, start, max);
    if 0 <= start < height && max > 0 && start < end <= height {
        seq![end] + tile_ends(bytes, width, height, end, max)
    } else {
        Seq::empty()
    }
}

fn is_transparent(bytes: &[u8], width: u32, height: u32, row: u32) -> (r: bool)
    requires
        row < height,
        bytes@.len() == 4 * width * height,
        4 * width * height <= usize::MAX,
        width > 0,
    ensures
        r == transparent(bytes@, width as int, row as int),
{
    let mut x: u32 = 0;
    while x < width
        invariant
            x <= width,
            row < height,
            bytes@.len() == 4 * width * height,
            4 * width * height <= usize::MAX,
            forall|k: int|
                0 <= k < x ==> #[trigger] bytes@[4 * (row as int * width as int + k) + 3] == 0,
        decreases width - x,
    {
        assert(row * width + x < width * height) by (nonlinear_arith)
            requires
                0 <= row < height,
                0 <= x < width,
        ;
        assert(4 * width * height == 4 * (width * height)) by (nonlinear_arith);
        assert(0 <= row * width) by (nonlinear_arith)
            requires
                0 <= row,
                0 <= width,
        ;
        let i: usize = 4 * (row as usize * width as usize + x as usize) + 3;
        if bytes[i] != 0 {
            assert(bytes@[4 * (row as int * width as int + x as int) + 3] != 0);
            return false;
        }
        x = x + 1;
    }
    true
}

fn find_tile_end(bytes: &[u8], width: u32, height: u32, start: u32, max: u32) -> (r: u32)
    requires
        start < height,
        max > 0,
        width > 0,
        bytes@.len() == 4 * width * height,
        4 * width * height <= usize::MAX,
    ensures
        r == tile_end(bytes@, width as int, height as int, start as int, max as int),
        start < r <= height,
{
    proof {
        lemma_tile_end(bytes@, width as int, height as int, start as int, max as int);
    }
    let target: u32 = if max < height - start {
        start + max
    } else {
        height
    };
    let low: u32 = if target - start > SEAM_ROWS + 1 {
        target - SEAM_ROWS
    } else {
        start + 1
    };
    let mut row: u32 = target;
    while row > low
        invariant
            start < height,
            start + 1 <= low,
            start < row <= target <= height,
            bytes@.len() == 4 * width * height,
            4 * width * height <= usize::MAX,
            width > 0,
            seam(bytes@, width as int, target - 1, low as int) == seam(
                bytes@,
                width as int,
                row - 1,
                low as int,
            ),
            start < tile_end(
                bytes@,
                width as int,
                height as int,
                start as int,
                max as int,
            ) <= height,
            target == lesser(start + max, height as int),
            low == (if target - SEAM_ROWS > start + 1 {
                target - SEAM_ROWS
            } else {
                start + 1
            }),
        decreases row,
    {
        if is_transparent(bytes, width, height, row - 1) {
            return row;
        }
        row = row - 1;
    }
    target
}

/// A tile: its image file and its height in pixels.
pub struct Tile {
    pub png: Vec<u8>,
    pub rows: u32,
}

/// The image files of the tiles that end at rows, from `start` on.
pub open spec fn tile_pngs(bytes: Seq<u8>, width: u32, start: int, ends: Seq<int>) -> Seq<
    (Option<Seq<u8>>, int),
>
    decreases ends.len(),
{
    if ends.len() == 0 {
        Seq::empty()
    } else {
        let end = ends.last();
        let from = if ends.len() > 1 {
            ends[ends.len() - 2]
        } else {
            start
        };
        tile_pngs(bytes, width, start, ends.drop_last()).push(
            (
                png_of(
                    width,
                    (end - from) as u32,
                    bytes.subrange(4 * width * from, 4 * width * end),
                ),
                end - from,
            ),
        )
    }
}

/// Whether every tile could be encoded.
pub open spec fn all_encoded(pngs: Seq<(Option<Seq<u8>>, int)>) -> bool {
    forall|i: int| 0 <= i < pngs.len() ==> (#[trigger] pngs[i]).0 is Some
}

/// Tiles, one by one.
pub open spec fn tile_looks(tiles: Seq<Tile>) -> Seq<(Option<Seq<u8>>, int)> {
    tiles.map_values(|t: Tile| (Some(t.png@), t.rows as int))
}

/// The tiles of an image, as image files.
pub open spec fn tiles_of(width: u32, height: u32, bytes: Seq<u8>, max: int) -> Seq<
    (Option<Seq<u8>>, int),
> {
    tile_pngs(bytes, width, 0, tile_ends(bytes, width as int, height as int, 0, max))
}

proof fn lemma_ends_step(
    bytes: Seq<u8>,
    width: int,
    height: int,
    start: int,
    max: int,
    done: Seq<int>,
)
    requires
        0 <= start < height,
        max > 0,
    ensures
        ({
            let end = tile_end(bytes, width, height, start, max);
            done + tile_ends(bytes, width, height, start, max) == done.push(end) + tile_ends(
                bytes,
                width,
                height,
                end,
                max,
            )
        }),
{
    let end = tile_end(bytes, width, height, start, max);
    lemma_tile_end(bytes, width, height, start, max);
    assert(done + (seq![end] + tile_ends(bytes, width, height, end, max)) =~= done.push(end)
        + tile_ends(bytes, width, height, end, max));
}

proof fn lemma_pngs_prefix(bytes: Seq<u8>, width: u32, start: int, a: Seq<int>, b: Seq<int>)
    ensures
        tile_pngs(bytes, width, start, a + b).len() == a.len() + b.len(),
        tile_pngs(bytes, width, start, a + b).take(a.len() as int) == tile_pngs(
            bytes,
            width,
            start,
            a,
        ),
    decreases b.len(),
{
    if b.len() == 0 {
        assert(a + b =~= a);
        lemma_pngs_len(bytes, width, start, a);
        assert(tile_pngs(bytes, width, start, a).take(a.len() as int) =~= tile_pngs(
            bytes,
            width,
            start,
            a,
        ));
    } else {
        lemma_pngs_prefix(bytes, width, start, a, b.drop_last());
        assert((a + b).drop_last() =~= a + b.drop_last());
        assert(tile_pngs(bytes, width, start, a + b).take(a.len() as int) =~= tile_pngs(
            bytes,
            width,
            start,
            a + b.drop_last(),
        ).take(a.len() as int));
    }
}

proof fn lemma_pngs_len(bytes: Seq<u8>, width: u32, start: int, ends: Seq<int>)
    ensures
        tile_pngs(bytes, width, start, ends).len() == ends.len(),
    decreases ends.len(),
{
    if ends.len() > 0 {
        lemma_pngs_len(bytes, width, start, ends.drop_last());
    }
}

/// Cuts an image into tiles of at most `max_height` rows. An image whose pixels
/// cannot be numbered in 32 bits cannot be split, nor can one into tiles without
/// rows.
pub fn slice_png_tiles(pixmap: &tiny_skia::Pixmap, max_height: u32) -> (r: Result<
    Vec<Tile>,
    TileError,
>)
    ensures
        ({
            let width = pixmap_width(*pixmap);
            let height = pixmap_height(*pixmap);
            let tiles = tiles_of(width, height, pixmap_bytes(*pixmap), max_height as int);
            if max_height == 0 || !splittable(width, height) {
                r == Err::<Vec<Tile>, TileError>(TileError::Unsplittable)
            } else if all_encoded(tiles) {
                r matches Ok(t) && tile_looks(t@) == tiles
            } else {
                r == Err::<Vec<Tile>, TileError>(TileError::Unencodable)
            }
        }),
{
    let width: u32 = pixmap.width();
    let height: u32 = pixmap.height();
    assert(width as int * height as int <= u32::MAX * u32::MAX) by (nonlinear_arith)
        requires
            0 <= width <= u32::MAX,
            0 <= height <= u32::MAX,
    ;
    let fits: bool = width <= i32::MAX as u32 && height <= i32::MAX as u32 && width as u64
        * height as u64 <= u32::MAX as u64;
    if max_height == 0 || !fits {
        return Err(TileError::Unsplittable);
    }
    let bytes: &[u8] = pixmap.data();
    let size: usize = bytes.len();
    let ghost b = pixmap_bytes(*pixmap);
    let ghost all = tile_ends(b, width as int, height as int, 0, max_height as int);
    let ghost mut done: Seq<int> = Seq::empty();
    let mut out: Vec<Tile> = Vec::new();
    let mut start: u32 = 0;
    proof {
        assert(all =~= done + all);
        assert(tile_looks(out@) =~= tile_pngs(b, width, 0, done));
    }
    while start < height
        invariant
            start <= height,
            max_height > 0,
            width > 0,
            width == pixmap_width(*pixmap),
            height == pixmap_height(*pixmap),
            splittable(width, height),
            b == pixmap_bytes(*pixmap),
            bytes@ == b,
            bytes@.len() == 4 * width * height,
            bytes@.len() == size,
            all == tile_ends(b, width as int, height as int, 0, max_height as int),
            all == done + tile_ends(
                b,
                width as int,
                height as int,
                start as int,
                max_height as int,
            ),
            start == (if done.len() > 0 {
                done.last()
            } else {
                0
            }),
            tile_looks(out@) == tile_pngs(b, width, 0, done),
        decreases height - start,
    {
        let end: u32 = find_tile_end(bytes, width, height, start, max_height);
        let tile: tiny_skia::Pixmap = match clone_rows(pixmap, start, end) {
            Some(tile) => tile,
            None => {
                return Err(TileError::Unsplittable);
            }
        };
        let ghost next = done.push(end as int);
        proof {
            lemma_ends_step(
                b,
                width as int,
                height as int,
                start as int,
                max_height as int,
                done,
            );
            assert(next.drop_last() =~= done);
            lemma_pngs_prefix(
                b,
                width,
                0,
                next,
                tile_ends(b, width as int, height as int, end as int, max_height as int),
            );
            lemma_pngs_len(b, width, 0, done);
        }
        match encode(&tile) {
            Some(png) => {
                let ghost before = tile_looks(out@);
                out.push(Tile { png, rows: end - start });
                assert(tile_looks(out@) =~= before.push((Some(png@), end - start)));
            }
            None => {
                proof {
                    let pngs = tile_pngs(b, width, 0, all);
                    assert(pngs.take(next.len() as int)[done.len() as int].0 is None);
                    assert(pngs[done.len() as int].0 is None);
                }
                return Err(TileError::Unencodable);
            }
        }
        proof {
            done = next;
        }
        start = end;
    }
    proof {
        assert(done + Seq::<int>::empty() =~= done);
        let pngs = tile_pngs(b, width, 0, all);
        assert forall|i: int| 0 <= i < pngs.len() implies (#[trigger] pngs[i]).0 is Some by {
            assert(tile_looks(out@)[i].0 is Some);
        }
    }
    Ok(out)
}

/// How many rows of pixels fit on a page: an image that is `size` high has `rows`
/// of them.
pub open spec fn page_rows(rows: u32, size: i64, page: i64) -> int {
    let fit = page as int * rows as int / size as int;
    if fit < 1 {
        1
    } else {
        fit
    }
}

fn rows_per_page(rows: u32, size: i64, page: i64) -> (r: u32)
    requires
        page < size,
        size > 0,
    ensures
        r == (if page_rows(rows, size, page) > u32::MAX {
            u32::MAX as int
        } else {
            page_rows(rows, size, page)
        }),
{
    if page <= 0 {
        assert(page as int * rows as int / size as int <= 0) by (nonlinear_arith)
            requires
                page <= 0,
                0 <= rows,
                size > 0,
        ;
        return 1;
    }
    assert(0 <= page as int * rows as int <= i64::MAX * u32::MAX) by (nonlinear_arith)
        requires
            0 <= page <= i64::MAX,
            0 <= rows <= u32::MAX,
    ;
    let fit: i128 = page as i128 * rows as i128 / size as i128;
    if fit < 1 {
        1
    } else if fit > u32::MAX as i128 {
        u32::MAX
    } else {
        fit as u32
    }
}

/// An image to embed: its file, and its width and height on the page.
pub struct TileImage {
    pub png: Vec<u8>,
    pub width: i64,
    pub height: i64,
}

/// An image to embed, by value.
pub struct ImageLook {
    pub png: Seq<u8>,
    pub width: i64,
    pub height: i64,
}

/// Images to embed, one by one.
pub open spec fn image_looks(images: Seq<TileImage>) -> Seq<ImageLook> {
    images.map_values(
        |i: TileImage| ImageLook { png: i.png@, width: i.width, height: i.height },
    )
}

/// The height on the page of a tile of an image that is `size` high and has
/// `rows` of pixels.
pub open spec fn tile_height(tile: int, rows: u32, size: i64) -> int {
    tile * size as int / rows as int
}

/// The tiles of an image at their size on the page.
pub open spec fn sized(
    tiles: Seq<(Option<Seq<u8>>, int)>,
    rows: u32,
    width: i64,
    size: i64,
) -> Seq<ImageLook> {
    tiles.map_values(
        |t: (Option<Seq<u8>>, int)|
            ImageLook {
                png: t.0.unwrap(),
                width,
                height: tile_height(t.1, rows, size) as i64,
            },
    )
}

/// The images that an image file is embedded as: itself where it fits on a page,
/// and else its tiles.
pub fn tile_image(png: Vec<u8>, width: i64, height: i64, page: i64) -> (r: Result<
    Vec<TileImage>,
    TileError,
>)
    requires
        height > 0,
    ensures
        height <= page ==> (r matches Ok(images) && image_looks(images@) == seq![
            ImageLook { png: png@, width, height },
        ]),
        height > page && decoded_png(png@) is None ==> r == Err::<Vec<TileImage>, TileError>(
            TileError::Undecodable,
        ),
        height > page ==> (decoded_png(png@) matches Some((w, rows, bytes)) ==> {
            let max = page_rows(rows, height, page);
            let tiles = tiles_of(w, rows, bytes, max);
            if !splittable(w, rows) {
                r == Err::<Vec<TileImage>, TileError>(TileError::Unsplittable)
            } else if all_encoded(tiles) {
                r matches Ok(images) && image_looks(images@) == sized(tiles, rows, width, height)
            } else {
                r == Err::<Vec<TileImage>, TileError>(TileError::Unencodable)
            }
        }),
{
    let mut out: Vec<TileImage> = Vec::new();
    if height <= page {
        let ghost file = png@;
        out.push(TileImage { png, width, height });
        assert(image_looks(out@) =~= seq![ImageLook { png: file, width, height }]);
        return Ok(out);
    }
    let pixmap: tiny_skia::Pixmap = match decode(png.as_slice()) {
        Some(pixmap) => pixmap,
        None => {
            return Err(TileError::Undecodable);
        }
    };
    let rows: u32 = pixmap.height();
    let max: u32 = rows_per_page(rows, height, page);
    proof {
        assert(page_rows(rows, height, page) <= u32::MAX) by {
            assert(page as int * rows as int / height as int <= rows) by (nonlinear_arith)
                requires
                    page < height,
                    0 < height,
                    0 <= rows,
            ;
        }
    }
    let tiles: Vec<Tile> = match slice_png_tiles(&pixmap, max) {
        Ok(tiles) => tiles,
        Err(e) => {
            return Err(e);
        }
    };
    let ghost looks = tile_looks(tiles@);
    proof {
        tiles_preserve_rows(
            pixmap_width(pixmap),
            rows,
            pixmap_bytes(pixmap),
            max as int,
        );
    }
    let ghost all = tiles@;
    assert(image_looks(out@) =~= sized(looks.take(0), rows, width, height));
    for tile in it: tiles
        invariant
            it.seq() == all,
            looks == tile_looks(all),
            rows > 0,
            height > 0,
            forall|i: int| 0 <= i < looks.len() ==> 0 < (#[trigger] looks[i]).1 <= rows,
            image_looks(out@) == sized(
                looks.take(it.index() as int),
                rows,
                width,
                height,
            ),
    {
        let ghost i = it.index() as int;
        assert(tile == all[i]);
        let ghost before = image_looks(out@);
        let n: u32 = tile.rows;
        assert(looks[i].1 == n as int);
        assert(0 <= n as int * height as int / rows as int <= height) by (nonlinear_arith)
            requires
                0 < n <= rows,
                height > 0,
        ;
        assert(0 <= n as int * height as int <= u32::MAX * i64::MAX) by (nonlinear_arith)
            requires
                0 < n <= u32::MAX,
                0 < height <= i64::MAX,
        ;
        let h: i64 = (n as i128 * height as i128 / rows as i128) as i64;
        let ghost file = tile.png@;
        out.push(TileImage { png: tile.png, width, height: h });
        assert(image_looks(out@) =~= before.push(ImageLook { png: file, width, height: h }));
        assert(sized(looks.take(i + 1), rows, width, height) =~= sized(
            looks.take(i),
            rows,
            width,
            height,
        ).push(ImageLook { png: looks[i].0.unwrap(), width, height: h }));
    }
    assert(looks.take(all.len() as int) =~= looks);
    Ok(out)
}

/// The heights of tiles together.
pub open spec fn total_rows(tiles: Seq<(Option<Seq<u8>>, int)>) -> int
    decreases tiles.len(),
{
    if tiles.len() == 0 {
        0
    } else {
        total_rows(tiles.drop_last()) + tiles.last().1
    }
}

/// Where the last of the tiles that end at rows ends.
pub open spec fn last_end(start: int, ends: Seq<int>) -> int {
    if ends.len() > 0 {
        ends.last()
    } else {
        start
    }
}

proof fn lemma_total(bytes: Seq<u8>, width: u32, start: int, ends: Seq<int>)
    ensures
        total_rows(tile_pngs(bytes, width, start, ends)) == last_end(start, ends) - start,
        tile_pngs(bytes, width, start, ends).len() == ends.len(),
    decreases ends.len(),
{
    if ends.len() > 0 {
        lemma_total(bytes, width, start, ends.drop_last());
        let pngs = tile_pngs(bytes, width, start, ends);
        assert(pngs.drop_last() =~= tile_pngs(bytes, width, start, ends.drop_last()));
    }
}

proof fn lemma_ends(bytes: Seq<u8>, width: int, height: int, start: int, max: int)
    requires
        0 <= start < height,
        max > 0,
    ensures
        ({
            let ends = tile_ends(bytes, width, height, start, max);
            &&& ends.len() > 0
            &&& ends.last() == height
            &&& start < ends[0] <= start + max
            &&& ends[0] <= height
            &&& forall|i: int|
                0 < i < ends.len() ==> ends[i - 1] < #[trigger] ends[i] <= ends[i - 1] + max
                    && ends[i] <= height
        }),
    decreases height - start,
{
    let end = tile_end(bytes, width, height, start, max);
    lemma_tile_end(bytes, width, height, start, max);
    let ends = tile_ends(bytes, width, height, start, max);
    let rest = tile_ends(bytes, width, height, end, max);
    assert(ends =~= seq![end] + rest);
    if end < height {
        lemma_ends(bytes, width, height, end, max);
        assert forall|i: int| 0 < i < ends.len() implies ends[i - 1] < #[trigger] ends[i]
            <= ends[i - 1] + max && ends[i] <= height by {
            assert(ends[i] == rest[i - 1]);
            if i > 1 {
                assert(ends[i - 1] == rest[i - 2]);
            }
        }
        assert(ends.last() == rest.last());
    } else {
        assert(rest.len() == 0);
    }
}

proof fn lemma_png_at(bytes: Seq<u8>, width: u32, start: int, ends: Seq<int>, i: int)
    requires
        0 <= i < ends.len(),
    ensures
        ({
            let from = if i > 0 {
                ends[i - 1]
            } else {
                start
            };
            tile_pngs(bytes, width, start, ends)[i] == (
                png_of(
                    width,
                    (ends[i] - from) as u32,
                    bytes.subrange(4 * width * from, 4 * width * ends[i]),
                ),
                ends[i] - from,
            )
        }),
    decreases ends.len(),
{
    lemma_pngs_len(bytes, width, start, ends);
    lemma_pngs_len(bytes, width, start, ends.drop_last());
    if i < ends.len() - 1 {
        lemma_png_at(bytes, width, start, ends.drop_last(), i);
    }
}

/// The tiles of an image hold every row of it once: their heights add up to that
/// of the image, none is empty, and none is higher than the limit.
pub proof fn tiles_preserve_rows(width: u32, height: u32, bytes: Seq<u8>, max: int)
    requires
        height > 0,
        max > 0,
    ensures
        total_rows(tiles_of(width, height, bytes, max)) == height,
        forall|i: int|
            0 <= i < tiles_of(width, height, bytes, max).len() ==> 0 < (#[trigger] tiles_of(
                width,
                height,
                bytes,
                max,
            )[i]).1 <= max && tiles_of(width, height, bytes, max)[i].1 <= height,
{
    let ends = tile_ends(bytes, width as int, height as int, 0, max);
    lemma_ends(bytes, width as int, height as int, 0, max);
    lemma_total(bytes, width, 0, ends);
    let tiles = tiles_of(width, height, bytes, max);
    assert forall|i: int| 0 <= i < tiles.len() implies 0 < (#[trigger] tiles[i]).1 <= max
        && tiles[i].1 <= height by {
        lemma_png_at(bytes, width, 0, ends, i);
        lemma_ends_positive(ends, height as int, max, i);
    }
}

proof fn lemma_ends_positive(ends: Seq<int>, height: int, max: int, i: int)
    requires
        0 <= i < ends.len(),
        0 < ends[0] <= max,
        ends[0] <= height,
        forall|k: int|
            0 < k < ends.len() ==> ends[k - 1] < #[trigger] ends[k] <= ends[k - 1] + max && ends[k]
                <= height,
    ensures
        0 < ends[i] <= height,
        i > 0 ==> 0 < ends[i - 1],
    decreases i,
{
    if i > 0 {
        lemma_ends_positive(ends, height, max, i - 1);
    }
}

} // verus!
