use vstd::prelude::*;

use crate::constants::{NUM_PLANES, TILE_HEIGHT, TILE_WIDTH};
use crate::tile::{TileIndex, Tileset};

verus! {

broadcast use vstd::array::group_array_axioms;

/// The raw value that RGBA pixel (`px`, `py`) of a `width`-wide image stands
/// for: 0 where alpha is below 128, else red divided by 32.
pub open spec fn color_index(pixels: Seq<u8>, width: int, px: int, py: int) -> u8 {
    let i = (py * width + px) * 4;
    if pixels[i + 3] < 128 {
        0
    } else {
        pixels[i] / 32
    }
}

/// Bit `plane` (0 for the most significant of three) of a raw value.
pub open spec fn index_bit(v: u8, plane: int) -> u8 {
    (v >> (2 - plane) as u8) & 1
}

/// The row byte of plane `plane` for the first `n` pixels from (`ox`, `oy`)
/// rightwards: pixel `x` gives bit `x`.
pub open spec fn row_bits(pixels: Seq<u8>, width: int, ox: int, oy: int, plane: int, n: int) -> u8
    decreases n,
{
    if n <= 0 {
        0
    } else {
        row_bits(pixels, width, ox, oy, plane, n - 1) | (index_bit(
            color_index(pixels, width, ox + n - 1, oy),
            plane,
        ) << (n - 1) as u8)
    }
}

/// The eight row bytes of plane `plane` of the 8x8 block whose top left
/// pixel is (`ox`, `oy`).
pub open spec fn block_plane(pixels: Seq<u8>, width: int, ox: int, oy: int, plane: int) -> Seq<u8> {
    Seq::new(8, |y: int| row_bits(pixels, width, ox, oy + y, plane, 8))
}

/// The tile that the `j`-th block, in column-major order, goes to when the
/// image holds `rows` rows of blocks: its column plus its row times `rows`.
pub open spec fn block_tile(j: int, rows: int) -> int {
    j / rows + (j % rows) * rows
}

/// The last of the first `k` blocks that goes to tile `t`.
pub open spec fn last_block(t: int, k: int, rows: int) -> Option<int>
    decreases k,
{
    if k <= 0 {
        None
    } else if block_tile(k - 1, rows) == t {
        Some(k - 1)
    } else {
        last_block(t, k - 1, rows)
    }
}

/// What plane `p` of tile `t` holds after the first `k` blocks are loaded
/// into an empty tileset.
pub open spec fn loaded_plane(pixels: Seq<u8>, width: int, rows: int, k: int, p: int, t: int) -> Seq<u8> {
    match last_block(t, k, rows) {
        Some(j) => block_plane(pixels, width, (j / rows) * 8, (j % rows) * 8, p),
        None => Seq::new(8, |y: int| 0u8),
    }
}

fn color_index_at(pixels: &[u8], width: usize, px: usize, py: usize) -> (v: u8)
    requires
        (py * width + px) * 4 + 3 < pixels@.len(),
    ensures
        v == color_index(pixels@, width as int, px as int, py as int),
        v <= 7,
{
    let n = pixels.len();
    assert(py * width <= n && py * width + px <= n && (py * width + px) * 4 + 3 < n) by (nonlinear_arith)
        requires
            (py * width + px) * 4 + 3 < n,
            0 <= py * width,
    ;
    let i = (py * width + px) * 4;
    if pixels[i + 3] < 128 {
        0
    } else {
        pixels[i] / 32
    }
}

/// The row byte of plane `plane` for the 8 pixels from (`ox`, `oy`).
fn block_row(pixels: &[u8], width: usize, ox: usize, oy: usize, plane: usize) -> (b: u8)
    requires
        plane < 3,
        ox + 8 <= width,
        (oy * width + ox + 8) * 4 <= pixels@.len(),
    ensures
        b == row_bits(pixels@, width as int, ox as int, oy as int, plane as int, 8),
{
    let mut byte: u8 = 0;
    let mut x: usize = 0;
    while x < TILE_WIDTH
        invariant
            x <= 8,
            plane < 3,
            ox + 8 <= width,
            (oy * width + ox + 8) * 4 <= pixels@.len(),
            byte == row_bits(pixels@, width as int, ox as int, oy as int, plane as int, x as int),
        decreases 8 - x,
    {
        assert((oy * width + (ox + x)) * 4 + 3 < pixels@.len()) by (nonlinear_arith)
            requires
                x < 8,
                (oy * width + ox + 8) * 4 <= pixels@.len(),
        ;
        let v = color_index_at(pixels, width, ox + x, oy);
        let bit = (v >> (2 - plane) as u8) & 1;
        byte = byte | (bit << x as u8);
        x += 1;
    }
    byte
}

/// Loads a tileset from an RGBA image of `width` x `height` pixels, four bytes
/// per pixel in row order. The image is cut into 8x8 blocks, read column by
/// column; the block at column `c` and row `r` goes to tile `c + r * rows`,
/// where `rows` is the number of block rows, and a later block replaces an
/// earlier one with the same tile. Each pixel's raw value is 0 where alpha is
/// below 128, else red divided by 32. Tiles that no block reaches stay empty.
pub fn tileset_from_rgba(width: usize, height: usize, pixels: &[u8]) -> (t: Tileset)
    requires
        pixels@.len() == width * height * 4,
        forall|c: int, r: int|
            0 <= c < width / 8 && 0 <= r < height / 8 ==> #[trigger] (c + r * (height / 8)) < 256,
    ensures
        forall|p: int, i: int|
            0 <= p < 3 && 0 <= i < 256 ==> #[trigger] t.pixel_data@[p]@[i]@ == loaded_plane(
                pixels@,
                width as int,
                (height / 8) as int,
                ((width / 8) * (height / 8)) as int,
                p,
                i,
            ),
{
    let tile_columns = width / TILE_WIDTH;
    let tile_rows = height / TILE_HEIGHT;
    let mut tileset = Tileset::new();
    let ghost rows = tile_rows as int;
    proof {
        assert forall|p: int, i: int| 0 <= p < 3 && 0 <= i < 256 implies #[trigger] tileset.pixel_data@[p]@[i]@
            == loaded_plane(pixels@, width as int, rows, 0, p, i) by {
            assert(tileset.pixel_data@[p]@[i]@ =~= Seq::new(8, |y: int| 0u8));
        }
    }
    let mut column: usize = 0;
    while column < tile_columns
        invariant
            tile_columns == width / 8,
            tile_rows == height / 8,
            rows == tile_rows,
            column <= tile_columns,
            pixels@.len() == width * height * 4,
            forall|c: int, r: int|
                0 <= c < width / 8 && 0 <= r < height / 8 ==> #[trigger] (c + r * (height / 8)) < 256,
            forall|p: int, i: int|
                0 <= p < 3 && 0 <= i < 256 ==> #[trigger] tileset.pixel_data@[p]@[i]@ == loaded_plane(
                    pixels@,
                    width as int,
                    rows,
                    column * rows,
                    p,
                    i,
                ),
        decreases tile_columns - column,
    {
        let mut row: usize = 0;
        while row < tile_rows
            invariant
                tile_columns == width / 8,
                tile_rows == height / 8,
                rows == tile_rows,
                column < tile_columns,
                row <= tile_rows,
                pixels@.len() == width * height * 4,
                forall|c: int, r: int|
                    0 <= c < width / 8 && 0 <= r < height / 8 ==> #[trigger] (c + r * (height / 8)) < 256,
                forall|p: int, i: int|
                    0 <= p < 3 && 0 <= i < 256 ==> #[trigger] tileset.pixel_data@[p]@[i]@ == loaded_plane(
                        pixels@,
                        width as int,
                        rows,
                        column * rows + row,
                        p,
                        i,
                    ),
            decreases tile_rows - row,
        {
            assert(column + row * tile_rows < 256);
            assert(row * tile_rows < 256) by (nonlinear_arith)
                requires
                    column + row * tile_rows < 256,
            ;
            let tile_index = column + row * tile_rows;
            let tile_x = column * TILE_WIDTH;
            let tile_y = row * TILE_HEIGHT;
            let planes = block_planes(pixels, width, height, tile_x, tile_y);
            let ghost before = tileset.pixel_data;
            tileset.write_tile(TileIndex(tile_index as u8), planes);
            proof {
                let k = column * rows + row;
                assert(k / rows == column && k % rows == row) by {
                    vstd::arithmetic::div_mod::lemma_fundamental_div_mod_converse(
                        k,
                        rows,
                        column as int,
                        row as int,
                    );
                }
                assert(block_tile(k, rows) == tile_index);
                assert forall|p: int, i: int| 0 <= p < 3 && 0 <= i < 256 implies #[trigger] tileset.pixel_data@[p]@[i]@
                    == loaded_plane(pixels@, width as int, rows, k + 1, p, i) by {
                    if i == tile_index {
                        assert(last_block(i, k + 1, rows) == Some(k));
                    } else {
                        assert(last_block(i, k + 1, rows) == last_block(i, k, rows));
                    }
                }
            }
            row += 1;
        }
        assert(column * rows + rows == (column + 1) * rows) by (nonlinear_arith);
        column += 1;
    }
    tileset
}

/// The three planes of the 8x8 block whose top left pixel is (`ox`, `oy`).
fn block_planes(pixels: &[u8], width: usize, height: usize, ox: usize, oy: usize) -> (planes: [[u8; 8]; 3])
    requires
        pixels@.len() == width * height * 4,
        ox + 8 <= width,
        oy + 8 <= height,
    ensures
        forall|p: int| 0 <= p < 3 ==> #[trigger] planes@[p]@ == block_plane(pixels@, width as int, ox as int, oy as int, p),
{
    let mut planes = [[0u8; 8]; 3];
    let mut p: usize = 0;
    while p < NUM_PLANES
        invariant
            p <= 3,
            pixels@.len() == width * height * 4,
            ox + 8 <= width,
            oy + 8 <= height,
            forall|q: int| 0 <= q < p ==> #[trigger] planes@[q]@ == block_plane(pixels@, width as int, ox as int, oy as int, q),
        decreases 3 - p,
    {
        let mut rows = [0u8; 8];
        let mut y: usize = 0;
        while y < TILE_HEIGHT
            invariant
                y <= 8,
                p < 3,
                pixels@.len() == width * height * 4,
                ox + 8 <= width,
                oy + 8 <= height,
                forall|z: int| 0 <= z < y ==> #[trigger] rows@[z] == row_bits(pixels@, width as int, ox as int, oy + z, p as int, 8),
            decreases 8 - y,
        {
            assert(((oy + y) * width + ox + 8) * 4 <= pixels@.len()) by (nonlinear_arith)
                requires
                    y < 8,
                    ox + 8 <= width,
                    oy + 8 <= height,
                    pixels@.len() == width * height * 4,
            ;
            rows[y] = block_row(pixels, width, ox, oy + y, p);
            y += 1;
        }
        assert(rows@ =~= block_plane(pixels@, width as int, ox as int, oy as int, p as int));
        planes[p] = rows;
        p += 1;
    }
    planes
}

} // verus!
