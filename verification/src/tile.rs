use vstd::prelude::*;
use vstd::arithmetic::div_mod::{lemma_fundamental_div_mod_converse, lemma_fundamental_div_mod};
use crate::vector::Vector3;

verus! {

/// The value of the alpha channel of every pixel: opaque.
pub const OPAQUE: u8 = 255;

/// A colour as it is stored: red, green and blue, eight bits each.
#[derive(Clone, Copy, Debug, PartialEq, Eq, Structural)]
pub struct Rgb {
    pub red: u8,
    pub green: u8,
    pub blue: u8,
}

/// The colour as it is stored, from its three channels on the scale of a
/// byte: each is cut down to its whole part and held between 0 and 255.
pub fn quantize(scaled: Vector3) -> (color: Rgb)
    ensures
        color == (Rgb { red: scaled.x.byte(), green: scaled.y.byte(), blue: scaled.z.byte() }),
{
    Rgb { red: scaled.x.to_u8(), green: scaled.y.to_u8(), blue: scaled.z.to_u8() }
}

/// The `k`-th pixel of a square tile in the order of rendering: rows from
/// the highest `y` down to `tile_y`, and in each row from `tile_x` to the
/// right.
pub open spec fn pixel_at(tile_x: u32, tile_y: u32, tile_size: u32, k: int) -> (int, int) {
    (tile_x + k % (tile_size as int), tile_y + tile_size - 1 - k / (tile_size as int))
}

/// The place in the order of rendering of the pixel at `x`, `y`.
pub open spec fn place_of(tile_x: u32, tile_y: u32, tile_size: u32, x: int, y: int) -> int {
    (tile_y + tile_size - 1 - y) * tile_size + (x - tile_x)
}

/// The pixels of the tile with corner `tile_x`, `tile_y` and side
/// `tile_size`, in the order in which they are rendered.  The order matters:
/// every sample draws from the one random generator.
pub fn render_order(tile_x: u32, tile_y: u32, tile_size: u32) -> (order: Vec<(u32, u32)>)
    requires
        tile_x + tile_size <= u32::MAX,
        tile_y + tile_size <= u32::MAX,
        tile_size * tile_size <= u32::MAX,
    ensures
        order@.len() == tile_size * tile_size,
        forall|k: int|
            0 <= k < order@.len() ==> ((#[trigger] order@[k]).0 as int, order@[k].1 as int)
                == pixel_at(tile_x, tile_y, tile_size, k),
{
    let mut order: Vec<(u32, u32)> = Vec::new();
    let mut row: u32 = 0;
    while row < tile_size
        invariant
            row <= tile_size,
            tile_x + tile_size <= u32::MAX,
            tile_y + tile_size <= u32::MAX,
            order@.len() == row * tile_size,
            forall|k: int|
                0 <= k < order@.len() ==> ((#[trigger] order@[k]).0 as int, order@[k].1 as int)
                    == pixel_at(tile_x, tile_y, tile_size, k),
        decreases tile_size - row,
    {
        let y: u32 = tile_y + (tile_size - 1 - row);
        let mut column: u32 = 0;
        while column < tile_size
            invariant
                row < tile_size,
                column <= tile_size,
                y == tile_y + tile_size - 1 - row,
                tile_x + tile_size <= u32::MAX,
                order@.len() == row * tile_size + column,
                forall|k: int|
                    0 <= k < order@.len() ==> ((#[trigger] order@[k]).0 as int, order@[k].1 as int)
                        == pixel_at(tile_x, tile_y, tile_size, k),
            decreases tile_size - column,
        {
            proof {
                lemma_fundamental_div_mod_converse(
                    row * tile_size + column,
                    tile_size as int,
                    row as int,
                    column as int,
                );
            }
            order.push((tile_x + column, y));
            column += 1;
        }
        proof {
            assert(row * tile_size + tile_size == (row + 1) * tile_size) by (nonlinear_arith);
        }
        row += 1;
    }
    order
}

/// The bytes of an image: for each colour its red, green and blue, then an
/// alpha of 255.
pub open spec fn rgba_bytes(colors: Seq<Rgb>) -> Seq<u8> {
    Seq::new(
        4 * colors.len(),
        |i: int|
            if i % 4 == 0 {
                colors[i / 4].red
            } else if i % 4 == 1 {
                colors[i / 4].green
            } else if i % 4 == 2 {
                colors[i / 4].blue
            } else {
                OPAQUE
            },
    )
}

/// Lays the colours out as RGBA bytes, four to a pixel, in their order.
pub fn rgba8(colors: &Vec<Rgb>) -> (data: Vec<u8>)
    ensures
        data@ == rgba_bytes(colors@),
{
    let mut data: Vec<u8> = Vec::new();
    let mut i: usize = 0;
    while i < colors.len()
        invariant
            i <= colors@.len(),
            data@ == rgba_bytes(colors@.take(i as int)),
        decreases colors@.len() - i,
    {
        let color = colors[i];
        data.push(color.red);
        data.push(color.green);
        data.push(color.blue);
        data.push(OPAQUE);
        i += 1;
        proof {
            let shorter = colors@.take(i - 1);
            let longer = colors@.take(i as int);
            assert(longer[i - 1] == color);
            assert forall|k: int| 0 <= k < 4 * (i - 1) implies rgba_bytes(longer)[k]
                == rgba_bytes(shorter)[k] by {
                assert(longer[k / 4] == shorter[k / 4]);
            }
            assert(data@ =~= rgba_bytes(longer));
        }
    }
    proof {
        assert(colors@.take(i as int) =~= colors@);
    }
    data
}

/// The order of rendering goes through every pixel of the tile once: each
/// pixel of the tile has its place, and each place holds a pixel of the
/// tile that no other place holds.
pub proof fn lemma_every_pixel_once(tile_x: u32, tile_y: u32, tile_size: u32)
    ensures
        forall|x: int, y: int|
            tile_x <= x < tile_x + tile_size && tile_y <= y < tile_y + tile_size ==> {
                let k = #[trigger] place_of(tile_x, tile_y, tile_size, x, y);
                0 <= k < tile_size * tile_size && pixel_at(tile_x, tile_y, tile_size, k) == (x, y)
            },
        forall|k: int|
            0 <= k < tile_size * tile_size ==> {
                let (x, y) = #[trigger] pixel_at(tile_x, tile_y, tile_size, k);
                &&& tile_x <= x < tile_x + tile_size
                &&& tile_y <= y < tile_y + tile_size
                &&& place_of(tile_x, tile_y, tile_size, x, y) == k
            },
{
    let size = tile_size as int;
    assert forall|x: int, y: int|
        tile_x <= x < tile_x + tile_size && tile_y <= y < tile_y + tile_size implies {
        let k = #[trigger] place_of(tile_x, tile_y, tile_size, x, y);
        0 <= k < tile_size * tile_size && pixel_at(tile_x, tile_y, tile_size, k) == (x, y)
    } by {
        let row = tile_y + tile_size - 1 - y;
        let column = x - tile_x;
        lemma_fundamental_div_mod_converse(row * size + column, size, row, column);
        assert(0 <= row * size) by (nonlinear_arith)
            requires
                0 <= row,
                0 <= size,
        ;
        assert(row * size + column < size * size) by (nonlinear_arith)
            requires
                0 <= row < size,
                0 <= column < size,
        ;
    }
    assert forall|k: int| 0 <= k < tile_size * tile_size implies {
        let (x, y) = #[trigger] pixel_at(tile_x, tile_y, tile_size, k);
        &&& tile_x <= x < tile_x + tile_size
        &&& tile_y <= y < tile_y + tile_size
        &&& place_of(tile_x, tile_y, tile_size, x, y) == k
    } by {
        assert(size > 0) by (nonlinear_arith)
            requires
                0 <= k < size * size,
                0 <= size,
        ;
        lemma_fundamental_div_mod(k, size);
        assert(0 <= k / size < size) by (nonlinear_arith)
            requires
                0 <= k < size * size,
                0 < size,
                k == size * (k / size) + k % size,
                0 <= k % size < size,
        ;
        assert((k / size) * size == size * (k / size)) by (nonlinear_arith);
    }
}

} // verus!
