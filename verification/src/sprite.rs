//! Sprites and the display: which pixels a sprite covers, what drawing makes
//! of a display, and how a drawing that goes bit by bit arrives there.

use crate::layout::{DISPLAY_HEIGHT, DISPLAY_SIZE, DISPLAY_WIDTH};
use vstd::prelude::*;

verus! {

/// Whether bit `col` of a sprite row is set, counting from the most
/// significant bit, which is the leftmost pixel.
pub open spec fn sprite_bit(row_bits: u8, col: int) -> bool {
    (row_bits >> ((7 - col) as u8)) & 1 == 1
}

/// Whether the sprite of `n` rows at `memory[index..]`, placed with its top
/// left corner at column `px` and row `py`, has a set bit on `pixel`. A bit
/// that would fall right of the last column or below the last row lies on no
/// pixel: the sprite is clipped, never wrapped.
pub open spec fn sprite_lights(
    memory: Seq<u8>,
    index: int,
    px: int,
    py: int,
    n: int,
    pixel: int,
) -> bool {
    let col = pixel % (DISPLAY_WIDTH as int) - px;
    let row = pixel / (DISPLAY_WIDTH as int) - py;
    &&& 0 <= pixel < DISPLAY_SIZE
    &&& 0 <= row < n
    &&& 0 <= col < 8
    &&& sprite_bit(memory[index + row], col)
}

/// A pixel after it was flipped.
pub open spec fn flipped(pixel_value: u8) -> u8 {
    if pixel_value == 1 {
        0
    } else {
        1
    }
}

/// The display after the sprite was drawn onto it: every pixel under a set
/// bit is flipped, every other pixel stays.
pub open spec fn draw_display(
    display: Seq<u8>,
    memory: Seq<u8>,
    index: int,
    px: int,
    py: int,
    n: int,
) -> Seq<u8> {
    Seq::new(
        DISPLAY_SIZE as nat,
        |pixel: int|
            if sprite_lights(memory, index, px, py, n, pixel) {
                flipped(display[pixel])
            } else {
                display[pixel]
            },
    )
}

/// Whether drawing the sprite turns off a pixel that was on.
pub open spec fn draw_collides(
    display: Seq<u8>,
    memory: Seq<u8>,
    index: int,
    px: int,
    py: int,
    n: int,
) -> bool {
    exists|pixel: int| #[trigger]
        sprite_lights(memory, index, px, py, n, pixel) && display[pixel] == 1
}

/// Number of sprite rows that reach the display when an `n`-row sprite is
/// placed at row `py`: the rows below the bottom edge are never fetched.
pub open spec fn sprite_rows(py: int, n: int) -> int {
    if n <= DISPLAY_HEIGHT - py {
        n
    } else {
        DISPLAY_HEIGHT - py
    }
}

/// Whether the sprite has a set bit on `pixel` among the bits that a drawing
/// in progress has dealt with: those of the sprite rows before `row`, and
/// those of the columns before `col` of sprite row `row`.
pub(crate) open spec fn lights_so_far(
    memory: Seq<u8>,
    index: int,
    px: int,
    py: int,
    row: int,
    col: int,
    pixel: int,
) -> bool {
    let c = pixel % (DISPLAY_WIDTH as int) - px;
    let r = pixel / (DISPLAY_WIDTH as int) - py;
    &&& 0 <= pixel < DISPLAY_SIZE
    &&& 0 <= c < 8
    &&& (0 <= r < row || (r == row && c < col))
    &&& sprite_bit(memory[index + r], c)
}

/// The display in the middle of a drawing that has come to column `col` of
/// sprite row `row`.
pub(crate) open spec fn drawn_so_far(
    display: Seq<u8>,
    memory: Seq<u8>,
    index: int,
    px: int,
    py: int,
    row: int,
    col: int,
) -> Seq<u8> {
    Seq::new(
        DISPLAY_SIZE as nat,
        |pixel: int|
            if lights_so_far(memory, index, px, py, row, col, pixel) {
                flipped(display[pixel])
            } else {
                display[pixel]
            },
    )
}

/// Whether a drawing that has come to column `col` of sprite row `row` has
/// turned off a pixel that was on.
pub(crate) open spec fn collided_so_far(
    display: Seq<u8>,
    memory: Seq<u8>,
    index: int,
    px: int,
    py: int,
    row: int,
    col: int,
) -> bool {
    exists|pixel: int| #[trigger]
        lights_so_far(memory, index, px, py, row, col, pixel) && display[pixel] == 1
}

/// One more bit: a drawing that has come to column `col` of sprite row `row`
/// and goes on to the next column flips the pixel under that bit if the bit
/// is set, touches no other pixel, and collides there if the pixel was on.
pub(crate) proof fn lemma_draw_next_bit(
    display: Seq<u8>,
    memory: Seq<u8>,
    index: int,
    px: int,
    py: int,
    row: int,
    col: int,
)
    requires
        display.len() == DISPLAY_SIZE,
        0 <= px,
        0 <= py,
        0 <= row,
        py + row < DISPLAY_HEIGHT,
        0 <= col < 8,
        px + col < DISPLAY_WIDTH,
    ensures
        ({
            let pixel = (py + row) * DISPLAY_WIDTH + px + col;
            let lit = sprite_bit(memory[index + row], col);
            let shown = drawn_so_far(display, memory, index, px, py, row, col);
            &&& 0 <= pixel < DISPLAY_SIZE
            &&& shown[pixel] == display[pixel]
            &&& drawn_so_far(display, memory, index, px, py, row, col + 1) == (if lit {
                shown.update(pixel, flipped(display[pixel]))
            } else {
                shown
            })
            &&& collided_so_far(display, memory, index, px, py, row, col + 1) == (collided_so_far(
                display,
                memory,
                index,
                px,
                py,
                row,
                col,
            ) || (lit && display[pixel] == 1))
        }),
{
    let pixel = (py + row) * DISPLAY_WIDTH + px + col;
    let lit = sprite_bit(memory[index + row], col);
    let shown = drawn_so_far(display, memory, index, px, py, row, col);
    let next = drawn_so_far(display, memory, index, px, py, row, col + 1);
    assert(pixel % 64 == px + col && pixel / 64 == py + row);
    assert(!lights_so_far(memory, index, px, py, row, col, pixel));
    assert forall|q: int| 0 <= q < DISPLAY_SIZE implies lights_so_far(
        memory,
        index,
        px,
        py,
        row,
        col + 1,
        q,
    ) == (lights_so_far(memory, index, px, py, row, col, q) || (lit && q == pixel)) by {
        if q % 64 - px == col && q / 64 - py == row {
            assert(q == pixel);
        }
    }
    assert(next =~= (if lit {
        shown.update(pixel, flipped(display[pixel]))
    } else {
        shown
    }));
    if collided_so_far(display, memory, index, px, py, row, col) {
        let w = choose|w: int| #[trigger]
            lights_so_far(memory, index, px, py, row, col, w) && display[w] == 1;
        assert(lights_so_far(memory, index, px, py, row, col + 1, w));
    }
    if lit && display[pixel] == 1 {
        assert(lights_so_far(memory, index, px, py, row, col + 1, pixel));
    }
    if collided_so_far(display, memory, index, px, py, row, col + 1) {
        let w = choose|w: int| #[trigger]
            lights_so_far(memory, index, px, py, row, col + 1, w) && display[w] == 1;
        if w != pixel {
            assert(lights_so_far(memory, index, px, py, row, col, w));
        }
    }
}

/// The end of a row: once a drawing has dealt with every column of sprite
/// row `row` that lies on the display, it stands at the start of the next
/// row.
pub(crate) proof fn lemma_draw_next_row(
    display: Seq<u8>,
    memory: Seq<u8>,
    index: int,
    px: int,
    py: int,
    row: int,
    col: int,
)
    requires
        0 <= px < DISPLAY_WIDTH,
        0 <= row,
        col == 8 || px + col == DISPLAY_WIDTH,
    ensures
        drawn_so_far(display, memory, index, px, py, row + 1, 0) == drawn_so_far(
            display,
            memory,
            index,
            px,
            py,
            row,
            col,
        ),
        collided_so_far(display, memory, index, px, py, row + 1, 0) == collided_so_far(
            display,
            memory,
            index,
            px,
            py,
            row,
            col,
        ),
{
    assert forall|q: int| 0 <= q < DISPLAY_SIZE implies lights_so_far(
        memory,
        index,
        px,
        py,
        row + 1,
        0,
        q,
    ) == lights_so_far(memory, index, px, py, row, col, q) by {}
    assert(drawn_so_far(display, memory, index, px, py, row + 1, 0) =~= drawn_so_far(
        display,
        memory,
        index,
        px,
        py,
        row,
        col,
    ));
    if collided_so_far(display, memory, index, px, py, row + 1, 0) {
        let w = choose|w: int| #[trigger]
            lights_so_far(memory, index, px, py, row + 1, 0, w) && display[w] == 1;
        assert(lights_so_far(memory, index, px, py, row, col, w));
    }
    if collided_so_far(display, memory, index, px, py, row, col) {
        let w = choose|w: int| #[trigger]
            lights_so_far(memory, index, px, py, row, col, w) && display[w] == 1;
        assert(lights_so_far(memory, index, px, py, row + 1, 0, w));
    }
}

/// The start and the end of a drawing: before the first bit the display is
/// untouched, and once the rows that reach the display are dealt with, the
/// sprite is drawn.
pub(crate) proof fn lemma_draw_start_and_end(
    display: Seq<u8>,
    memory: Seq<u8>,
    index: int,
    px: int,
    py: int,
    n: int,
)
    requires
        display.len() == DISPLAY_SIZE,
        0 <= py < DISPLAY_HEIGHT,
        0 <= n,
    ensures
        drawn_so_far(display, memory, index, px, py, 0, 0) == display,
        !collided_so_far(display, memory, index, px, py, 0, 0),
        drawn_so_far(display, memory, index, px, py, sprite_rows(py, n), 0) == draw_display(
            display,
            memory,
            index,
            px,
            py,
            n,
        ),
        collided_so_far(display, memory, index, px, py, sprite_rows(py, n), 0) == draw_collides(
            display,
            memory,
            index,
            px,
            py,
            n,
        ),
{
    let rows = sprite_rows(py, n);
    assert(drawn_so_far(display, memory, index, px, py, 0, 0) =~= display);
    assert forall|q: int| 0 <= q < DISPLAY_SIZE implies lights_so_far(
        memory,
        index,
        px,
        py,
        rows,
        0,
        q,
    ) == sprite_lights(memory, index, px, py, n, q) by {}
    assert(drawn_so_far(display, memory, index, px, py, rows, 0) =~= draw_display(
        display,
        memory,
        index,
        px,
        py,
        n,
    ));
    if collided_so_far(display, memory, index, px, py, rows, 0) {
        let w = choose|w: int| #[trigger]
            lights_so_far(memory, index, px, py, rows, 0, w) && display[w] == 1;
        assert(sprite_lights(memory, index, px, py, n, w));
    }
    if draw_collides(display, memory, index, px, py, n) {
        let w = choose|w: int| #[trigger]
            sprite_lights(memory, index, px, py, n, w) && display[w] == 1;
        assert(lights_so_far(memory, index, px, py, rows, 0, w));
    }
}

} // verus!
