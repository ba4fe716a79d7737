//! The loop that fills a canvas, one pixel after the other.

use crate::canvas::{
    lemma_pixel_index_in_grid, lemma_pixel_index_is_one_to_one, pixel_index, Canvas,
};
use vstd::prelude::*;

verus! {

/// Renders an image of `hsize` by `vsize` pixels: asks `shade` for the colour
/// of each pixel, by column and row, and writes it to that place of a new
/// canvas.
pub fn render<P: Copy + Default, F: Fn(usize, usize) -> P>(
    hsize: usize,
    vsize: usize,
    shade: F,
) -> (canvas: Canvas<P>)
    requires
        hsize * vsize <= usize::MAX,
        hsize <= i32::MAX,
        vsize <= i32::MAX,
        forall|col: usize, row: usize| col < hsize && row < vsize ==> shade.requires((col, row)),
    ensures
        canvas.well_formed(),
        canvas.width() == hsize,
        canvas.height() == vsize,
        canvas.pixels().len() == hsize * vsize,
        forall|col: usize, row: usize|
            col < hsize && row < vsize ==> shade.ensures(
                (col, row),
                #[trigger] canvas.pixels()[pixel_index(hsize as nat, col as int, row as int)],
            ),
{
    let mut canvas: Canvas<P> = Canvas::new(hsize, vsize);
    let mut row: usize = 0;
    while row < vsize
        invariant
            row <= vsize,
            hsize <= i32::MAX,
            vsize <= i32::MAX,
            canvas.well_formed(),
            canvas.width() == hsize,
            canvas.height() == vsize,
            canvas.pixels().len() == hsize * vsize,
            forall|col: usize, row: usize|
                col < hsize && row < vsize ==> shade.requires((col, row)),
            forall|c: usize, r: usize|
                c < hsize && r < row ==> shade.ensures(
                    (c, r),
                    #[trigger] canvas.pixels()[pixel_index(hsize as nat, c as int, r as int)],
                ),
        decreases vsize - row,
    {
        let mut col: usize = 0;
        while col < hsize
            invariant
                col <= hsize,
                row < vsize,
                hsize <= i32::MAX,
                vsize <= i32::MAX,
                canvas.well_formed(),
                canvas.width() == hsize,
                canvas.height() == vsize,
                canvas.pixels().len() == hsize * vsize,
                forall|col: usize, row: usize|
                    col < hsize && row < vsize ==> shade.requires((col, row)),
                forall|c: usize, r: usize|
                    c < hsize && (r < row || (r == row && c < col)) ==> shade.ensures(
                        (c, r),
                        #[trigger] canvas.pixels()[pixel_index(hsize as nat, c as int, r as int)],
                    ),
            decreases hsize - col,
        {
            let colour = shade(col, row);
            let ghost before = canvas.pixels();
            proof {
                lemma_pixel_index_in_grid(hsize as nat, vsize as nat, col as int, row as int);
            }
            canvas.write_pixel(col as i32, row as i32, colour);
            proof {
                assert forall|c: usize, r: usize|
                    c < hsize && (r < row || (r == row && c < col + 1)) implies shade.ensures(
                    (c, r),
                    #[trigger] canvas.pixels()[pixel_index(hsize as nat, c as int, r as int)],
                ) by {
                    lemma_pixel_index_in_grid(hsize as nat, vsize as nat, c as int, r as int);
                    if c == col && r == row {
                    } else {
                        if pixel_index(hsize as nat, c as int, r as int) == pixel_index(
                            hsize as nat,
                            col as int,
                            row as int,
                        ) {
                            lemma_pixel_index_is_one_to_one(
                                hsize as nat,
                                c as int,
                                r as int,
                                col as int,
                                row as int,
                            );
                        }
                        assert(canvas.pixels()[pixel_index(hsize as nat, c as int, r as int)]
                            == before[pixel_index(hsize as nat, c as int, r as int)]);
                    }
                }
            }
            col = col + 1;
        }
        row = row + 1;
    }
    canvas
}

} // verus!
