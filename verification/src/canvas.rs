//! A grid of pixels, and its rendering as a plain-text image.

use crate::wrapping::{
    column_after_append, lemma_append_keeps_line_within_limit, text_after_append, width_of,
    WrappingStringBuilder,
};
use vstd::prelude::*;
use vstd::string::*;
use vstd::utf8::{is_ascii_chars, is_ascii_chars_encode_utf8};

verus! {

/// The longest line of a plain-text image, in bytes.
pub const PPM_LINE_WIDTH: usize = 70;

/// The highest level of a channel in a plain-text image.
pub const PPM_MAX_LEVEL: i32 = 255;

/// A grid of `width` by `height` pixels, stored row by row.
#[derive(Clone, Debug)]
pub struct Canvas<P> {
    width: usize,
    height: usize,
    pixels: Vec<P>,
}

/// The place in the row-by-row storage of the pixel in column `x` of row `y`.
pub open spec fn pixel_index(width: nat, x: int, y: int) -> int {
    y * width + x
}

/// In a grid of `width` columns, two places with the same index are the same
/// place.
pub proof fn lemma_pixel_index_is_one_to_one(width: nat, x1: int, y1: int, x2: int, y2: int)
    requires
        0 <= x1 < width,
        0 <= x2 < width,
        0 <= y1,
        0 <= y2,
        pixel_index(width, x1, y1) == pixel_index(width, x2, y2),
    ensures
        x1 == x2,
        y1 == y2,
{
    if y1 < y2 {
        assert(y1 * width + width <= y2 * width) by (nonlinear_arith)
            requires
                y1 + 1 <= y2,
                width >= 0,
        ;
    } else if y2 < y1 {
        assert(y2 * width + width <= y1 * width) by (nonlinear_arith)
            requires
                y2 + 1 <= y1,
                width >= 0,
        ;
    }
}

/// In a grid of `width` by `height`, every place has an index below the
/// number of places.
pub proof fn lemma_pixel_index_in_grid(width: nat, height: nat, x: int, y: int)
    requires
        0 <= x < width,
        0 <= y < height,
    ensures
        0 <= pixel_index(width, x, y) < width * height,
{
    assert(0 <= y * width && y * width + width <= width * height) by (nonlinear_arith)
        requires
            0 <= y,
            y + 1 <= height,
            width >= 0,
    ;
}

impl<P: Copy> Canvas<P> {
    /// The number of pixels in a row.
    pub closed spec fn width(&self) -> nat {
        self.width as nat
    }

    /// The number of rows.
    pub closed spec fn height(&self) -> nat {
        self.height as nat
    }

    /// The pixels, row by row.
    pub closed spec fn pixels(&self) -> Seq<P> {
        self.pixels@
    }

    /// The storage holds one pixel for each place of the grid.
    pub open spec fn well_formed(&self) -> bool {
        self.pixels().len() == self.width() * self.height()
    }

    /// Whether a pixel is stored for column `x` of row `y`. A place whose
    /// column is not below the width counts as one of a later row.
    pub open spec fn holds(&self, x: int, y: int) -> bool {
        0 <= x && 0 <= y && pixel_index(self.width(), x, y) < self.pixels().len()
    }

    /// A canvas on which every pixel is `c`.
    pub fn new_with_color(width: usize, height: usize, c: P) -> (canvas: Self)
        requires
            width * height <= usize::MAX,
        ensures
            canvas.well_formed(),
            canvas.width() == width,
            canvas.height() == height,
            canvas.pixels() == Seq::new((width * height) as nat, |i: int| c),
    {
        let n: usize = width * height;
        let mut pixels: Vec<P> = Vec::new();
        while pixels.len() < n
            invariant
                pixels.len() <= n,
                pixels@ == Seq::new(pixels.len() as nat, |i: int| c),
            decreases n - pixels.len(),
        {
            pixels.push(c);
            assert(pixels@ =~= Seq::new(pixels.len() as nat, |i: int| c));
        }
        Canvas { width, height, pixels }
    }

    /// The width, as a signed number. A width above `i32::MAX` is cut down to
    /// its low 32 bits.
    pub fn get_width(&self) -> (w: i32)
        ensures
            w == self.width() as i32,
    {
        #[verifier::truncate]
        (self.width as i32)
    }

    /// The height, as a signed number. A height above `i32::MAX` is cut down
    /// to its low 32 bits.
    pub fn get_height(&self) -> (h: i32)
        ensures
            h == self.height() as i32,
    {
        #[verifier::truncate]
        (self.height as i32)
    }

    /// The pixel in column `x` of row `y`.
    pub fn pixel_at(&self, x: i32, y: i32) -> (c: P)
        requires
            self.holds(x as int, y as int),
        ensures
            c == self.pixels()[pixel_index(self.width(), x as int, y as int)],
    {
        let stored: usize = self.pixels.len();
        let column: usize = x as usize;
        let row: usize = y as usize;
        assert(0 <= row * self.width) by (nonlinear_arith)
            requires
                row >= 0,
                self.width >= 0,
        ;
        assert(row * self.width + column == pixel_index(self.width(), x as int, y as int));
        let i: usize = row * self.width + column;
        self.pixels[i]
    }

    /// Whether a pixel is stored for column `x` of row `y`.
    pub fn has_pixel(&self, x: i32, y: i32) -> (stored: bool)
        requires
            self.well_formed(),
        ensures
            stored == self.holds(x as int, y as int),
    {
        if x < 0 || y < 0 {
            return false;
        }
        let stored: usize = self.pixels.len();
        let column: usize = x as usize;
        let row: usize = y as usize;
        if row >= self.height {
            assert(row * self.width >= self.height * self.width) by (nonlinear_arith)
                requires
                    row >= self.height,
                    self.width >= 0,
            ;
            assert(self.width * self.height == self.height * self.width) by (nonlinear_arith);
            return false;
        }
        assert(0 <= row * self.width && row * self.width + self.width <= self.width
            * self.height) by (nonlinear_arith)
            requires
                0 <= row < self.height,
                self.width >= 0,
        ;
        let start: usize = row * self.width;
        column < stored - start
    }

    /// Sets the pixel in column `x` of row `y` to `c`. A place for which no
    /// pixel is stored is left out: the canvas stays as it is.
    pub fn write_pixel(&mut self, x: i32, y: i32, c: P)
        requires
            old(self).well_formed(),
        ensures
            final(self).well_formed(),
            final(self).width() == old(self).width(),
            final(self).height() == old(self).height(),
            final(self).pixels() == if old(self).holds(x as int, y as int) {
                old(self).pixels().update(pixel_index(old(self).width(), x as int, y as int), c)
            } else {
                old(self).pixels()
            },
    {
        if self.has_pixel(x, y) {
            let stored: usize = self.pixels.len();
            let column: usize = x as usize;
            let row: usize = y as usize;
            assert(0 <= row * self.width) by (nonlinear_arith)
                requires
                    row >= 0,
                    self.width >= 0,
            ;
            self.pixels.set(row * self.width + column, c);
        }
    }

    /// The canvas of the same size on which each pixel is what `f` makes of
    /// the pixel of this canvas in the same place.
    pub fn map<Q: Copy, F: Fn(P) -> Q>(&self, f: F) -> (mapped: Canvas<Q>)
        requires
            self.well_formed(),
            forall|i: int|
                0 <= i < self.pixels().len() ==> f.requires((#[trigger] self.pixels()[i],)),
        ensures
            mapped.well_formed(),
            mapped.width() == self.width(),
            mapped.height() == self.height(),
            mapped.pixels().len() == self.pixels().len(),
            forall|i: int|
                0 <= i < self.pixels().len() ==> f.ensures(
                    (self.pixels()[i],),
                    #[trigger] mapped.pixels()[i],
                ),
    {
        let mut pixels: Vec<Q> = Vec::new();
        let mut i: usize = 0;
        while i < self.pixels.len()
            invariant
                i <= self.pixels.len(),
                pixels.len() == i,
                forall|k: int|
                    0 <= k < self.pixels().len() ==> f.requires((#[trigger] self.pixels()[k],)),
                forall|k: int|
                    0 <= k < i ==> f.ensures((self.pixels()[k],), #[trigger] pixels@[k]),
            decreases self.pixels.len() - i,
        {
            let p = self.pixels[i];
            assert(p == self.pixels()[i as int]);
            let q = f(p);
            pixels.push(q);
            i = i + 1;
        }
        Canvas { width: self.width, height: self.height, pixels }
    }
}

impl<P: Copy + Default> Canvas<P> {
    /// A canvas on which every pixel is the default one.
    pub fn new(width: usize, height: usize) -> (canvas: Self)
        requires
            width * height <= usize::MAX,
        ensures
            canvas.well_formed(),
            canvas.width() == width,
            canvas.height() == height,
            canvas.pixels().len() == width * height,
            forall|i: int, j: int|
                0 <= i < canvas.pixels().len() && 0 <= j < canvas.pixels().len()
                    ==> canvas.pixels()[i] == canvas.pixels()[j],
    {
        Canvas::new_with_color(width, height, P::default())
    }
}

/// The levels of a pixel's three channels on the scale of a plain-text image,
/// on which `PPM_MAX_LEVEL` is full intensity. A level may lie outside the
/// scale: the image shows it as the nearest level of the scale.
#[derive(Clone, Copy, Debug, PartialEq, Eq, Structural)]
pub struct Rgb {
    pub red: i32,
    pub green: i32,
    pub blue: i32,
}

impl Default for Rgb {
    /// Black: no light in any channel.
    fn default() -> (black: Self)
        ensures
            black == (Rgb { red: 0, green: 0, blue: 0 }),
    {
        Rgb { red: 0, green: 0, blue: 0 }
    }
}

/// The level of the scale that is nearest to `level`.
pub open spec fn clamped(level: int) -> nat {
    if level < 0 {
        0
    } else if level > PPM_MAX_LEVEL {
        PPM_MAX_LEVEL as nat
    } else {
        level as nat
    }
}

/// The level that a plain-text image shows for `level`.
pub fn to_ppm_value(level: i32) -> (shown: i32)
    ensures
        shown == clamped(level as int),
{
    if level < 0 {
        0
    } else if level > PPM_MAX_LEVEL {
        PPM_MAX_LEVEL
    } else {
        level
    }
}

/// The character for a single digit.
pub open spec fn digit_char(d: nat) -> char
    recommends
        d < 10,
{
    if d == 0 {
        '0'
    } else if d == 1 {
        '1'
    } else if d == 2 {
        '2'
    } else if d == 3 {
        '3'
    } else if d == 4 {
        '4'
    } else if d == 5 {
        '5'
    } else if d == 6 {
        '6'
    } else if d == 7 {
        '7'
    } else if d == 8 {
        '8'
    } else {
        '9'
    }
}

/// The decimal numeral of `n`, without leading zeros.
pub open spec fn decimal(n: nat) -> Seq<char>
    decreases n,
{
    if n < 10 {
        seq![digit_char(n)]
    } else {
        decimal(n / 10).push(digit_char(n % 10))
    }
}

fn digit_str(d: usize) -> (s: &'static str)
    requires
        d < 10,
    ensures
        s@ == seq![digit_char(d as nat)],
{
    proof {
        reveal_strlit("0");
        reveal_strlit("1");
        reveal_strlit("2");
        reveal_strlit("3");
        reveal_strlit("4");
        reveal_strlit("5");
        reveal_strlit("6");
        reveal_strlit("7");
        reveal_strlit("8");
        reveal_strlit("9");
    }
    let s = if d == 0 {
        "0"
    } else if d == 1 {
        "1"
    } else if d == 2 {
        "2"
    } else if d == 3 {
        "3"
    } else if d == 4 {
        "4"
    } else if d == 5 {
        "5"
    } else if d == 6 {
        "6"
    } else if d == 7 {
        "7"
    } else if d == 8 {
        "8"
    } else {
        "9"
    };
    assert(s@ =~= seq![digit_char(d as nat)]);
    s
}

/// Writes `n` as a decimal numeral.
pub fn decimal_string(n: usize) -> (s: String)
    ensures
        s@ == decimal(n as nat),
    decreases n,
{
    if n < 10 {
        String::from_str(digit_str(n))
    } else {
        let mut s = decimal_string(n / 10);
        s.append(digit_str(n % 10));
        assert(s@ =~= decimal((n / 10) as nat).push(digit_char((n % 10) as nat)));
        s
    }
}

/// A text under construction: what is written, and the width of its last
/// line.
pub type Page = (Seq<char>, nat);

/// The page after `word` has been added under the line limit of the format.
pub open spec fn page_after_word(page: Page, word: Seq<char>) -> Page {
    (
        text_after_append(page.0, page.1, PPM_LINE_WIDTH as nat, word),
        column_after_append(page.1, PPM_LINE_WIDTH as nat, word),
    )
}

/// The page after the three levels of `pixel` have been added: red, green,
/// blue, each as the decimal numeral of the level that the image shows.
pub open spec fn page_after_pixel(page: Page, pixel: Rgb) -> Page {
    let with_red = page_after_word(page, decimal(clamped(pixel.red as int)));
    let with_green = page_after_word(with_red, decimal(clamped(pixel.green as int)));
    page_after_word(with_green, decimal(clamped(pixel.blue as int)))
}

/// The page after the first `n` of `pixels` have been added to `start`. The
/// line ends after the last pixel of each row of `width` pixels.
pub open spec fn page_after_pixels(start: Page, width: nat, pixels: Seq<Rgb>, n: nat) -> Page
    decreases n,
{
    if n == 0 {
        start
    } else {
        let page = page_after_pixel(
            page_after_pixels(start, width, pixels, (n - 1) as nat),
            pixels[n - 1],
        );
        if n % width == 0 {
            (page.0 + seq!['\n'], 0)
        } else {
            page
        }
    }
}

/// The three lines that open a plain-text image: the format's mark, the
/// width and the height, and the highest level.
pub open spec fn ppm_header(width: nat, height: nat) -> Seq<char> {
    seq!['P', '3', '\n'] + decimal(width) + seq![' '] + decimal(height) + seq!['\n'] + seq![
        '2',
        '5',
        '5',
        '\n',
    ]
}

/// The plain-text image of a grid of `width` by `height` pixels.
pub open spec fn ppm_text(width: nat, height: nat, pixels: Seq<Rgb>) -> Seq<char> {
    page_after_pixels((ppm_header(width, height), 0), width, pixels, pixels.len()).0
}

impl Canvas<Rgb> {
    /// The canvas as a plain-text image: the header, then the levels of the
    /// pixels row by row, on lines of at most `PPM_LINE_WIDTH` bytes.
    pub fn to_ppm(&self) -> (text: String)
        requires
            self.well_formed(),
        ensures
            text@ == ppm_text(self.width(), self.height(), self.pixels()),
    {
        let mut s = WrappingStringBuilder::new(PPM_LINE_WIDTH);
        proof {
            reveal_strlit("P3");
            reveal_strlit(" ");
            reveal_strlit("255");
        }
        s.append_line("P3");
        let mut size = decimal_string(self.width);
        size.append(" ");
        let height = decimal_string(self.height);
        size.append(height.as_str());
        s.append_line(size.as_str());
        s.append_line("255");
        assert(s.text() =~= ppm_header(self.width(), self.height()));
        let ghost start: Page = (ppm_header(self.width(), self.height()), 0);
        let mut i: usize = 0;
        while i < self.pixels.len()
            invariant
                i <= self.pixels.len(),
                self.well_formed(),
                s.limit() == PPM_LINE_WIDTH,
                (s.text(), s.column()) == page_after_pixels(
                    start,
                    self.width(),
                    self.pixels(),
                    i as nat,
                ),
            decreases self.pixels.len() - i,
        {
            let p = self.pixels[i];
            let r = decimal_string(to_ppm_value(p.red) as usize);
            let g = decimal_string(to_ppm_value(p.green) as usize);
            let b = decimal_string(to_ppm_value(p.blue) as usize);
            s.append(r.as_str());
            s.append(g.as_str());
            s.append(b.as_str());
            assert(self.width != 0) by {
                if self.width == 0 {
                    assert(self.width * self.height == 0) by (nonlinear_arith)
                        requires
                            self.width == 0,
                    ;
                }
            }
            if (i + 1) % self.width == 0 {
                s.newline();
            }
            i = i + 1;
        }
        s.into_string()
    }
}

/// A level of the scale is written with three digits at most, and each digit
/// takes one byte.
pub proof fn lemma_level_takes_three_bytes_at_most(level: nat)
    requires
        level <= PPM_MAX_LEVEL,
    ensures
        width_of(decimal(level)) <= 3,
{
    reveal_with_fuel(decimal, 3);
    let numeral = decimal(level);
    assert(numeral.len() <= 3);
    assert(is_ascii_chars(numeral));
    is_ascii_chars_encode_utf8(numeral);
}

/// No line of an image grows past `PPM_LINE_WIDTH`: however many pixels have
/// been added to a page whose last line was within the width, its last line
/// is within the width.
pub proof fn lemma_image_lines_within_width(start: Page, width: nat, pixels: Seq<Rgb>, n: nat)
    requires
        start.1 <= PPM_LINE_WIDTH,
        n <= pixels.len(),
    ensures
        page_after_pixels(start, width, pixels, n).1 <= PPM_LINE_WIDTH,
    decreases n,
{
    if n > 0 {
        lemma_image_lines_within_width(start, width, pixels, (n - 1) as nat);
        let before = page_after_pixels(start, width, pixels, (n - 1) as nat);
        let pixel = pixels[n - 1];
        let limit = PPM_LINE_WIDTH as nat;
        let red = decimal(clamped(pixel.red as int));
        let green = decimal(clamped(pixel.green as int));
        let blue = decimal(clamped(pixel.blue as int));
        lemma_level_takes_three_bytes_at_most(clamped(pixel.red as int));
        lemma_level_takes_three_bytes_at_most(clamped(pixel.green as int));
        lemma_level_takes_three_bytes_at_most(clamped(pixel.blue as int));
        let with_red = page_after_word(before, red);
        lemma_append_keeps_line_within_limit(before.1, limit, red);
        let with_green = page_after_word(with_red, green);
        lemma_append_keeps_line_within_limit(with_red.1, limit, green);
        lemma_append_keeps_line_within_limit(with_green.1, limit, blue);
    }
}

} // verus!
