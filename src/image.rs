use vstd::prelude::*;

use crate::pixel::{blue_of, green_of, pixel_channels, red_of, Color32};

verus! {

/// A 2-D collection of pixels, indexed as `pixels[y][x]`.
pub type Pixels = Vec<Vec<Color32>>;

/// A rendered picture: its size and its rows of packed pixels.
pub struct Image {
    width: usize,
    height: usize,
    pixels: Pixels,
}

/// What an image holds, as mathematical values.
pub struct ImageView {
    pub width: nat,
    pub height: nat,
    pub pixels: Seq<Seq<Color32>>,
}

impl View for Image {
    type V = ImageView;

    closed spec fn view(&self) -> ImageView {
        ImageView {
            width: self.width as nat,
            height: self.height as nat,
            pixels: self.pixels@.map_values(|row: Vec<Color32>| row@),
        }
    }
}

impl ImageView {
    /// Every one of the `height` first rows has at least `width` pixels.
    pub open spec fn covers(&self) -> bool {
        &&& self.pixels.len() >= self.height
        &&& forall|y: int| 0 <= y < self.height ==> #[trigger] self.pixels[y].len() >= self.width
    }
}

/// The decimal digits of `n`, in ASCII, most significant first.
pub open spec fn decimal(n: nat) -> Seq<u8>
    decreases n,
{
    if n < 10 {
        seq![(48 + n) as u8]
    } else {
        decimal(n / 10) + seq![(48 + n % 10) as u8]
    }
}

/// The header of a binary PPM file: format, dimensions and maximum channel value.
pub open spec fn ppm_header(width: nat, height: nat) -> Seq<u8> {
    seq![80u8, 54u8, 10u8] + decimal(width) + seq![32u8] + decimal(height) + seq![32u8, 50u8, 53u8,
    53u8, 10u8]
}

/// The bytes of one pixel: red, green, blue.
pub open spec fn rgb_bytes(p: Color32) -> Seq<u8> {
    seq![red_of(p), green_of(p), blue_of(p)]
}

/// The bytes of the first `n` pixels of a row.
pub open spec fn row_bytes(row: Seq<Color32>, n: nat) -> Seq<u8>
    decreases n,
{
    if n == 0 {
        seq![]
    } else {
        row_bytes(row, (n - 1) as nat) + rgb_bytes(row[n - 1])
    }
}

/// The bytes of the first `h` rows, `w` pixels of each.
pub open spec fn body_bytes(rows: Seq<Seq<Color32>>, w: nat, h: nat) -> Seq<u8>
    decreases h,
{
    if h == 0 {
        seq![]
    } else {
        body_bytes(rows, w, (h - 1) as nat) + row_bytes(rows[h - 1], w)
    }
}

/// The whole PPM file of an image.
pub open spec fn ppm_bytes(img: ImageView) -> Seq<u8> {
    ppm_header(img.width, img.height) + body_bytes(img.pixels, img.width, img.height)
}

proof fn lemma_row_bytes(row: Seq<Color32>, n: nat, x: int)
    requires
        0 <= x < n,
    ensures
        row_bytes(row, n).len() == 3 * n,
        row_bytes(row, n).subrange(3 * x, 3 * x + 3) == rgb_bytes(row[x]),
    decreases n,
{
    let prev = row_bytes(row, (n - 1) as nat);
    if x < n - 1 {
        lemma_row_bytes(row, (n - 1) as nat, x);
        assert(row_bytes(row, n).subrange(3 * x, 3 * x + 3) =~= prev.subrange(3 * x, 3 * x + 3));
    } else {
        if n > 1 {
            lemma_row_bytes(row, (n - 1) as nat, 0);
        }
        assert(prev.len() == 3 * x);
        assert(row_bytes(row, n).subrange(3 * x, 3 * x + 3) =~= rgb_bytes(row[x]));
    }
}

proof fn lemma_body_bytes(rows: Seq<Seq<Color32>>, w: nat, h: nat, x: int, y: int)
    requires
        0 <= x < w,
        0 <= y < h,
    ensures
        body_bytes(rows, w, h).len() == 3 * w * h,
        body_bytes(rows, w, h).subrange(3 * (y * w + x), 3 * (y * w + x) + 3) == rgb_bytes(
            rows[y][x],
        ),
    decreases h,
{
    let prev = body_bytes(rows, w, (h - 1) as nat);
    let at = 3 * (y * w + x);
    lemma_row_bytes(rows[h - 1], w, x);
    if y < h - 1 {
        lemma_body_bytes(rows, w, (h - 1) as nat, x, y);
        assert(at + 3 <= 3 * w * (h - 1)) by (nonlinear_arith)
            requires
                at == 3 * (y * w + x),
                0 <= x < w,
                0 <= y < h - 1,
        ;
        assert(body_bytes(rows, w, h).subrange(at, at + 3) =~= prev.subrange(at, at + 3));
    } else {
        if h > 1 {
            lemma_body_bytes(rows, w, (h - 1) as nat, x, 0);
        } else {
            assert(prev.len() == 0);
        }
        assert(prev.len() == 3 * w * y);
        assert(at == 3 * w * y + 3 * x) by (nonlinear_arith)
            requires
                at == 3 * (y * w + x),
        ;
        assert(body_bytes(rows, w, h).subrange(at, at + 3) =~= row_bytes(rows[y], w).subrange(
            3 * x,
            3 * x + 3,
        ));
    }
    assert(3 * w * h == 3 * w * (h - 1) + 3 * w) by (nonlinear_arith);
}

/// In the PPM file of an image, the pixel in row `y`, column `x` stands as its
/// red, green and blue bytes at offset `3 * (y * width + x)` after the header,
/// and the file ends after the last pixel of the last row.
pub proof fn lemma_ppm_pixel_offset(img: ImageView, x: int, y: int)
    requires
        0 <= x < img.width,
        0 <= y < img.height,
    ensures
        ppm_bytes(img).len() == ppm_header(img.width, img.height).len() + 3 * img.width
            * img.height,
        ({
            let at = ppm_header(img.width, img.height).len() + 3 * (y * img.width + x);
            ppm_bytes(img).subrange(at, at + 3) == rgb_bytes(img.pixels[y][x])
        }),
{
    let header = ppm_header(img.width, img.height);
    let body = body_bytes(img.pixels, img.width, img.height);
    lemma_body_bytes(img.pixels, img.width, img.height, x, y);
    let at = 3 * (y * img.width + x);
    assert(at + 3 <= 3 * img.width * img.height) by (nonlinear_arith)
        requires
            at == 3 * (y * img.width + x),
            0 <= x < img.width,
            0 <= y < img.height,
    ;
    assert(ppm_bytes(img).subrange(header.len() + at, header.len() + at + 3) =~= body.subrange(
        at,
        at + 3,
    ));
}

/// Appends the decimal digits of `n` to `out`.
fn push_decimal(out: &mut Vec<u8>, n: usize)
    ensures
        final(out)@ == old(out)@ + decimal(n as nat),
    decreases n,
{
    if n >= 10 {
        push_decimal(out, n / 10);
    }
    out.push((48 + n % 10) as u8);
    proof {
        assert(final(out)@ =~= old(out)@ + decimal(n as nat));
    }
}

impl Image {
    /// An empty image: no width, no height, one empty row.
    pub fn default() -> (img: Self)
        ensures
            img@.width == 0,
            img@.height == 0,
            img@.pixels == seq![Seq::<Color32>::empty()],
    {
        let img = Image { width: 0, height: 0, pixels: vec![Vec::new()] };
        assert(img@.pixels =~= seq![Seq::<Color32>::empty()]);
        img
    }

    /// An image of the given size over the given rows of pixels.
    pub fn new(width: usize, height: usize, pixels: Pixels) -> (img: Self)
        ensures
            img@.width == width,
            img@.height == height,
            img@.pixels == pixels@.map_values(|row: Vec<Color32>| row@),
    {
        Image { width, height, pixels }
    }

    /// The number of pixels in a row.
    pub fn width(&self) -> (w: usize)
        ensures
            w == self@.width,
    {
        self.width
    }

    /// The number of rows.
    pub fn height(&self) -> (h: usize)
        ensures
            h == self@.height,
    {
        self.height
    }

    /// The pixel in row `y`, column `x`.
    pub fn pixel(&self, x: usize, y: usize) -> (p: Color32)
        requires
            y < self@.pixels.len(),
            x < self@.pixels[y as int].len(),
        ensures
            p == self@.pixels[y as int][x as int],
    {
        self.pixels[y][x]
    }

    /// The image as a binary PPM file: a textual header with the format's magic,
    /// the width, the height and 255, then three bytes (red, green, blue) per
    /// pixel, row by row.
    pub fn to_ppm_bytes(&self) -> (out: Vec<u8>)
        requires
            self@.covers(),
        ensures
            out@ == ppm_bytes(self@),
    {
        let mut out: Vec<u8> = Vec::new();
        out.push(80u8);
        out.push(54u8);
        out.push(10u8);
        push_decimal(&mut out, self.width);
        out.push(32u8);
        push_decimal(&mut out, self.height);
        out.push(32u8);
        out.push(50u8);
        out.push(53u8);
        out.push(53u8);
        out.push(10u8);
        let ghost header = out@;
        assert(header =~= ppm_header(self@.width, self@.height));
        let ghost rows = self@.pixels;
        let mut y: usize = 0;
        while y < self.height
            invariant
                y <= self.height,
                rows == self@.pixels,
                self@.covers(),
                out@ == header + body_bytes(rows, self.width as nat, y as nat),
            decreases self.height - y,
        {
            let row = &self.pixels[y];
            assert(row@ == rows[y as int]);
            assert(rows[y as int].len() >= self.width);
            let ghost before = out@;
            let mut x: usize = 0;
            while x < self.width
                invariant
                    x <= self.width,
                    row@ == rows[y as int],
                    row@.len() >= self.width,
                    out@ == before + row_bytes(row@, x as nat),
                decreases self.width - x,
            {
                let (r, g, b) = pixel_channels(row[x]);
                out.push(r);
                out.push(g);
                out.push(b);
                assert(out@ =~= before + row_bytes(row@, (x + 1) as nat));
                x = x + 1;
            }
            assert(out@ =~= header + body_bytes(rows, self.width as nat, (y + 1) as nat));
            y = y + 1;
        }
        out
    }
}

} // verus!
