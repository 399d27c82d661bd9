use vstd::prelude::*;

use crate::image::Pixels;
use crate::pixel::Color32;

verus! {

/// The first column of worker `i` when `width` columns are shared among
/// `workers` workers. Worker `i` owns the columns from `column_start(i)` up to,
/// not including, `column_start(i + 1)`: each worker gets `width / workers`
/// columns or one more, the extra ones spread over the workers.
pub open spec fn column_start(i: int, workers: int, width: int) -> int {
    i * width / workers
}

/// Column `c` lies in the range of worker `i`.
pub open spec fn owns_column(i: int, c: int, workers: int, width: int) -> bool {
    column_start(i, workers, width) <= c < column_start(i + 1, workers, width)
}

/// Some worker owns column `c`.
pub open spec fn column_owned(c: int, workers: int, width: int) -> bool {
    exists|i: int| 0 <= i < workers && #[trigger] owns_column(i, c, workers, width)
}

proof fn lemma_start_monotone(i: int, j: int, workers: int, width: int)
    requires
        0 <= i <= j,
        0 < workers,
        0 <= width,
    ensures
        column_start(i, workers, width) <= column_start(j, workers, width),
{
    assert(i * width <= j * width) by (nonlinear_arith)
        requires
            0 <= i <= j,
            0 <= width,
    ;
    vstd::arithmetic::div_mod::lemma_div_is_ordered(i * width, j * width, workers);
}

proof fn lemma_start_bounds(workers: int, width: int)
    requires
        0 < workers,
        0 <= width,
    ensures
        column_start(0, workers, width) == 0,
        column_start(workers, workers, width) == width,
{
    assert(workers * width / workers == width) by (nonlinear_arith)
        requires
            0 < workers,
    ;
}

/// Each worker gets `width / workers` columns or one more.
proof fn lemma_share_size(i: int, workers: int, width: int)
    requires
        0 <= i,
        0 < workers,
        0 <= width,
    ensures
        width / workers <= column_start(i + 1, workers, width) - column_start(i, workers, width)
            <= width / workers + 1,
{
    let a = i * width;
    assert((i + 1) * width == a + width) by (nonlinear_arith)
        requires
            a == i * width,
    ;
    vstd::arithmetic::div_mod::lemma_fundamental_div_mod(a, workers);
    vstd::arithmetic::div_mod::lemma_fundamental_div_mod(width, workers);
    let q = a / workers + width / workers;
    let s = a % workers + width % workers;
    assert(a + width == q * workers + s) by (nonlinear_arith)
        requires
            a == workers * (a / workers) + a % workers,
            width == workers * (width / workers) + width % workers,
            q == a / workers + width / workers,
            s == a % workers + width % workers,
    ;
    if s < workers {
        vstd::arithmetic::div_mod::lemma_fundamental_div_mod_converse(a + width, workers, q, s);
    } else {
        assert(a + width == (q + 1) * workers + (s - workers)) by (nonlinear_arith)
            requires
                a + width == q * workers + s,
        ;
        vstd::arithmetic::div_mod::lemma_fundamental_div_mod_converse(
            a + width,
            workers,
            q + 1,
            s - workers,
        );
    }
}

/// Some worker below `k` owns column `c`, when `c` lies before the start of worker `k`.
proof fn lemma_owner_below(c: int, k: int, workers: int, width: int)
    requires
        0 <= c,
        0 <= k <= workers,
        0 < workers,
        0 <= width,
        c < column_start(k, workers, width),
    ensures
        exists|i: int| 0 <= i < k && owns_column(i, c, workers, width),
    decreases k,
{
    lemma_start_bounds(workers, width);
    if k > 0 {
        if column_start(k - 1, workers, width) <= c {
            assert(owns_column(k - 1, c, workers, width));
        } else {
            lemma_owner_below(c, k - 1, workers, width);
        }
    }
}

/// The column ranges of all workers cover the columns `0..width` exactly once:
/// every column is owned by some worker, no column by two, and no worker owns a
/// column outside the image.
pub proof fn lemma_columns_partition(workers: int, width: int)
    requires
        0 < workers,
        0 <= width,
    ensures
        forall|c: int| 0 <= c < width ==> #[trigger] column_owned(c, workers, width),
        forall|i: int, j: int, c: int|
            0 <= i < workers && 0 <= j < workers && owns_column(i, c, workers, width)
                && owns_column(j, c, workers, width) ==> i == j,
        forall|i: int, c: int|
            0 <= i < workers && owns_column(i, c, workers, width) ==> 0 <= c < width,
{
    lemma_start_bounds(workers, width);
    assert forall|c: int| 0 <= c < width implies #[trigger] column_owned(c, workers, width) by {
        lemma_owner_below(c, workers, workers, width);
    }
    assert forall|i: int, j: int, c: int|
        0 <= i < workers && 0 <= j < workers && owns_column(i, c, workers, width) && owns_column(
            j,
            c,
            workers,
            width,
        ) implies i == j by {
        if i < j {
            lemma_start_monotone(i + 1, j, workers, width);
        } else if j < i {
            lemma_start_monotone(j + 1, i, workers, width);
        }
    }
    assert forall|i: int, c: int|
        0 <= i < workers && owns_column(i, c, workers, width) implies 0 <= c < width by {
        lemma_start_monotone(0, i, workers, width);
        lemma_start_monotone(i + 1, workers, workers, width);
    }
}

/// The columns of worker `worker`, as a half-open range `(start, end)`.
pub fn column_range(worker: usize, workers: usize, width: usize) -> (r: (usize, usize))
    requires
        worker < workers,
        workers * width <= usize::MAX,
    ensures
        r.0 == column_start(worker as int, workers as int, width as int),
        r.1 == column_start(worker + 1, workers as int, width as int),
        r.0 <= r.1 <= width,
        width / workers <= r.1 - r.0 <= width / workers + 1,
{
    proof {
        lemma_share_size(worker as int, workers as int, width as int);
        lemma_start_monotone(worker as int, worker + 1, workers as int, width as int);
        lemma_start_monotone(worker + 1, workers as int, workers as int, width as int);
        lemma_start_bounds(workers as int, width as int);
        assert(worker * width <= workers * width && (worker + 1) * width <= workers * width)
            by (nonlinear_arith)
            requires
                worker < workers,
        ;
    }
    let start = worker * width / workers;
    let end = (worker + 1) * width / workers;
    (start, end)
}

/// Block `i` holds worker `i`'s share of an image of `height` rows and `width`
/// columns: one row per image row, one pixel per column that the worker owns.
pub open spec fn blocks_fit(blocks: Seq<Pixels>, width: int, height: int) -> bool {
    forall|i: int|
        0 <= i < blocks.len() ==> {
            &&& #[trigger] blocks[i]@.len() == height
            &&& forall|y: int|
                0 <= y < height ==> #[trigger] blocks[i]@[y]@.len() == column_start(
                    i + 1,
                    blocks.len() as int,
                    width,
                ) - column_start(i, blocks.len() as int, width)
        }
}

/// In row `y` of the image, the pixel of each column `c` comes from the block
/// of the worker `i` that owns `c`, at the place of `c` among that worker's
/// columns.
pub open spec fn assembled_from(pixels: Seq<Vec<Color32>>, blocks: Seq<Pixels>, width: int, y: int) -> bool {
    forall|i: int, c: int|
        0 <= i < blocks.len() && #[trigger] owns_column(i, c, blocks.len() as int, width)
            ==> pixels[y]@[c] == blocks[i]@[y]@[c - column_start(i, blocks.len() as int, width)]
}

/// Joins the blocks that the workers produced into one buffer of `height` rows
/// of `width` pixels, each pixel taken from the block of the worker that owns
/// its column.
pub fn assemble_columns(width: usize, height: usize, blocks: &Vec<Pixels>) -> (pixels: Pixels)
    requires
        blocks.len() > 0,
        blocks.len() * width <= usize::MAX,
        blocks_fit(blocks@, width as int, height as int),
    ensures
        pixels.len() == height,
        forall|y: int| 0 <= y < height ==> #[trigger] pixels@[y]@.len() == width,
        forall|y: int|
            0 <= y < height ==> #[trigger] assembled_from(pixels@, blocks@, width as int, y),
{
    let workers = blocks.len();
    let mut pixels: Pixels = Vec::new();
    let mut y: usize = 0;
    while y < height
        invariant
            y <= height,
            workers == blocks.len(),
            workers > 0,
            workers * width <= usize::MAX,
            blocks_fit(blocks@, width as int, height as int),
            pixels.len() == y,
            forall|yy: int| 0 <= yy < y ==> #[trigger] pixels@[yy]@.len() == width,
            forall|yy: int|
                0 <= yy < y ==> #[trigger] assembled_from(pixels@, blocks@, width as int, yy),
        decreases height - y,
    {
        let mut row: Vec<Color32> = Vec::new();
        let mut i: usize = 0;
        while i < workers
            invariant
                y < height,
                i <= workers,
                workers == blocks.len(),
                workers > 0,
                workers * width <= usize::MAX,
                blocks_fit(blocks@, width as int, height as int),
                row.len() == column_start(i as int, workers as int, width as int),
                forall|j: int, c: int|
                    0 <= j < workers && c < row.len() && #[trigger] owns_column(
                        j,
                        c,
                        workers as int,
                        width as int,
                    ) ==> row@[c] == blocks@[j]@[y as int]@[c - column_start(
                        j,
                        workers as int,
                        width as int,
                    )],
            decreases workers - i,
        {
            let (start, end) = column_range(i, workers, width);
            assert(blocks@[i as int]@.len() == height);
            let block_row = &blocks[i][y];
            let mut x: usize = start;
            while x < end
                invariant
                    y < height,
                    i < workers,
                    start <= x <= end,
                    start == column_start(i as int, workers as int, width as int),
                    end == column_start(i + 1, workers as int, width as int),
                    block_row@ == blocks@[i as int]@[y as int]@,
                    block_row@.len() == end - start,
                    row.len() == x,
                    forall|j: int, c: int|
                        0 <= j < workers && c < row.len() && #[trigger] owns_column(
                            j,
                            c,
                            workers as int,
                            width as int,
                        ) ==> row@[c] == blocks@[j]@[y as int]@[c - column_start(
                            j,
                            workers as int,
                            width as int,
                        )],
                decreases end - x,
            {
                let ghost old_row = row@;
                row.push(block_row[x - start]);
                proof {
                    lemma_columns_partition(workers as int, width as int);
                    assert forall|j: int, c: int|
                        0 <= j < workers && c < row.len() && #[trigger] owns_column(
                            j,
                            c,
                            workers as int,
                            width as int,
                        ) implies row@[c] == blocks@[j]@[y as int]@[c - column_start(
                            j,
                            workers as int,
                            width as int,
                        )] by {
                        if c == x {
                            assert(owns_column(i as int, c, workers as int, width as int));
                            assert(j == i);
                        } else {
                            assert(row@[c] == old_row[c]);
                        }
                    }
                }
                x = x + 1;
            }
            i = i + 1;
        }
        proof {
            lemma_start_bounds(workers as int, width as int);
            lemma_columns_partition(workers as int, width as int);
        }
        let ghost before = pixels@;
        pixels.push(row);
        proof {
            assert forall|yy: int| 0 <= yy < y + 1 implies #[trigger] assembled_from(
                pixels@,
                blocks@,
                width as int,
                yy,
            ) by {
                if yy < y {
                    assert(before[yy] == pixels@[yy]);
                    assert(assembled_from(before, blocks@, width as int, yy));
                }
            }
        }
        y = y + 1;
    }
    pixels
}

/// Renders the share of worker `worker`: for every row `y` below `height` and
/// every column `x` that the worker owns, left to right, the pixel `shade(x, y)`.
pub fn render_columns<F: Fn(usize, usize) -> Color32>(
    worker: usize,
    workers: usize,
    width: usize,
    height: usize,
    shade: &F,
) -> (block: Pixels)
    requires
        worker < workers,
        workers * width <= usize::MAX,
        forall|x: usize, y: usize| x < width && y < height ==> #[trigger] shade.requires((x, y)),
    ensures
        block.len() == height,
        forall|y: int|
            0 <= y < height ==> #[trigger] block@[y]@.len() == column_start(
                worker + 1,
                workers as int,
                width as int,
            ) - column_start(worker as int, workers as int, width as int),
        forall|y: int, k: int|
            0 <= y < height && 0 <= k < block@[y]@.len() ==> shade.ensures(
                ((column_start(worker as int, workers as int, width as int) + k) as usize, y as usize),
                #[trigger] block@[y]@[k],
            ),
{
    let (start, end) = column_range(worker, workers, width);
    let mut block: Pixels = Vec::new();
    let mut y: usize = 0;
    while y < height
        invariant
            y <= height,
            start <= end <= width,
            start == column_start(worker as int, workers as int, width as int),
            end == column_start(worker + 1, workers as int, width as int),
            forall|x: usize, y: usize| x < width && y < height ==> #[trigger] shade.requires((x, y)),
            block.len() == y,
            forall|yy: int| 0 <= yy < y ==> #[trigger] block@[yy]@.len() == end - start,
            forall|yy: int, k: int|
                0 <= yy < y && 0 <= k < block@[yy]@.len() ==> shade.ensures(
                    ((start + k) as usize, yy as usize),
                    #[trigger] block@[yy]@[k],
                ),
        decreases height - y,
    {
        let mut row: Vec<Color32> = Vec::new();
        let mut x: usize = start;
        while x < end
            invariant
                y < height,
                start <= x <= end,
                end <= width,
                forall|x: usize, y: usize|
                    x < width && y < height ==> #[trigger] shade.requires((x, y)),
                row.len() == x - start,
                forall|k: int|
                    0 <= k < row.len() ==> shade.ensures(
                        ((start + k) as usize, y),
                        #[trigger] row@[k],
                    ),
            decreases end - x,
        {
            let p = shade(x, y);
            row.push(p);
            x = x + 1;
        }
        let ghost before = block@;
        block.push(row);
        proof {
            assert forall|yy: int, k: int|
                0 <= yy < y + 1 && 0 <= k < block@[yy]@.len() implies shade.ensures(
                ((start + k) as usize, yy as usize),
                #[trigger] block@[yy]@[k],
            ) by {
                if yy < y {
                    assert(block@[yy] == before[yy]);
                }
            }
        }
        y = y + 1;
    }
    block
}


/// Block `i` of `blocks` holds what `shade` gives for worker `i`'s columns, left
/// to right, in every row.
pub open spec fn blocks_shaded<F: Fn(usize, usize) -> Color32>(
    blocks: Seq<Pixels>,
    width: int,
    height: int,
    shade: F,
) -> bool {
    forall|i: int, y: int, k: int|
        0 <= i < blocks.len() && 0 <= y < height && 0 <= k < blocks[i]@[y]@.len() ==> shade.ensures(
            ((column_start(i, blocks.len() as int, width) + k) as usize, y as usize),
            #[trigger] blocks[i]@[y]@[k],
        )
}

/// When every worker has shaded its own columns, the joined buffer holds in row
/// `y`, column `x` what `shade` gives for `(x, y)`, for every pixel of the image.
pub proof fn lemma_assembled_pixels_shaded<F: Fn(usize, usize) -> Color32>(
    width: usize,
    height: usize,
    blocks: Seq<Pixels>,
    pixels: Seq<Vec<Color32>>,
    shade: F,
)
    requires
        blocks.len() > 0,
        blocks_fit(blocks, width as int, height as int),
        blocks_shaded(blocks, width as int, height as int, shade),
        forall|y: int| 0 <= y < height ==> #[trigger] assembled_from(pixels, blocks, width as int, y),
    ensures
        forall|x: int, y: int|
            0 <= x < width && 0 <= y < height ==> shade.ensures(
                (x as usize, y as usize),
                #[trigger] pixels[y]@[x],
            ),
{
    let workers = blocks.len() as int;
    lemma_columns_partition(workers, width as int);
    assert forall|x: int, y: int| 0 <= x < width && 0 <= y < height implies shade.ensures(
        (x as usize, y as usize),
        #[trigger] pixels[y]@[x],
    ) by {
        assert(column_owned(x, workers, width as int));
        let i = choose|i: int| 0 <= i < workers && #[trigger] owns_column(i, x, workers, width as int);
        let k = x - column_start(i, workers, width as int);
        assert(assembled_from(pixels, blocks, width as int, y));
        assert(pixels[y]@[x] == blocks[i]@[y]@[k]);
        assert(blocks[i]@.len() == height);
        assert(blocks[i]@[y]@.len() == column_start(i + 1, workers, width as int) - column_start(
            i,
            workers,
            width as int,
        ));
    }
}

} // verus!
