use vstd::prelude::*;

use crate::color::Rgb;

verus! {

/// A band of rows of the image, with what a worker needs to render it and
/// the rows that it has rendered.
#[derive(Debug)]
pub struct ImageBlockInfo {
    pub start_row: u32,
    pub end_row: u32,
    pub image_height: u32,
    pub image_width: u32,
    pub spp: u32,
    pub max_depth: u32,
    pub image_block: Vec<Vec<Rgb>>,
}

/// The first row of band `i` where `height` rows are shared among
/// `workers`: every band but the last has the same number of rows.
pub open spec fn band_start(i: int, height: int, workers: int) -> int {
    i * (height / workers)
}

/// The row after the last row of band `i`: the next band's first row, or
/// the height of the image for the last band, which takes what is left.
pub open spec fn band_end(i: int, height: int, workers: int) -> int {
    if i == workers - 1 {
        height
    } else {
        band_start(i + 1, height, workers)
    }
}

impl ImageBlockInfo {
    /// Whether the band holds the given row of the image among those it
    /// has rendered.
    pub open spec fn covers(self, row: int) -> bool {
        self.start_row <= row < self.start_row + self.image_block@.len()
    }

    /// The number of rows of the band: none where it ends before it
    /// starts.
    pub open spec fn rows(self) -> int {
        if self.start_row <= self.end_row {
            self.end_row - self.start_row
        } else {
            0
        }
    }

    /// Whether the rendered rows lie within an image of that size: each
    /// has `width` pixels, and the last stands above the image's end.
    pub open spec fn fits(self, width: u32, height: u32) -> bool {
        &&& self.start_row + self.image_block@.len() <= height
        &&& forall|y: int|
            0 <= y < self.image_block@.len() ==> (#[trigger] self.image_block@[y])@.len() == width
    }
}

/// Shares the rows of an image among `workers` bands, of which there must
/// be one at least. The bands follow one another from the top and cover
/// the image; none has rendered anything yet.
pub fn partition(image_height: u32, image_width: u32, spp: u32, max_depth: u32, workers: u32) -> (blocks:
    Vec<ImageBlockInfo>)
    requires
        workers > 0,
    ensures
        blocks@.len() == workers,
        forall|i: int|
            0 <= i < workers ==> {
                &&& (#[trigger] blocks@[i]).start_row == band_start(
                    i,
                    image_height as int,
                    workers as int,
                )
                &&& blocks@[i].end_row == band_end(i, image_height as int, workers as int)
                &&& blocks@[i].image_height == image_height
                &&& blocks@[i].image_width == image_width
                &&& blocks@[i].spp == spp
                &&& blocks@[i].max_depth == max_depth
                &&& blocks@[i].image_block@.len() == 0
            },
{
    let block_size: u32 = image_height / workers;
    let mut blocks: Vec<ImageBlockInfo> = Vec::new();
    let mut i: u32 = 0;
    while i < workers
        invariant
            i <= workers,
            workers > 0,
            block_size == image_height / workers,
            blocks@.len() == i,
            forall|k: int|
                0 <= k < i ==> {
                    &&& (#[trigger] blocks@[k]).start_row == band_start(
                        k,
                        image_height as int,
                        workers as int,
                    )
                    &&& blocks@[k].end_row == band_end(k, image_height as int, workers as int)
                    &&& blocks@[k].image_height == image_height
                    &&& blocks@[k].image_width == image_width
                    &&& blocks@[k].spp == spp
                    &&& blocks@[k].max_depth == max_depth
                    &&& blocks@[k].image_block@.len() == 0
                },
        decreases workers - i,
    {
        proof {
            lemma_bands_lie_in_image(i as int, image_height as int, workers as int);
            assert((i + 1) * (image_height / workers) == i * (image_height / workers) + (image_height
                / workers)) by (nonlinear_arith);
        }
        let start_row: u32 = i * block_size;
        let end_row: u32 = if i == workers - 1 {
            image_height
        } else {
            start_row + block_size
        };
        blocks.push(
            ImageBlockInfo {
                start_row,
                end_row,
                image_height,
                image_width,
                spp,
                max_depth,
                image_block: Vec::new(),
            },
        );
        i += 1;
    }
    blocks
}

/// The bands follow one another without a gap and cover the image: the
/// first starts at the top, each ends where the next starts, none ends
/// before it starts, and the last ends with the image.
pub proof fn lemma_bands_lie_in_image(i: int, height: int, workers: int)
    requires
        0 <= i < workers,
        0 <= height,
    ensures
        band_start(0, height, workers) == 0,
        0 <= band_start(i, height, workers) <= band_end(i, height, workers) <= height,
        i + 1 < workers ==> band_end(i, height, workers) == band_start(i + 1, height, workers),
        band_end(workers - 1, height, workers) == height,
{
    let size = height / workers;
    assert(0 <= size && size * workers <= height) by (nonlinear_arith)
        requires
            size == height / workers,
            workers > 0,
            height >= 0,
    ;
    assert(0 <= i * size && i * size <= (i + 1) * size && (i + 1) * size <= workers * size)
        by (nonlinear_arith)
        requires
            0 <= i < workers,
            0 <= size,
    ;
    assert(workers * size == size * workers) by (nonlinear_arith);
}

/// Whether a row of the image lies in band `i`.
pub open spec fn in_band(row: int, i: int, height: int, workers: int) -> bool {
    band_start(i, height, workers) <= row < band_end(i, height, workers)
}

/// Every row of the image lies in one band, and in one only.
pub proof fn lemma_bands_partition_rows(row: int, height: int, workers: int)
    requires
        0 < workers,
        0 <= row < height,
    ensures
        exists|i: int| 0 <= i < workers && #[trigger] in_band(row, i, height, workers),
        forall|i: int, j: int|
            0 <= i < workers && 0 <= j < workers && #[trigger] in_band(row, i, height, workers)
                && #[trigger] in_band(row, j, height, workers) ==> i == j,
{
    let size = height / workers;
    assert forall|i: int, j: int|
        0 <= i < workers && 0 <= j < workers && #[trigger] in_band(row, i, height, workers)
            && #[trigger] in_band(row, j, height, workers) implies i == j by {
        if i < j {
            assert((i + 1) * size <= j * size) by (nonlinear_arith)
                requires
                    i + 1 <= j,
                    0 <= size,
            ;
        } else if j < i {
            assert((j + 1) * size <= i * size) by (nonlinear_arith)
                requires
                    j + 1 <= i,
                    0 <= size,
            ;
        }
    }
    lemma_band_exists(row, height, workers, workers - 1);
}

/// A row that lies at or beyond the start of band `last` lies in one of
/// the bands up to it, or beyond its end.
proof fn lemma_band_exists(row: int, height: int, workers: int, last: int)
    requires
        0 < workers,
        0 <= last < workers,
        0 <= row < band_end(last, height, workers),
        0 <= height,
    ensures
        exists|i: int| 0 <= i <= last && #[trigger] in_band(row, i, height, workers),
    decreases last,
{
    lemma_bands_lie_in_image(last, height, workers);
    if band_start(last, height, workers) <= row {
        assert(in_band(row, last, height, workers));
    } else {
        assert(last > 0) by {
            assert(band_start(0, height, workers) == 0);
        }
        lemma_bands_lie_in_image(last - 1, height, workers);
        lemma_band_exists(row, height, workers, last - 1);
    }
}

/// Renders the rows of a band, from its first row up to its end, and
/// appends them to those it holds. `shade` gives the colour of the pixel
/// in a column and row of the image. A band that ends before it starts
/// has no rows.
pub fn process_block<F: Fn(u32, u32) -> Rgb>(block_info: ImageBlockInfo, shade: &F) -> (done:
    ImageBlockInfo)
    requires
        forall|i: u32, j: u32|
            i < block_info.image_width && block_info.start_row <= j < block_info.end_row
                ==> call_requires(*shade, (i, j)),
    ensures
        done.start_row == block_info.start_row,
        done.end_row == block_info.end_row,
        done.image_height == block_info.image_height,
        done.image_width == block_info.image_width,
        done.spp == block_info.spp,
        done.max_depth == block_info.max_depth,
        done.image_block@.len() == block_info.image_block@.len() + block_info.rows(),
        done.image_block@.subrange(0, block_info.image_block@.len() as int)
            == block_info.image_block@,
        forall|y: int|
            0 <= y < block_info.rows() ==> (
            #[trigger] done.image_block@[block_info.image_block@.len() + y])@.len()
                == block_info.image_width,
        forall|y: int, x: int|
            0 <= y < block_info.rows() && 0 <= x < block_info.image_width ==> call_ensures(
                *shade,
                (x as u32, (block_info.start_row + y) as u32),
                #[trigger] done.image_block@[block_info.image_block@.len() + y]@[x],
            ),
{
    let ghost held = block_info.image_block@;
    let mut block_info = block_info;
    let start_row = block_info.start_row;
    let end_row = block_info.end_row;
    let image_width = block_info.image_width;
    let ghost image_height = block_info.image_height;
    let ghost spp = block_info.spp;
    let ghost max_depth = block_info.max_depth;
    if start_row > end_row {
        assert(block_info.image_block@.subrange(0, held.len() as int) == held);
        return block_info;
    }
    let mut j: u32 = start_row;
    while j < end_row
        invariant
            start_row <= j <= end_row,
            block_info.start_row == start_row,
            block_info.end_row == end_row,
            block_info.image_width == image_width,
            block_info.image_height == image_height,
            block_info.spp == spp,
            block_info.max_depth == max_depth,
            block_info.image_block@.len() == held.len() + (j - start_row),
            block_info.image_block@.subrange(0, held.len() as int) == held,
            forall|i: u32, k: u32|
                i < image_width && start_row <= k < end_row ==> call_requires(*shade, (i, k)),
            forall|y: int|
                0 <= y < j - start_row ==> (#[trigger] block_info.image_block@[held.len() + y])@.len()
                    == image_width,
            forall|y: int, x: int|
                0 <= y < j - start_row && 0 <= x < image_width ==> call_ensures(
                    *shade,
                    (x as u32, (start_row + y) as u32),
                    #[trigger] block_info.image_block@[held.len() + y]@[x],
                ),
        decreases end_row - j,
    {
        let mut row: Vec<Rgb> = Vec::with_capacity(image_width as usize);
        let mut i: u32 = 0;
        while i < image_width
            invariant
                i <= image_width,
                start_row <= j < end_row,
                row@.len() == i,
                forall|i: u32, k: u32|
                    i < image_width && start_row <= k < end_row ==> call_requires(*shade, (i, k)),
                forall|x: int|
                    0 <= x < i ==> call_ensures(*shade, (x as u32, j), #[trigger] row@[x]),
            decreases image_width - i,
        {
            let pixel = shade(i, j);
            row.push(pixel);
            i += 1;
        }
        let ghost before = block_info.image_block@;
        block_info.image_block.push(row);
        proof {
            let now = block_info.image_block@;
            assert(now.subrange(0, held.len() as int) == before.subrange(0, held.len() as int));
            assert forall|y: int| 0 <= y < j + 1 - start_row implies (#[trigger] now[held.len()
                + y])@.len() == image_width by {
                if y < j - start_row {
                    assert(now[held.len() + y] == before[held.len() + y]);
                }
            }
            assert forall|y: int, x: int|
                0 <= y < j + 1 - start_row && 0 <= x < image_width implies call_ensures(
                *shade,
                (x as u32, (start_row + y) as u32),
                #[trigger] now[held.len() + y]@[x],
            ) by {
                if y < j - start_row {
                    assert(now[held.len() + y] == before[held.len() + y]);
                }
            }
        }
        j += 1;
    }
    block_info
}

/// The band, among the first `n`, that wrote a row of the image last.
pub open spec fn covering(blocks: Seq<ImageBlockInfo>, row: int, n: int) -> Option<int>
    decreases n,
{
    if n <= 0 {
        None
    } else if blocks[n - 1].covers(row) {
        Some(n - 1)
    } else {
        covering(blocks, row, n - 1)
    }
}

/// The pixel in column `x` of a row of the image once the first `n` bands
/// are in place: that of the band that covers the row, and black where no
/// band does.
pub open spec fn pixel_at(blocks: Seq<ImageBlockInfo>, row: int, x: int, n: int) -> Rgb {
    match covering(blocks, row, n) {
        Some(k) => blocks[k].image_block@[row - blocks[k].start_row]@[x],
        None => Rgb::black(),
    }
}

/// No two bands hold the same row.
pub open spec fn disjoint(blocks: Seq<ImageBlockInfo>) -> bool {
    forall|i: int, j: int, row: int|
        0 <= i < blocks.len() && 0 <= j < blocks.len() && i != j && #[trigger] blocks[i].covers(row)
            ==> !#[trigger] blocks[j].covers(row)
}

fn copy_row(source: &Vec<Rgb>) -> (r: Vec<Rgb>)
    ensures
        r@ == source@,
{
    let mut r: Vec<Rgb> = Vec::with_capacity(source.len());
    let mut x: usize = 0;
    while x < source.len()
        invariant
            x <= source@.len(),
            r@ == source@.subrange(0, x as int),
        decreases source@.len() - x,
    {
        r.push(source[x]);
        assert(r@ == source@.subrange(0, x + 1));
        x += 1;
    }
    assert(source@.subrange(0, source@.len() as int) == source@);
    r
}

fn black_row(width: u32) -> (r: Vec<Rgb>)
    ensures
        r@.len() == width,
        forall|x: int| 0 <= x < width ==> #[trigger] r@[x] == Rgb::black(),
{
    let mut r: Vec<Rgb> = Vec::with_capacity(width as usize);
    let mut x: u32 = 0;
    while x < width
        invariant
            x <= width,
            r@.len() == x,
            forall|k: int| 0 <= k < x ==> #[trigger] r@[k] == Rgb::black(),
        decreases width - x,
    {
        r.push(Rgb { r: 0, g: 0, b: 0 });
        x += 1;
    }
    r
}

/// Puts the bands together to the image: each row of a band goes to its
/// own row of the image, counted from the band's first row, whatever the
/// order in which the bands come. Rows that no band holds stay black.
pub fn assemble(blocks: &Vec<ImageBlockInfo>, width: u32, height: u32) -> (image: Vec<Vec<Rgb>>)
    requires
        forall|k: int| 0 <= k < blocks@.len() ==> (#[trigger] blocks@[k]).fits(width, height),
    ensures
        image@.len() == height,
        forall|row: int| 0 <= row < height ==> (#[trigger] image@[row])@.len() == width,
        forall|row: int, x: int|
            0 <= row < height && 0 <= x < width ==> #[trigger] image@[row]@[x] == pixel_at(
                blocks@,
                row,
                x,
                blocks@.len() as int,
            ),
{
    let mut image: Vec<Vec<Rgb>> = Vec::with_capacity(height as usize);
    let mut row: u32 = 0;
    while row < height
        invariant
            row <= height,
            image@.len() == row,
            forall|r: int| 0 <= r < row ==> (#[trigger] image@[r])@.len() == width,
            forall|r: int, x: int|
                0 <= r < row && 0 <= x < width ==> #[trigger] image@[r]@[x] == Rgb::black(),
        decreases height - row,
    {
        image.push(black_row(width));
        row += 1;
    }
    let mut k: usize = 0;
    while k < blocks.len()
        invariant
            k <= blocks@.len(),
            image@.len() == height,
            forall|b: int| 0 <= b < blocks@.len() ==> (#[trigger] blocks@[b]).fits(width, height),
            forall|r: int| 0 <= r < height ==> (#[trigger] image@[r])@.len() == width,
            forall|r: int, x: int|
                0 <= r < height && 0 <= x < width ==> #[trigger] image@[r]@[x] == pixel_at(
                    blocks@,
                    r,
                    x,
                    k as int,
                ),
        decreases blocks@.len() - k,
    {
        let block = &blocks[k];
        let ghost before = image@;
        let start: usize = block.start_row as usize;
        let mut y: usize = 0;
        while y < block.image_block.len()
            invariant
                y <= block.image_block@.len(),
                k < blocks@.len(),
                *block == blocks@[k as int],
                block.fits(width, height),
                start == block.start_row,
                image@.len() == height,
                before.len() == height,
                forall|r: int|
                    0 <= r < height ==> #[trigger] image@[r]@ == (if start <= r < start + y {
                        block.image_block@[r - start]@
                    } else {
                        before[r]@
                    }),
            decreases block.image_block@.len() - y,
        {
            let fresh = copy_row(&block.image_block[y]);
            image.set(start + y, fresh);
            y += 1;
        }
        proof {
            assert forall|r: int, x: int| 0 <= r < height && 0 <= x < width implies #[trigger] image@[r]@[x]
                == pixel_at(blocks@, r, x, k + 1) by {
                assert(before[r]@[x] == pixel_at(blocks@, r, x, k as int));
                if block.covers(r) {
                    assert(image@[r]@ == block.image_block@[r - start]@);
                } else {
                    assert(image@[r]@ == before[r]@);
                }
            }
            assert forall|r: int| 0 <= r < height implies (#[trigger] image@[r])@.len() == width by {
                assert(before[r]@.len() == width);
                if block.covers(r) {
                    assert(block.image_block@[r - start]@.len() == width);
                }
            }
        }
        k += 1;
    }
    image
}

/// The band that wrote a row last is one of the bands and holds the row;
/// where none wrote it, no band holds it.
pub proof fn lemma_covering(blocks: Seq<ImageBlockInfo>, row: int, n: int)
    requires
        0 <= n <= blocks.len(),
    ensures
        match covering(blocks, row, n) {
            Some(k) => 0 <= k < n && blocks[k].covers(row),
            None => forall|k: int| 0 <= k < n ==> !(#[trigger] blocks[k]).covers(row),
        },
    decreases n,
{
    if n > 0 && !blocks[n - 1].covers(row) {
        lemma_covering(blocks, row, n - 1);
    }
}

/// The image does not depend on the order in which the bands arrive:
/// where no two bands hold the same row, two sequences of the same bands
/// give every pixel the same colour.
pub proof fn lemma_assembly_ignores_order(
    first: Seq<ImageBlockInfo>,
    second: Seq<ImageBlockInfo>,
    row: int,
    x: int,
)
    requires
        disjoint(first),
        first.to_multiset() == second.to_multiset(),
    ensures
        pixel_at(first, row, x, first.len() as int) == pixel_at(
            second,
            row,
            x,
            second.len() as int,
        ),
{
    first.to_multiset_ensures();
    second.to_multiset_ensures();
    lemma_covering(first, row, first.len() as int);
    lemma_covering(second, row, second.len() as int);
    match covering(second, row, second.len() as int) {
        Some(k2) => {
            assert(second.contains(second[k2]));
            assert(first.to_multiset().count(second[k2]) > 0);
            assert(first.contains(second[k2]));
            let k1 = choose|k: int| 0 <= k < first.len() && first[k] == second[k2];
            assert(first[k1].covers(row));
            let k = covering(first, row, first.len() as int)->0;
            assert(k == k1);
        },
        None => {
            if covering(first, row, first.len() as int) is Some {
                let k = covering(first, row, first.len() as int)->0;
                assert(first.contains(first[k]));
                assert(second.to_multiset().count(first[k]) > 0);
                assert(second.contains(first[k]));
                let k2 = choose|j: int| 0 <= j < second.len() && second[j] == first[k];
                assert(second[k2].covers(row));
            }
        },
    }
}

} // verus!
