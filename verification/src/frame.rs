//! The frame renderer: escape results become colour bytes in a flat,
//! row-major pixel buffer of three bytes for each pixel.

use vstd::prelude::*;
use vstd::arithmetic::div_mod::{lemma_fundamental_div_mod, lemma_fundamental_div_mod_converse};
use crate::error::ConfigError;
use crate::escape::EscapeResult;
use crate::palette::{shade, unpack, unpacked, Palette, Rgb};
use crate::resolution::Resolution;

verus! {

/// One channel of a colour: 0 is red, 1 is green, anything else is blue.
pub open spec fn channel(rgb: Rgb, k: int) -> u8 {
    if k == 0 {
        rgb.red
    } else if k == 1 {
        rgb.green
    } else {
        rgb.blue
    }
}

/// A buffer of `len` zero bytes.
pub open spec fn blank_bytes(len: nat) -> Seq<u8> {
    Seq::new(len, |i: int| 0u8)
}

/// Position of the pixel in column `x` of row `y` among the pixels of an
/// image `width` pixels wide, counted row by row.
pub open spec fn cell(width: u32, x: u32, y: u32) -> int {
    y * width + x
}

/// Row `y` of a buffer whose rows are `width` pixels long.
pub open spec fn row_of(buffer: Seq<u8>, width: u32, y: u32) -> Seq<u8> {
    buffer.subrange(3 * (width * y), 3 * (width * y) + 3 * width)
}

/// The colour of the pixel at position `cell` of a buffer.
pub open spec fn colour_at(bytes: Seq<u8>, cell: int) -> Rgb {
    Rgb { red: bytes[3 * cell], green: bytes[3 * cell + 1], blue: bytes[3 * cell + 2] }
}

/// The byte at `index` of a buffer once the pixels that `results` speaks of
/// are painted: an escaped pixel shows the palette's colour for its count, any
/// other byte is as it was.
pub open spec fn painted_byte(
    before: Seq<u8>,
    palette: Seq<u32>,
    results: Seq<EscapeResult>,
    index: int,
) -> u8 {
    let pixel = index / 3;
    if pixel < results.len() && results[pixel].escaped {
        channel(unpacked(shade(palette, results[pixel].count)), index % 3)
    } else {
        before[index]
    }
}

/// The buffer `before` with its leading pixels painted by `results`, pixel
/// `p` taking the bytes `3p`, `3p + 1` and `3p + 2`.
pub open spec fn painted(before: Seq<u8>, palette: Seq<u32>, results: Seq<EscapeResult>) -> Seq<
    u8,
> {
    Seq::new(before.len(), |i: int| painted_byte(before, palette, results, i))
}

/// The buffer `before` with one pixel painted by `result`.
pub open spec fn with_pixel(
    before: Seq<u8>,
    pixel: int,
    palette: Seq<u32>,
    result: EscapeResult,
) -> Seq<u8> {
    if result.escaped {
        let rgb = unpacked(shade(palette, result.count));
        before.update(3 * pixel, rgb.red).update(3 * pixel + 1, rgb.green).update(
            3 * pixel + 2,
            rgb.blue,
        )
    } else {
        before
    }
}

/// What a classifier may report: `outcomes(x, y, result)` says that `result`
/// is an escape result of the pixel in column `x` of row `y`.
pub type Outcomes = spec_fn(u32, u32, EscapeResult) -> bool;

/// The outcomes of a classifier given as a function.
pub open spec fn outcomes_of<F: Fn(u32, u32) -> EscapeResult>(classify: F) -> Outcomes {
    |x: u32, y: u32, result: EscapeResult| classify.ensures((x, y), result)
}

/// Each pixel has one outcome.
pub open spec fn single_valued(outcomes: Outcomes) -> bool {
    forall|x: u32, y: u32, a: EscapeResult, b: EscapeResult|
        #[trigger] outcomes(x, y, a) && #[trigger] outcomes(x, y, b) ==> a == b
}

/// `results` holds, column by column, an outcome of each pixel of row `y`.
pub open spec fn row_results(
    outcomes: Outcomes,
    width: u32,
    y: u32,
    results: Seq<EscapeResult>,
) -> bool {
    &&& results.len() == width
    &&& forall|x: u32| x < width ==> outcomes(x, y, #[trigger] results[x as int])
}

/// `results` holds, row by row, an outcome of each pixel of an image of
/// `width` by `height` pixels.
pub open spec fn grid_results(
    outcomes: Outcomes,
    width: u32,
    height: u32,
    results: Seq<EscapeResult>,
) -> bool {
    &&& results.len() == width * height
    &&& forall|x: u32, y: u32|
        x < width && y < height ==> outcomes(x, y, results[#[trigger] cell(width, x, y)])
}

/// `after` is the row `before` with each of its pixels painted by an outcome
/// of that pixel.
pub open spec fn row_rendered(
    outcomes: Outcomes,
    width: u32,
    y: u32,
    palette: Seq<u32>,
    before: Seq<u8>,
    after: Seq<u8>,
) -> bool {
    exists|results: Seq<EscapeResult>|
        #[trigger] row_results(outcomes, width, y, results) && after == painted(
            before,
            palette,
            results,
        )
}

/// `after` is the buffer `before` of a whole image with each of its pixels
/// painted by an outcome of that pixel.
pub open spec fn frame_rendered(
    outcomes: Outcomes,
    width: u32,
    height: u32,
    palette: Seq<u32>,
    before: Seq<u8>,
    after: Seq<u8>,
) -> bool {
    exists|results: Seq<EscapeResult>|
        #[trigger] grid_results(outcomes, width, height, results) && after == painted(
            before,
            palette,
            results,
        )
}

/// Painting one more pixel extends the painted prefix by that pixel.
pub proof fn lemma_paint_next(
    before: Seq<u8>,
    palette: Seq<u32>,
    results: Seq<EscapeResult>,
    result: EscapeResult,
)
    requires
        3 * (results.len() + 1) <= before.len(),
    ensures
        painted(before, palette, results.push(result)) == with_pixel(
            painted(before, palette, results),
            results.len() as int,
            palette,
            result,
        ),
{
    let longer = results.push(result);
    let left = painted(before, palette, longer);
    let right = with_pixel(painted(before, palette, results), results.len() as int, palette, result);
    assert(left.len() == right.len());
    assert forall|i: int| 0 <= i < left.len() implies left[i] == right[i] by {
        if i / 3 < results.len() {
            assert(longer[i / 3] == results[i / 3]);
        }
    }
    assert(left =~= right);
}

/// Bounds and uniqueness of a pixel's position: it lies within the image, and
/// names its row and column.
pub proof fn lemma_cell(width: u32, height: u32, x: u32, y: u32)
    requires
        x < width,
        y < height,
    ensures
        0 <= cell(width, x, y) < width * height,
        cell(width, x, y) / (width as int) == y,
        cell(width, x, y) % (width as int) == x,
{
    assert(y * width + width <= width * height) by (nonlinear_arith)
        requires
            y < height,
            width > 0,
    ;
    lemma_fundamental_div_mod_converse(cell(width, x, y), width as int, y as int, x as int);
}

/// Every position within an image is the position of one of its pixels.
pub proof fn lemma_cell_of(width: u32, height: u32, position: int)
    requires
        0 <= position < width * height,
    ensures
        0 <= position % (width as int) < width,
        0 <= position / (width as int) < height,
        cell(width, (position % (width as int)) as u32, (position / (width as int)) as u32)
            == position,
{
    let w = width as int;
    assert(w > 0) by (nonlinear_arith)
        requires
            0 <= position < w * height,
            0 <= w,
    ;
    lemma_fundamental_div_mod(position, w);
    let q = position / w;
    assert(0 <= q < height) by (nonlinear_arith)
        requires
            0 <= position < w * height,
            position == w * q + position % w,
            0 <= position % w < w,
    ;
    assert(w * q == q * w) by (nonlinear_arith);
}

/// Allocates the pixel buffer of an image with `image::ImageBuffer::new`, for
/// pixels of three channels of one byte each, and takes the bytes out with
/// `into_vec`. Not proved: that the buffer holds three bytes for each pixel,
/// and that all of them are zero. `ImageBuffer::new` panics where the length
/// cannot be counted or allocated, which the `requires` leaves out.
#[verifier::external_body]
fn blank_rgb_buffer(width: u32, height: u32) -> (bytes: Vec<u8>)
    requires
        3 * (width * height) <= isize::MAX,
    ensures
        bytes@ == blank_bytes((3 * (width * height)) as nat),
{
    image::ImageBuffer::<image::Rgb<u8>, Vec<u8>>::new(width, height).into_vec()
}

/// The pixel buffer of one image: three bytes for each pixel, row by row.
#[derive(Debug)]
pub struct Frame {
    resolution: Resolution,
    bytes: Vec<u8>,
}

impl View for Frame {
    type V = Seq<u8>;

    closed spec fn view(&self) -> Seq<u8> {
        self.bytes@
    }
}

impl Frame {
    #[verifier::type_invariant]
    spec fn sized(self) -> bool {
        self.bytes@.len() == self.resolution.spec_byte_len()
    }

    /// The resolution of the image.
    pub closed spec fn spec_resolution(&self) -> Resolution {
        self.resolution
    }

    /// A frame of the given resolution in which every byte is zero. It is
    /// refused where the buffer would be longer than a buffer can be.
    pub fn blank(resolution: Resolution) -> (made: Result<Frame, ConfigError>)
        ensures
            resolution.spec_byte_len() > isize::MAX ==> made == Err::<Frame, ConfigError>(
                ConfigError::FrameTooLarge,
            ),
            resolution.spec_byte_len() <= isize::MAX ==> made is Ok
                && made->Ok_0.spec_resolution() == resolution && made->Ok_0@ == blank_bytes(
                resolution.spec_byte_len(),
            ),
    {
        match resolution.byte_len() {
            Some(len) => {
                if len <= isize::MAX as usize {
                    let bytes = blank_rgb_buffer(resolution.width(), resolution.height());
                    Ok(Frame { resolution, bytes })
                } else {
                    Err(ConfigError::FrameTooLarge)
                }
            },
            None => Err(ConfigError::FrameTooLarge),
        }
    }

    /// Takes a finished pixel buffer as the frame of the given resolution. It
    /// is refused unless it holds exactly three bytes for each pixel.
    pub fn from_bytes(resolution: Resolution, bytes: Vec<u8>) -> (made: Result<
        Frame,
        ConfigError,
    >)
        ensures
            bytes@.len() != resolution.spec_byte_len() ==> made == Err::<Frame, ConfigError>(
                ConfigError::LengthMismatch,
            ),
            bytes@.len() == resolution.spec_byte_len() ==> made is Ok
                && made->Ok_0.spec_resolution() == resolution && made->Ok_0@ == bytes@,
    {
        let given: usize = bytes.len();
        match resolution.byte_len() {
            Some(len) => {
                if given == len {
                    Ok(Frame { resolution, bytes })
                } else {
                    Err(ConfigError::LengthMismatch)
                }
            },
            None => Err(ConfigError::LengthMismatch),
        }
    }

    /// The resolution of the image.
    #[verifier::when_used_as_spec(spec_resolution)]
    pub fn resolution(&self) -> (resolution: Resolution)
        ensures
            resolution == self.spec_resolution(),
            self@.len() == resolution.spec_byte_len(),
    {
        proof {
            use_type_invariant(self);
        }
        self.resolution
    }

    /// Length in bytes of one row of the buffer.
    pub fn row_bytes(&self) -> (len: usize)
        ensures
            len == self.spec_resolution().spec_row_bytes(),
            len > 0,
    {
        let width: u32 = self.resolution.width();
        let height: u32 = self.resolution.height();
        proof {
            use_type_invariant(self);
            assert(self.bytes@.len() == self.bytes.len());
            assert(3 * width <= 3 * (width * height)) by (nonlinear_arith)
                requires
                    height >= 1,
            ;
        }
        3 * (width as usize)
    }

    /// The colour of the pixel in column `x` of row `y`, where the image has
    /// such a pixel.
    pub fn pixel(&self, x: u32, y: u32) -> (colour: Option<Rgb>)
        ensures
            x < self.spec_resolution().spec_width() && y < self.spec_resolution().spec_height()
                ==> colour == Some(
                colour_at(self@, cell(self.spec_resolution().spec_width(), x, y)),
            ),
            !(x < self.spec_resolution().spec_width() && y < self.spec_resolution().spec_height())
                ==> colour is None,
    {
        let width: u32 = self.resolution.width();
        let height: u32 = self.resolution.height();
        if x < width && y < height {
            proof {
                use_type_invariant(self);
                assert(self.bytes@.len() == self.bytes.len());
                lemma_cell(width, height, x, y);
            }
            let at: usize = 3 * (y as usize * width as usize + x as usize);
            Some(Rgb { red: self.bytes[at], green: self.bytes[at + 1], blue: self.bytes[at + 2] })
        } else {
            None
        }
    }

    /// Hands the pixel buffer over.
    pub fn into_bytes(self) -> (bytes: Vec<u8>)
        ensures
            bytes@ == self@,
            bytes@.len() == self.spec_resolution().spec_byte_len(),
    {
        proof {
            use_type_invariant(&self);
        }
        self.bytes
    }
}

/// Writes the colour of one pixel into a buffer, or leaves the buffer as it
/// is where the pixel did not escape.
pub fn paint_pixel(bytes: &mut [u8], pixel: usize, palette: &Palette, result: EscapeResult)
    requires
        3 * pixel + 3 <= old(bytes)@.len(),
    ensures
        final(bytes)@ == with_pixel(old(bytes)@, pixel as int, palette@, result),
{
    if result.escaped {
        let rgb = unpack(palette.color_of(result.count));
        assert(bytes@.len() == bytes.len());
        let at: usize = pixel * 3;
        bytes[at] = rgb.red;
        bytes[at + 1] = rgb.green;
        bytes[at + 2] = rgb.blue;
    }
}

/// Renders one row of an image in place: each pixel of row `y` is classified
/// and painted, from left to right.
pub fn render_row<F: Fn(u32, u32) -> EscapeResult>(
    row: &mut [u8],
    width: u32,
    y: u32,
    palette: &Palette,
    classify: F,
)
    requires
        old(row)@.len() == 3 * width,
        forall|x: u32| x < width ==> classify.requires((x, y)),
    ensures
        row_rendered(outcomes_of(classify), width, y, palette@, old(row)@, final(row)@),
{
    let ghost before = row@;
    let ghost mut results: Seq<EscapeResult> = Seq::empty();
    let mut x: u32 = 0;
    assert(row@ =~= painted(before, palette@, results));
    while x < width
        invariant
            x <= width,
            before.len() == 3 * width,
            results.len() == x,
            row@ == painted(before, palette@, results),
            forall|x: u32| x < width ==> classify.requires((x, y)),
            forall|i: u32| i < x ==> classify.ensures((i, y), #[trigger] results[i as int]),
        decreases width - x,
    {
        let result = classify(x, y);
        proof {
            lemma_paint_next(before, palette@, results, result);
        }
        paint_pixel(row, x as usize, palette, result);
        proof {
            results = results.push(result);
        }
        x = x + 1;
    }
    assert(row_results(outcomes_of(classify), width, y, results));
}

/// Renders a whole image: every pixel is classified and painted, row by row
/// and within a row from left to right, into a buffer that starts out blank.
/// It is refused where the buffer would be longer than a buffer can be.
pub fn render<F: Fn(u32, u32) -> EscapeResult>(
    resolution: Resolution,
    palette: &Palette,
    classify: F,
) -> (made: Result<Frame, ConfigError>)
    requires
        forall|x: u32, y: u32|
            x < resolution.spec_width() && y < resolution.spec_height() ==> classify.requires(
                (x, y),
            ),
    ensures
        resolution.spec_byte_len() > isize::MAX ==> made == Err::<Frame, ConfigError>(
            ConfigError::FrameTooLarge,
        ),
        resolution.spec_byte_len() <= isize::MAX ==> made is Ok && made->Ok_0.spec_resolution()
            == resolution && frame_rendered(
            outcomes_of(classify),
            resolution.spec_width(),
            resolution.spec_height(),
            palette@,
            blank_bytes(resolution.spec_byte_len()),
            made->Ok_0@,
        ),
{
    let width: u32 = resolution.width();
    let height: u32 = resolution.height();
    let len: usize = match resolution.byte_len() {
        Some(len) => len,
        None => { return Err(ConfigError::FrameTooLarge); },
    };
    if len > isize::MAX as usize {
        return Err(ConfigError::FrameTooLarge);
    }
    let mut bytes: Vec<u8> = blank_rgb_buffer(width, height);
    let ghost before = bytes@;
    let ghost mut results: Seq<EscapeResult> = Seq::empty();
    assert(bytes@ =~= painted(before, palette@, results));
    let mut y: u32 = 0;
    while y < height
        invariant
            y <= height,
            width == resolution.spec_width(),
            height == resolution.spec_height(),
            width > 0,
            before.len() == 3 * (width * height),
            3 * (width * height) <= usize::MAX,
            results.len() == y * width,
            bytes@ == painted(before, palette@, results),
            forall|x: u32, y: u32| x < width && y < height ==> classify.requires((x, y)),
            forall|i: u32, j: u32|
                i < width && j < height && #[trigger] cell(width, i, j) < results.len()
                    ==> classify.ensures((i, j), results[cell(width, i, j)]),
        decreases height - y,
    {
        let mut x: u32 = 0;
        while x < width
            invariant
                x <= width,
                y < height,
                width == resolution.spec_width(),
                height == resolution.spec_height(),
                before.len() == 3 * (width * height),
                3 * (width * height) <= usize::MAX,
                results.len() == y * width + x,
                bytes@ == painted(before, palette@, results),
                forall|x: u32, y: u32| x < width && y < height ==> classify.requires((x, y)),
                forall|i: u32, j: u32|
                    i < width && j < height && #[trigger] cell(width, i, j) < results.len()
                        ==> classify.ensures((i, j), results[cell(width, i, j)]),
            decreases width - x,
        {
            let result = classify(x, y);
            proof {
                lemma_cell(width, height, x, y);
                lemma_paint_next(before, palette@, results, result);
            }
            let pixel: usize = y as usize * width as usize + x as usize;
            paint_pixel(bytes.as_mut_slice(), pixel, palette, result);
            proof {
                let longer = results.push(result);
                assert forall|i: u32, j: u32|
                    i < width && j < height && #[trigger] cell(width, i, j) < longer.len()
                    implies classify.ensures((i, j), longer[cell(width, i, j)]) by {
                    lemma_cell(width, height, i, j);
                    if cell(width, i, j) < results.len() {
                        assert(longer[cell(width, i, j)] == results[cell(width, i, j)]);
                    } else {
                        assert(i == x && j == y);
                    }
                }
                results = longer;
            }
            x = x + 1;
        }
        assert((y + 1) * width == y * width + width) by (nonlinear_arith);
        y = y + 1;
    }
    proof {
        assert(height * width == width * height) by (nonlinear_arith);
        assert forall|i: u32, j: u32| i < width && j < height implies classify.ensures(
            (i, j),
            results[#[trigger] cell(width, i, j)],
        ) by {
            lemma_cell(width, height, i, j);
        }
        assert(grid_results(outcomes_of(classify), width, height, results));
    }
    Ok(Frame { resolution, bytes })
}

/// The colour of a painted pixel: the palette's colour for its count where
/// it escaped, the colour that was there before where it did not.
pub proof fn lemma_painted_pixel(
    before: Seq<u8>,
    palette: Seq<u32>,
    results: Seq<EscapeResult>,
    pixel: int,
)
    requires
        0 <= pixel < results.len(),
        3 * results.len() <= before.len(),
    ensures
        results[pixel].escaped ==> colour_at(painted(before, palette, results), pixel) == unpacked(
            shade(palette, results[pixel].count),
        ),
        !results[pixel].escaped ==> colour_at(painted(before, palette, results), pixel)
            == colour_at(before, pixel),
{
}

/// With a palette of one colour every escaped pixel is painted in that
/// colour, whatever its escape count.
pub proof fn lemma_single_colour_frame(
    before: Seq<u8>,
    palette: Seq<u32>,
    results: Seq<EscapeResult>,
    pixel: int,
)
    requires
        palette.len() == 1,
        0 <= pixel < results.len(),
        3 * results.len() <= before.len(),
        results[pixel].escaped,
    ensures
        colour_at(painted(before, palette, results), pixel) == unpacked(palette[0]),
{
}

/// A rendering under some outcomes is a rendering under any outcomes that
/// allow as much.
pub proof fn lemma_rendered_under_wider_outcomes(
    narrow: Outcomes,
    wide: Outcomes,
    width: u32,
    height: u32,
    palette: Seq<u32>,
    before: Seq<u8>,
    after: Seq<u8>,
)
    requires
        forall|x: u32, y: u32, result: EscapeResult|
            #[trigger] narrow(x, y, result) ==> wide(x, y, result),
    ensures
        forall|y: u32|
            row_rendered(narrow, width, y, palette, before, after) ==> #[trigger] row_rendered(
                wide,
                width,
                y,
                palette,
                before,
                after,
            ),
        frame_rendered(narrow, width, height, palette, before, after) ==> frame_rendered(
            wide,
            width,
            height,
            palette,
            before,
            after,
        ),
{
    assert forall|y: u32|
        row_rendered(narrow, width, y, palette, before, after) implies #[trigger] row_rendered(
        wide,
        width,
        y,
        palette,
        before,
        after,
    ) by {
        let results = choose|results: Seq<EscapeResult>|
            #[trigger] row_results(narrow, width, y, results) && after == painted(
                before,
                palette,
                results,
            );
        assert(row_results(wide, width, y, results));
    }
    if frame_rendered(narrow, width, height, palette, before, after) {
        let results = choose|results: Seq<EscapeResult>|
            #[trigger] grid_results(narrow, width, height, results) && after == painted(
                before,
                palette,
                results,
            );
        assert(grid_results(wide, width, height, results));
    }
}

/// Rendering is idempotent: where each pixel has one outcome, two renderings
/// of one buffer with one palette are the same, byte for byte.
pub proof fn lemma_render_idempotent(
    outcomes: Outcomes,
    width: u32,
    height: u32,
    palette: Seq<u32>,
    before: Seq<u8>,
    first: Seq<u8>,
    second: Seq<u8>,
)
    requires
        single_valued(outcomes),
        frame_rendered(outcomes, width, height, palette, before, first),
        frame_rendered(outcomes, width, height, palette, before, second),
    ensures
        first == second,
{
    let a = choose|results: Seq<EscapeResult>|
        #[trigger] grid_results(outcomes, width, height, results) && first == painted(
            before,
            palette,
            results,
        );
    let b = choose|results: Seq<EscapeResult>|
        #[trigger] grid_results(outcomes, width, height, results) && second == painted(
            before,
            palette,
            results,
        );
    assert forall|p: int| 0 <= p < a.len() implies a[p] == b[p] by {
        lemma_cell_of(width, height, p);
        let x = (p % (width as int)) as u32;
        let y = (p / (width as int)) as u32;
        assert(outcomes(x, y, a[cell(width, x, y)]));
        assert(outcomes(x, y, b[cell(width, x, y)]));
    }
    assert(a =~= b);
}

/// Rows can be rendered apart: a buffer each of whose rows is a rendering of
/// the same row of `before` is a rendering of `before` as a whole. No row
/// reads or writes a byte of another.
pub proof fn lemma_rows_render_frame(
    outcomes: Outcomes,
    width: u32,
    height: u32,
    palette: Seq<u32>,
    before: Seq<u8>,
    after: Seq<u8>,
)
    requires
        before.len() == 3 * (width * height),
        after.len() == before.len(),
        forall|y: u32|
            y < height ==> row_rendered(
                outcomes,
                width,
                y,
                palette,
                row_of(before, width, y),
                #[trigger] row_of(after, width, y),
            ),
    ensures
        frame_rendered(outcomes, width, height, palette, before, after),
{
    let w = width as int;
    let in_row = |y: u32|
        choose|results: Seq<EscapeResult>|
            #[trigger] row_results(outcomes, width, y, results) && row_of(after, width, y)
                == painted(row_of(before, width, y), palette, results);
    let results = Seq::new((width * height) as nat, |p: int| in_row((p / w) as u32)[p % w]);
    assert forall|x: u32, y: u32| x < width && y < height implies outcomes(
        x,
        y,
        results[#[trigger] cell(width, x, y)],
    ) by {
        lemma_cell(width, height, x, y);
        assert(row_rendered(
            outcomes,
            width,
            y,
            palette,
            row_of(before, width, y),
            row_of(after, width, y),
        ));
        assert(row_results(outcomes, width, y, in_row(y)));
        assert(outcomes(x, y, in_row(y)[x as int]));
    }
    assert(grid_results(outcomes, width, height, results));
    let whole = painted(before, palette, results);
    assert forall|i: int| 0 <= i < after.len() implies after[i] == whole[i] by {
        let pixel = i / 3;
        assert(0 <= pixel < width * height);
        lemma_cell_of(width, height, pixel);
        let x = (pixel % w) as u32;
        let y = (pixel / w) as u32;
        let j = i - 3 * (width * y);
        assert(width * y == y * width) by (nonlinear_arith);
        assert(pixel == y * width + x);
        assert(0 <= j < 3 * width);
        assert(j / 3 == x as int);
        assert(j % 3 == i % 3);
        assert(width * y + width <= width * height) by (nonlinear_arith)
            requires
                y < height,
        ;
        assert(row_rendered(
            outcomes,
            width,
            y,
            palette,
            row_of(before, width, y),
            row_of(after, width, y),
        ));
        let row = in_row(y);
        assert(row_results(outcomes, width, y, row));
        assert(row_of(after, width, y)[j] == after[i]);
        assert(row_of(before, width, y)[j] == before[i]);
        assert(row_of(after, width, y)[j] == painted_byte(
            row_of(before, width, y),
            palette,
            row,
            j,
        ));
        assert(results[pixel] == row[x as int]);
    }
    assert(after =~= whole);
}

} // verus!
