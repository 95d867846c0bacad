//! Row-parallel rendering: the rows of a frame are handed to the workers of
//! a pool, each row to one task, and no task touches the row of another.

use vstd::prelude::*;
use rayon::iter::{IndexedParallelIterator, ParallelIterator};
use rayon::slice::ParallelSliceMut;
use crate::error::ConfigError;
use crate::escape::Magnitude;
use crate::frame::{
    blank_bytes, frame_rendered, lemma_rows_render_frame, row_of, row_rendered, Frame,
};
use crate::palette::Palette;
use crate::resolution::Resolution;
use crate::scene::Scene;

verus! {

/// A pool of worker threads, `rayon::ThreadPool`. The library sees nothing
/// inside it.
#[verifier::external_type_specification]
#[verifier::external_body]
pub struct ExThreadPool(rayon::ThreadPool);

/// Hands the rows of a pixel buffer to the workers of a pool.
///
/// `rayon::ThreadPool::install` runs the work inside the pool. There
/// `par_chunks_mut` cuts the buffer into chunks of one row each, `enumerate`
/// numbers them from the top, and `for_each` renders every chunk in place
/// with `Scene::render_row`. Not proved: that each row is handed out once and
/// under its own number, and that nothing else writes to the buffer.
/// `par_chunks_mut` panics on a chunk length of zero, and a buffer that ends
/// in a part of a row would hand out a chunk that is no row; the `requires`
/// leaves both out.
#[verifier::external_body]
fn render_rows_in<Z, P, R, M>(
    pool: &rayon::ThreadPool,
    scene: &Scene<Z, P, R, M>,
    bytes: &mut Vec<u8>,
    width: u32,
    row_bytes: usize,
    palette: &Palette,
) where
    Z: Copy + Send + Sync,
    P: Fn(u32, u32) -> Z + Send + Sync,
    R: Fn(Z, Z) -> Z + Send + Sync,
    M: Fn(Z) -> Magnitude + Send + Sync,

    requires
        scene.callable(),
        width > 0,
        row_bytes == 3 * width,
        old(bytes)@.len() % (row_bytes as nat) == 0,
        old(bytes)@.len() / (row_bytes as nat) <= u32::MAX,
    ensures
        final(bytes)@.len() == old(bytes)@.len(),
        forall|y: u32|
            3 * (width * y) + 3 * width <= old(bytes)@.len() ==> row_rendered(
                scene.outcomes(),
                width,
                y,
                palette@,
                row_of(old(bytes)@, width, y),
                #[trigger] row_of(final(bytes)@, width, y),
            ),
{
    pool.install(
        || {
            bytes.par_chunks_mut(row_bytes).enumerate().for_each(
                |(y, row)| scene.render_row(row, width, y as u32, palette),
            )
        },
    )
}

impl<
    Z: Copy + Send + Sync,
    P: Fn(u32, u32) -> Z + Send + Sync,
    R: Fn(Z, Z) -> Z + Send + Sync,
    M: Fn(Z) -> Magnitude + Send + Sync,
> Scene<Z, P, R, M> {
    /// Renders a whole image with the workers of `pool`, one row to a task,
    /// into a buffer that starts out blank. The frame is the one that
    /// `render` makes. It is refused where the buffer would be longer than a
    /// buffer can be.
    pub fn render_in(&self, pool: &rayon::ThreadPool, resolution: Resolution, palette: &Palette) -> (made:
        Result<Frame, ConfigError>)
        requires
            self.callable(),
        ensures
            resolution.spec_byte_len() > isize::MAX ==> made == Err::<Frame, ConfigError>(
                ConfigError::FrameTooLarge,
            ),
            resolution.spec_byte_len() <= isize::MAX ==> made is Ok
                && made->Ok_0.spec_resolution() == resolution && frame_rendered(
                self.outcomes(),
                resolution.spec_width(),
                resolution.spec_height(),
                palette@,
                blank_bytes(resolution.spec_byte_len()),
                made->Ok_0@,
            ),
    {
        let blank = match Frame::blank(resolution) {
            Ok(blank) => blank,
            Err(error) => { return Err(error); },
        };
        let width: u32 = resolution.width();
        let height: u32 = resolution.height();
        let row_bytes: usize = blank.row_bytes();
        let mut bytes: Vec<u8> = blank.into_bytes();
        let ghost before = bytes@;
        proof {
            assert(before.len() == row_bytes * height) by (nonlinear_arith)
                requires
                    before.len() == 3 * (width * height),
                    row_bytes == 3 * width,
            ;
            assert(before.len() % (row_bytes as nat) == 0 && before.len() / (row_bytes as nat)
                == height) by (nonlinear_arith)
                requires
                    before.len() == row_bytes * height,
                    row_bytes > 0,
            ;
        }
        render_rows_in(pool, self, &mut bytes, width, row_bytes, palette);
        proof {
            assert forall|y: u32| y < height implies row_rendered(
                self.outcomes(),
                width,
                y,
                palette@,
                row_of(before, width, y),
                #[trigger] row_of(bytes@, width, y),
            ) by {
                assert(3 * (width * y) + 3 * width <= 3 * (width * height)) by (nonlinear_arith)
                    requires
                        y < height,
                        width > 0,
                ;
            }
            lemma_rows_render_frame(self.outcomes(), width, height, palette@, before, bytes@);
        }
        Frame::from_bytes(resolution, bytes)
    }
}

} // verus!
