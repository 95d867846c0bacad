//! A scene: everything that decides the escape result of a pixel.
//!
//! For each pixel the scene finds the point of the plane that the pixel
//! shows, lets the fractal place the orbit, and runs the evaluator on it. How
//! a pixel becomes a point, how the orbit moves and how it is measured is the
//! caller's arithmetic.

use vstd::prelude::*;
use crate::error::ConfigError;
use crate::escape::{
    evaluate, evaluates_to, iteration_cap, lemma_evaluation_deterministic, measure_is_function,
    rule_is_function, EscapeResult, Magnitude, MIN_ITERATIONS,
};
use crate::fractal::{start_of, Fractal};
use crate::frame::{
    blank_bytes, frame_rendered, lemma_render_idempotent, lemma_rendered_under_wider_outcomes,
    outcomes_of, render, render_row, row_rendered, single_valued, Frame, Outcomes,
};
use crate::palette::Palette;
use crate::resolution::Resolution;

verus! {

/// A fractal seen through a viewport, with the arithmetic of its plane.
pub struct Scene<Z, P, R, M> {
    fractal: Fractal<Z>,
    origin: Z,
    point_of: P,
    rule: R,
    measure: M,
    max_iter: u64,
}

impl<Z, P, R, M> Scene<Z, P, R, M> {
    #[verifier::type_invariant]
    spec fn capped(self) -> bool {
        self.max_iter >= MIN_ITERATIONS
    }

    /// The fractal that the scene shows.
    pub closed spec fn fractal(self) -> Fractal<Z> {
        self.fractal
    }

    /// The zero of the plane.
    pub closed spec fn origin(self) -> Z {
        self.origin
    }

    /// The viewport mapper: the point that a pixel shows.
    pub closed spec fn point_of(self) -> P {
        self.point_of
    }

    /// The iteration rule.
    pub closed spec fn rule(self) -> R {
        self.rule
    }

    /// The measure of an orbit point against the escape radius.
    pub closed spec fn measure(self) -> M {
        self.measure
    }

    /// The iteration cap.
    pub closed spec fn spec_max_iter(self) -> u64 {
        self.max_iter
    }
}

impl<Z: Copy, P: Fn(u32, u32) -> Z, R: Fn(Z, Z) -> Z, M: Fn(Z) -> Magnitude> Scene<Z, P, R, M> {
    /// The three functions of the scene can be called on every input.
    pub open spec fn callable(self) -> bool {
        &&& forall|x: u32, y: u32| self.point_of().requires((x, y))
        &&& forall|z: Z, c: Z| self.rule().requires((z, c))
        &&& forall|z: Z| self.measure().requires((z,))
    }

    /// The three functions of the scene yield one result for each input.
    pub open spec fn pure(self) -> bool {
        &&& forall|x: u32, y: u32, a: Z, b: Z|
            #[trigger] self.point_of().ensures((x, y), a) && #[trigger] self.point_of().ensures(
                (x, y),
                b,
            ) ==> a == b
        &&& forall|c: Z| #[trigger] rule_is_function(self.rule(), c)
        &&& measure_is_function(self.measure())
    }

    /// `result` is an escape result of the pixel in column `x` of row `y`:
    /// an outcome of the evaluator on the orbit that the fractal starts at a
    /// point of that pixel.
    pub open spec fn classifies(self, x: u32, y: u32, result: EscapeResult) -> bool {
        exists|point: Z|
            {
                &&& #[trigger] self.point_of().ensures((x, y), point)
                &&& evaluates_to(
                    start_of(self.fractal(), point, self.origin()).seed,
                    start_of(self.fractal(), point, self.origin()).param,
                    self.rule(),
                    self.measure(),
                    self.spec_max_iter(),
                    result,
                )
            }
    }

    /// What the scene may report for each pixel.
    pub open spec fn outcomes(self) -> Outcomes {
        |x: u32, y: u32, result: EscapeResult| self.classifies(x, y, result)
    }

    /// A scene of `fractal`. The iteration cap is `budget`, raised to the
    /// floor of `MIN_ITERATIONS` where it lies below.
    pub fn new(fractal: Fractal<Z>, origin: Z, point_of: P, rule: R, measure: M, budget: u64) -> (scene:
        Self)
        ensures
            scene.fractal() == fractal,
            scene.origin() == origin,
            scene.point_of() == point_of,
            scene.rule() == rule,
            scene.measure() == measure,
            scene.spec_max_iter() == if budget < MIN_ITERATIONS {
                MIN_ITERATIONS
            } else {
                budget
            },
    {
        Scene { fractal, origin, point_of, rule, measure, max_iter: iteration_cap(budget) }
    }

    /// The iteration cap.
    pub fn max_iter(&self) -> (cap: u64)
        ensures
            cap == self.spec_max_iter(),
            cap >= MIN_ITERATIONS,
    {
        proof {
            use_type_invariant(self);
        }
        self.max_iter
    }

    /// The escape result of one pixel: pixel to point, point to orbit, orbit
    /// to count.
    pub fn classify(&self, x: u32, y: u32) -> (result: EscapeResult)
        requires
            self.callable(),
        ensures
            self.classifies(x, y, result),
            result.count <= self.spec_max_iter(),
    {
        assert(self.point_of() == self.point_of && self.rule() == self.rule && self.measure()
            == self.measure);
        let point = (self.point_of)(x, y);
        let start = self.fractal.start(point, self.origin);
        let result = evaluate(start.seed, start.param, &self.rule, &self.measure, self.max_iter);
        assert(self.point_of().ensures((x, y), point) && start == start_of(
            self.fractal(),
            point,
            self.origin(),
        ) && self.spec_max_iter() == self.max_iter);
        result
    }

    /// Renders one row of an image in place: each pixel of row `y` is
    /// classified and painted, from left to right.
    pub fn render_row(&self, row: &mut [u8], width: u32, y: u32, palette: &Palette)
        requires
            self.callable(),
            old(row)@.len() == 3 * width,
        ensures
            row_rendered(self.outcomes(), width, y, palette@, old(row)@, final(row)@),
    {
        let ghost before = row@;
        let classify = |x: u32, y: u32| -> (result: EscapeResult)
            ensures
                self.classifies(x, y, result),
            { self.classify(x, y) };
        render_row(row, width, y, palette, classify);
        proof {
            lemma_rendered_under_wider_outcomes(
                outcomes_of(classify),
                self.outcomes(),
                width,
                0,
                palette@,
                before,
                row@,
            );
        }
    }

    /// Renders a whole image: every pixel is classified and painted, row by
    /// row, into a buffer that starts out blank. It is refused where the
    /// buffer would be longer than a buffer can be.
    pub fn render(&self, resolution: Resolution, palette: &Palette) -> (made: Result<
        Frame,
        ConfigError,
    >)
        requires
            self.callable(),
        ensures
            resolution.spec_byte_len() > isize::MAX ==> made == Err::<Frame, ConfigError>(
                ConfigError::FrameTooLarge,
            ),
            resolution.spec_byte_len() <= isize::MAX ==> made is Ok
                && made->Ok_0.spec_resolution() == resolution && frame_rendered(
                self.outcomes(),
                resolution.spec_width(),
                resolution.spec_height(),
                palette@,
                blank_bytes(resolution.spec_byte_len()),
                made->Ok_0@,
            ),
    {
        let classify = |x: u32, y: u32| -> (result: EscapeResult)
            ensures
                self.classifies(x, y, result),
            { self.classify(x, y) };
        let made = render(resolution, palette, classify);
        proof {
            if resolution.spec_byte_len() <= isize::MAX {
                lemma_rendered_under_wider_outcomes(
                    outcomes_of(classify),
                    self.outcomes(),
                    resolution.spec_width(),
                    resolution.spec_height(),
                    palette@,
                    blank_bytes(resolution.spec_byte_len()),
                    made->Ok_0@,
                );
            }
        }
        made
    }

    /// Classification is deterministic: a scene whose three functions
    /// yield one result for each input has one escape result for each pixel.
    pub proof fn lemma_one_outcome(self)
        requires
            self.pure(),
        ensures
            single_valued(self.outcomes()),
    {
        assert forall|x: u32, y: u32, a: EscapeResult, b: EscapeResult|
            #[trigger] self.classifies(x, y, a) && #[trigger] self.classifies(
                x,
                y,
                b,
            ) implies a == b by {
            let first = choose|point: Z|
                {
                    &&& #[trigger] self.point_of().ensures((x, y), point)
                    &&& evaluates_to(
                        start_of(self.fractal(), point, self.origin()).seed,
                        start_of(self.fractal(), point, self.origin()).param,
                        self.rule(),
                        self.measure(),
                        self.spec_max_iter(),
                        a,
                    )
                };
            let second = choose|point: Z|
                {
                    &&& #[trigger] self.point_of().ensures((x, y), point)
                    &&& evaluates_to(
                        start_of(self.fractal(), point, self.origin()).seed,
                        start_of(self.fractal(), point, self.origin()).param,
                        self.rule(),
                        self.measure(),
                        self.spec_max_iter(),
                        b,
                    )
                };
            assert(first == second);
            let start = start_of(self.fractal(), first, self.origin());
            assert(rule_is_function(self.rule(), start.param));
            lemma_evaluation_deterministic(
                start.seed,
                start.param,
                self.rule(),
                self.measure(),
                self.spec_max_iter(),
                a,
                b,
            );
        }
        assert forall|x: u32, y: u32, a: EscapeResult, b: EscapeResult|
            #[trigger] (self.outcomes())(x, y, a) && #[trigger] (self.outcomes())(
                x,
                y,
                b,
            ) implies a == b by {
            assert(self.classifies(x, y, a) && self.classifies(x, y, b));
        }
    }

    /// Rendering is idempotent: two renderings of one scene at one
    /// resolution with one palette are the same, byte for byte.
    pub proof fn lemma_scene_idempotent(
        self,
        width: u32,
        height: u32,
        palette: Seq<u32>,
        before: Seq<u8>,
        first: Seq<u8>,
        second: Seq<u8>,
    )
        requires
            self.pure(),
            frame_rendered(self.outcomes(), width, height, palette, before, first),
            frame_rendered(self.outcomes(), width, height, palette, before, second),
        ensures
            first == second,
    {
        self.lemma_one_outcome();
        lemma_render_idempotent(self.outcomes(), width, height, palette, before, first, second);
    }
}

} // verus!
