//! The fractal variants: which operand of the iteration rule follows the
//! pixel and which one is fixed for the whole image.

use vstd::prelude::*;
use crate::error::ConfigError;
use crate::text::same_text;

verus! {

/// The fractals that can be rendered, by name.
#[derive(Clone, Copy, Debug, PartialEq, Eq, Structural)]
pub enum FractalKind {
    Mandelbrot,
    Julia,
}

/// A fractal together with what it needs besides the pixel: the Julia set
/// carries its fixed parameter.
#[derive(Debug, PartialEq)]
pub enum Fractal<Z> {
    Mandelbrot,
    Julia { c: Z },
}

/// Where the orbit of one pixel starts, and the parameter that its iteration
/// rule is applied with.
#[derive(Debug, PartialEq)]
pub struct Start<Z> {
    pub seed: Z,
    pub param: Z,
}

/// The start of the orbit of the pixel that lies at `point`.
///
/// The Mandelbrot set starts every orbit at `origin` and varies the
/// parameter with the pixel. A Julia set starts the orbit at the pixel and
/// keeps its own parameter.
pub open spec fn start_of<Z>(fractal: Fractal<Z>, point: Z, origin: Z) -> Start<Z> {
    match fractal {
        Fractal::Mandelbrot => Start { seed: origin, param: point },
        Fractal::Julia { c } => Start { seed: point, param: c },
    }
}

/// The name of a kind.
pub open spec fn name_of(kind: FractalKind) -> Seq<char> {
    match kind {
        FractalKind::Mandelbrot => "mandelbrot"@,
        FractalKind::Julia => "julia"@,
    }
}

/// The kind that a name stands for, if any.
pub open spec fn kind_named(name: Seq<char>) -> Option<FractalKind> {
    if name == "mandelbrot"@ {
        Some(FractalKind::Mandelbrot)
    } else if name == "julia"@ {
        Some(FractalKind::Julia)
    } else {
        None
    }
}

impl FractalKind {
    /// The kind that `name` stands for. A name is matched letter for
    /// letter; any other text is refused.
    pub fn from_name(name: &str) -> (kind: Result<FractalKind, ConfigError>)
        ensures
            kind == match kind_named(name@) {
                Some(known) => Ok::<FractalKind, ConfigError>(known),
                None => Err::<FractalKind, ConfigError>(ConfigError::UnknownFractal),
            },
    {
        if same_text(name, "mandelbrot") {
            Ok(FractalKind::Mandelbrot)
        } else if same_text(name, "julia") {
            Ok(FractalKind::Julia)
        } else {
            Err(ConfigError::UnknownFractal)
        }
    }

    /// The name of the kind.
    pub fn name(self) -> (name: &'static str)
        ensures
            name@ == name_of(self),
    {
        match self {
            FractalKind::Mandelbrot => "mandelbrot",
            FractalKind::Julia => "julia",
        }
    }
}

/// A kind is found again by its name.
pub proof fn lemma_kind_by_name(kind: FractalKind)
    ensures
        kind_named(name_of(kind)) == Some(kind),
{
    reveal_strlit("mandelbrot");
    reveal_strlit("julia");
    assert("mandelbrot"@.len() == 10 && "julia"@.len() == 5);
}

impl<Z: Copy> Fractal<Z> {
    /// The kind of the fractal.
    pub fn kind(&self) -> (kind: FractalKind)
        ensures
            kind == match *self {
                Fractal::Mandelbrot => FractalKind::Mandelbrot,
                Fractal::Julia { .. } => FractalKind::Julia,
            },
    {
        match self {
            Fractal::Mandelbrot => FractalKind::Mandelbrot,
            Fractal::Julia { .. } => FractalKind::Julia,
        }
    }

    /// The start of the orbit of the pixel that lies at `point`. `origin` is
    /// the zero of the plane.
    pub fn start(&self, point: Z, origin: Z) -> (start: Start<Z>)
        ensures
            start == start_of(*self, point, origin),
    {
        match self {
            Fractal::Mandelbrot => Start { seed: origin, param: point },
            Fractal::Julia { c } => Start { seed: point, param: *c },
        }
    }
}

} // verus!
