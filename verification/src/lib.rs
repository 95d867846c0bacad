//! Rendering engine for escape-time fractals.
//!
//! A frame is rendered pixel by pixel: the pixel is mapped to a point of the
//! complex plane, the orbit of that point is followed until it leaves the
//! escape radius or the iteration cap is reached, and a pixel whose orbit
//! escaped is painted with the palette's colour for its escape count.
//!
//! The engine holds no floating-point arithmetic. The caller hands it the
//! three functions that need some: the viewport mapper, the iteration rule
//! and the measure of an orbit point against the escape radius. Everything
//! else is decided here: how a resolution is framed (`resolution`), how long
//! an orbit is followed (`escape`), which operand of the rule follows the
//! pixel (`fractal`), what a pixel's result is (`scene`), where its colour
//! goes (`palette`, `frame`), how the rows are shared among workers
//! (`parallel`), which frames an animation has (`animation`), how a domain
//! and a center are written (`input`), and where the frames are saved
//! (`output`).

pub mod animation;
pub mod error;
pub mod escape;
pub mod fractal;
pub mod frame;
pub mod input;
pub mod output;
pub mod palette;
pub mod parallel;
pub mod resolution;
pub mod scene;
pub mod text;
