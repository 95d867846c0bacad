//! Errors reported before any rendering begins.

use vstd::prelude::*;

verus! {

/// Why a configuration was turned down.
#[derive(Clone, Copy, Debug, PartialEq, Eq, Structural)]
pub enum ConfigError {
    /// The horizontal resolution is zero.
    ZeroWidth,
    /// The vertical resolution is zero.
    ZeroHeight,
    /// The palette holds no colour.
    EmptyPalette,
    /// The pixel buffer of the resolution is larger than a buffer can be.
    FrameTooLarge,
    /// A pixel buffer whose length is not three bytes for each pixel.
    LengthMismatch,
    /// A point that is not written as two fields with a comma between them.
    MalformedPoint,
    /// A fractal name that is not one of the known ones.
    UnknownFractal,
    /// An image format that is not one of the known ones.
    UnknownFormat,
}

/// What an error says to the user: the input at fault and the form that was
/// expected.
pub open spec fn message_of(error: ConfigError) -> Seq<char> {
    match error {
        ConfigError::ZeroWidth => "the x resolution must be a positive integer"@,
        ConfigError::ZeroHeight => "the y resolution must be a positive integer"@,
        ConfigError::EmptyPalette => "the colour map must hold at least one colour"@,
        ConfigError::FrameTooLarge => "the resolution must fit a pixel buffer in memory"@,
        ConfigError::LengthMismatch => "the pixel buffer must hold three bytes for each pixel"@,
        ConfigError::MalformedPoint => "a point must be written as re,im"@,
        ConfigError::UnknownFractal => "the fractal must be one of mandelbrot, julia"@,
        ConfigError::UnknownFormat => "the extension must be one of png, jpeg, bmp, tiff"@,
    }
}

impl ConfigError {
    /// What the error says to the user.
    pub fn message(self) -> (text: &'static str)
        ensures
            text@ == message_of(self),
    {
        match self {
            ConfigError::ZeroWidth => "the x resolution must be a positive integer",
            ConfigError::ZeroHeight => "the y resolution must be a positive integer",
            ConfigError::EmptyPalette => "the colour map must hold at least one colour",
            ConfigError::FrameTooLarge => "the resolution must fit a pixel buffer in memory",
            ConfigError::LengthMismatch => "the pixel buffer must hold three bytes for each pixel",
            ConfigError::MalformedPoint => "a point must be written as re,im",
            ConfigError::UnknownFractal => "the fractal must be one of mandelbrot, julia",
            ConfigError::UnknownFormat => "the extension must be one of png, jpeg, bmp, tiff",
        }
    }
}

} // verus!
