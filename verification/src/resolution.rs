//! Image resolution and the aspect correction that follows from it.

use vstd::prelude::*;
use crate::error::ConfigError;

verus! {

/// Bytes that one pixel takes in a pixel buffer: red, green, blue.
pub const CHANNELS: usize = 3;

/// Width and height of an image in pixels, both positive.
#[derive(Clone, Copy, Debug, PartialEq, Eq, Structural)]
pub struct Resolution {
    width: u32,
    height: u32,
}

/// Half of the extent of one axis of the image in the complex plane, as a
/// multiple of the viewport's domain.
#[derive(Clone, Copy, Debug, PartialEq, Eq, Structural)]
pub enum HalfSpan {
    /// `domain / 2`.
    Plain,
    /// `long * domain / (short * 2)`: the axis is the longer one.
    Stretched { long: u32, short: u32 },
}

/// How an image of some resolution is laid over the complex plane.
///
/// One pixel step is `domain / unit` wide. The pixel at the top left lies at
/// `(center.re - real, -center.im - imaginary)`, each half span taken as
/// the multiple of the domain that it names.
#[derive(Clone, Copy, Debug, PartialEq, Eq, Structural)]
pub struct Framing {
    /// The shorter side of the image, in pixels.
    pub unit: u32,
    /// Half span of the real axis.
    pub real: HalfSpan,
    /// Half span of the imaginary axis.
    pub imaginary: HalfSpan,
}

/// The framing of an image `width` pixels wide and `height` pixels high.
pub open spec fn framing_of(width: u32, height: u32) -> Framing {
    if width > height {
        Framing {
            unit: height,
            real: HalfSpan::Stretched { long: width, short: height },
            imaginary: HalfSpan::Plain,
        }
    } else if width < height {
        Framing {
            unit: width,
            real: HalfSpan::Plain,
            imaginary: HalfSpan::Stretched { long: height, short: width },
        }
    } else {
        Framing { unit: width, real: HalfSpan::Plain, imaginary: HalfSpan::Plain }
    }
}

impl Framing {
    /// The framing with the two axes exchanged.
    pub open spec fn swapped(self) -> Framing {
        Framing { unit: self.unit, real: self.imaginary, imaginary: self.real }
    }
}

impl Resolution {
    #[verifier::type_invariant]
    spec fn positive(self) -> bool {
        self.width > 0 && self.height > 0
    }

    /// The width in pixels.
    pub closed spec fn spec_width(self) -> u32 {
        self.width
    }

    /// The height in pixels.
    pub closed spec fn spec_height(self) -> u32 {
        self.height
    }

    /// Number of pixels of an image.
    pub open spec fn spec_pixel_count(self) -> nat {
        (self.spec_width() * self.spec_height()) as nat
    }

    /// Length in bytes of the pixel buffer of an image.
    pub open spec fn spec_byte_len(self) -> nat {
        CHANNELS as nat * self.spec_pixel_count()
    }

    /// Length in bytes of one row of the pixel buffer.
    pub open spec fn spec_row_bytes(self) -> nat {
        CHANNELS as nat * self.spec_width() as nat
    }

    /// A resolution of `width` by `height` pixels; neither may be zero.
    pub fn new(width: u32, height: u32) -> (made: Result<Resolution, ConfigError>)
        ensures
            width == 0 ==> made == Err::<Resolution, ConfigError>(ConfigError::ZeroWidth),
            width != 0 && height == 0 ==> made == Err::<Resolution, ConfigError>(
                ConfigError::ZeroHeight,
            ),
            width != 0 && height != 0 ==> made is Ok && made->Ok_0.spec_width() == width
                && made->Ok_0.spec_height() == height,
    {
        if width == 0 {
            Err(ConfigError::ZeroWidth)
        } else if height == 0 {
            Err(ConfigError::ZeroHeight)
        } else {
            Ok(Resolution { width, height })
        }
    }

    /// The width in pixels.
    #[verifier::when_used_as_spec(spec_width)]
    pub fn width(self) -> (w: u32)
        ensures
            w == self.spec_width(),
            w > 0,
    {
        proof {
            use_type_invariant(self);
        }
        self.width
    }

    /// The height in pixels.
    #[verifier::when_used_as_spec(spec_height)]
    pub fn height(self) -> (h: u32)
        ensures
            h == self.spec_height(),
            h > 0,
    {
        proof {
            use_type_invariant(self);
        }
        self.height
    }

    /// The same image turned on its side.
    pub fn transposed(self) -> (turned: Resolution)
        ensures
            turned.spec_width() == self.spec_height(),
            turned.spec_height() == self.spec_width(),
    {
        proof {
            use_type_invariant(self);
        }
        Resolution { width: self.height, height: self.width }
    }

    /// The shorter of the two sides.
    pub fn shorter_side(self) -> (side: u32)
        ensures
            side == if self.spec_width() <= self.spec_height() {
                self.spec_width()
            } else {
                self.spec_height()
            },
            side > 0,
    {
        proof {
            use_type_invariant(self);
        }
        if self.width <= self.height {
            self.width
        } else {
            self.height
        }
    }

    /// The longer of the two sides.
    pub fn longer_side(self) -> (side: u32)
        ensures
            side == if self.spec_width() >= self.spec_height() {
                self.spec_width()
            } else {
                self.spec_height()
            },
            side > 0,
    {
        proof {
            use_type_invariant(self);
        }
        if self.width >= self.height {
            self.width
        } else {
            self.height
        }
    }

    /// How the image is laid over the complex plane.
    pub fn framing(self) -> (framing: Framing)
        ensures
            framing == framing_of(self.spec_width(), self.spec_height()),
            framing.unit > 0,
    {
        proof {
            use_type_invariant(self);
        }
        if self.width > self.height {
            Framing {
                unit: self.height,
                real: HalfSpan::Stretched { long: self.width, short: self.height },
                imaginary: HalfSpan::Plain,
            }
        } else if self.width < self.height {
            Framing {
                unit: self.width,
                real: HalfSpan::Plain,
                imaginary: HalfSpan::Stretched { long: self.height, short: self.width },
            }
        } else {
            Framing { unit: self.width, real: HalfSpan::Plain, imaginary: HalfSpan::Plain }
        }
    }

    /// Number of pixels of an image.
    pub fn pixel_count(self) -> (count: u64)
        ensures
            count == self.spec_pixel_count(),
            count > 0,
    {
        proof {
            use_type_invariant(self);
            assert(0 < self.width * self.height <= 0xffff_ffff * 0xffff_ffff) by (nonlinear_arith)
                requires
                    0 < self.width <= 0xffff_ffff,
                    0 < self.height <= 0xffff_ffff,
            ;
        }
        self.width as u64 * self.height as u64
    }

    /// Length in bytes of the pixel buffer of an image, where the machine
    /// can count that far.
    pub fn byte_len(self) -> (len: Option<usize>)
        ensures
            self.spec_byte_len() <= usize::MAX ==> len == Some(self.spec_byte_len() as usize),
            self.spec_byte_len() > usize::MAX ==> len is None,
    {
        let pixels: u64 = self.pixel_count();
        let bytes: u128 = pixels as u128 * CHANNELS as u128;
        if bytes <= usize::MAX as u128 {
            Some(bytes as usize)
        } else {
            None
        }
    }
}

/// Exchanging width and height exchanges the two axes of the framing and
/// changes nothing else: the step between pixels stays, and the correction
/// moves to the other axis.
pub proof fn lemma_framing_symmetric(width: u32, height: u32)
    ensures
        framing_of(height, width) == framing_of(width, height).swapped(),
{
}

/// A square image has no aspect correction: both half spans are plain.
pub proof fn lemma_square_framing_plain(side: u32)
    ensures
        framing_of(side, side) == (Framing {
            unit: side,
            real: HalfSpan::Plain,
            imaginary: HalfSpan::Plain,
        }),
{
}

} // verus!
