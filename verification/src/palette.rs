//! Packed colours and the cyclic colour table that escape counts index.

use vstd::prelude::*;
use crate::error::ConfigError;

verus! {

/// One colour, a byte for each channel.
#[derive(Clone, Copy, Debug, PartialEq, Eq, Structural)]
pub struct Rgb {
    pub red: u8,
    pub green: u8,
    pub blue: u8,
}

/// The channels of a packed colour: red in bits 16 to 23, green in bits 8 to
/// 15, blue in bits 0 to 7. Higher bits do not count.
pub open spec fn unpacked(color: u32) -> Rgb {
    Rgb {
        red: ((color / 0x1_0000) % 0x100) as u8,
        green: ((color / 0x100) % 0x100) as u8,
        blue: (color % 0x100) as u8,
    }
}

/// The colour that a table gives to an escape count: the table is walked
/// cyclically.
pub open spec fn shade(colors: Seq<u32>, count: u64) -> u32
    recommends
        colors.len() > 0,
{
    colors[(count as int) % (colors.len() as int)]
}

/// Splits a packed colour into its channels.
pub fn unpack(color: u32) -> (rgb: Rgb)
    ensures
        rgb == unpacked(color),
{
    let red: u32 = (color >> 16) & 0xff;
    let green: u32 = (color >> 8) & 0xff;
    let blue: u32 = color & 0xff;
    proof {
        assert((color >> 16) & 0xff == (color / 0x1_0000) % 0x100) by (bit_vector);
        assert((color >> 8) & 0xff == (color / 0x100) % 0x100) by (bit_vector);
        assert(color & 0xff == color % 0x100) by (bit_vector);
    }
    Rgb { red: red as u8, green: green as u8, blue: blue as u8 }
}

/// An ordered table of packed colours with at least one entry.
#[derive(Debug)]
pub struct Palette {
    colors: Vec<u32>,
}

impl View for Palette {
    type V = Seq<u32>;

    closed spec fn view(&self) -> Seq<u32> {
        self.colors@
    }
}

impl Palette {
    #[verifier::type_invariant]
    spec fn nonempty(self) -> bool {
        self.colors@.len() > 0
    }

    /// A palette of the given colours, in their order; there must be one at
    /// least.
    pub fn new(colors: Vec<u32>) -> (made: Result<Palette, ConfigError>)
        ensures
            colors@.len() == 0 ==> made == Err::<Palette, ConfigError>(ConfigError::EmptyPalette),
            colors@.len() > 0 ==> made is Ok && made->Ok_0@ == colors@,
    {
        if colors.len() == 0 {
            Err(ConfigError::EmptyPalette)
        } else {
            Ok(Palette { colors })
        }
    }

    /// Number of colours in the table.
    pub fn len(&self) -> (len: usize)
        ensures
            len == self@.len(),
            len > 0,
    {
        proof {
            use_type_invariant(self);
        }
        self.colors.len()
    }

    /// The packed colour at `index`.
    pub fn get(&self, index: usize) -> (color: Option<u32>)
        ensures
            index < self@.len() ==> color == Some(self@[index as int]),
            index >= self@.len() ==> color is None,
    {
        if index < self.colors.len() {
            Some(self.colors[index])
        } else {
            None
        }
    }

    /// The packed colour of an escape count.
    pub fn color_of(&self, count: u64) -> (color: u32)
        ensures
            color == shade(self@, count),
    {
        proof {
            use_type_invariant(self);
        }
        let len: usize = self.colors.len();
        let index: u64 = count % (len as u64);
        self.colors[index as usize]
    }
}

/// Cyclic indexing never leaves the table: for every escape count the index
/// `count mod length` names an entry.
pub proof fn lemma_shade_in_table(colors: Seq<u32>, count: u64)
    requires
        colors.len() > 0,
    ensures
        0 <= (count as int) % (colors.len() as int) < colors.len(),
        colors.contains(shade(colors, count)),
{
}

/// A table of one colour gives that colour to every escape count.
pub proof fn lemma_single_colour(colors: Seq<u32>, count: u64)
    requires
        colors.len() == 1,
    ensures
        shade(colors, count) == colors[0],
{
}

} // verus!
