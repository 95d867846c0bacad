//! Where the frames go: the image formats and the names of the files.
//!
//! A single image goes to `<output>.<extension>`. Frame `i` of an animation
//! goes to `<output>_<i>.<extension>`, the index written in decimal.

use vstd::prelude::*;
use vstd::string::StringExecFns;
use crate::error::ConfigError;
use crate::text::{decimal, push_decimal, same_text};

verus! {

/// The image formats that a frame can be saved in.
#[derive(Clone, Copy, Debug, PartialEq, Eq, Structural)]
pub enum ImageFormat {
    Png,
    Jpeg,
    Bmp,
    Tiff,
}

/// The name of a format, which is also the extension of its files.
pub open spec fn extension_of(format: ImageFormat) -> Seq<char> {
    match format {
        ImageFormat::Png => "png"@,
        ImageFormat::Jpeg => "jpeg"@,
        ImageFormat::Bmp => "bmp"@,
        ImageFormat::Tiff => "tiff"@,
    }
}

/// The format that a name stands for, if any.
pub open spec fn format_named(name: Seq<char>) -> Option<ImageFormat> {
    if name == "png"@ {
        Some(ImageFormat::Png)
    } else if name == "jpeg"@ {
        Some(ImageFormat::Jpeg)
    } else if name == "bmp"@ {
        Some(ImageFormat::Bmp)
    } else if name == "tiff"@ {
        Some(ImageFormat::Tiff)
    } else {
        None
    }
}

/// The name of the file of a single image.
pub open spec fn still_name(output: Seq<char>, extension: Seq<char>) -> Seq<char> {
    output + seq!['.'] + extension
}

/// The name of the file of frame `index` of an animation.
pub open spec fn frame_name(output: Seq<char>, index: nat, extension: Seq<char>) -> Seq<char> {
    output + seq!['_'] + decimal(index) + seq!['.'] + extension
}

impl ImageFormat {
    /// The format that `name` stands for. A name is matched letter for
    /// letter; any other text is refused.
    pub fn from_name(name: &str) -> (format: Result<ImageFormat, ConfigError>)
        ensures
            format == match format_named(name@) {
                Some(known) => Ok::<ImageFormat, ConfigError>(known),
                None => Err::<ImageFormat, ConfigError>(ConfigError::UnknownFormat),
            },
    {
        if same_text(name, "png") {
            Ok(ImageFormat::Png)
        } else if same_text(name, "jpeg") {
            Ok(ImageFormat::Jpeg)
        } else if same_text(name, "bmp") {
            Ok(ImageFormat::Bmp)
        } else if same_text(name, "tiff") {
            Ok(ImageFormat::Tiff)
        } else {
            Err(ConfigError::UnknownFormat)
        }
    }

    /// The name of the format, which is also the extension of its files.
    pub fn extension(self) -> (name: &'static str)
        ensures
            name@ == extension_of(self),
    {
        match self {
            ImageFormat::Png => "png",
            ImageFormat::Jpeg => "jpeg",
            ImageFormat::Bmp => "bmp",
            ImageFormat::Tiff => "tiff",
        }
    }
}

/// A format is found again by its name.
pub proof fn lemma_format_by_name(format: ImageFormat)
    ensures
        format_named(extension_of(format)) == Some(format),
{
    reveal_strlit("png");
    reveal_strlit("jpeg");
    reveal_strlit("bmp");
    reveal_strlit("tiff");
    assert("png"@.len() == 3 && "jpeg"@.len() == 4 && "bmp"@.len() == 3 && "tiff"@.len() == 4);
    assert("png"@[0] == 'p' && "bmp"@[0] == 'b' && "jpeg"@[0] == 'j' && "tiff"@[0] == 't');
}

/// The name of the file of a single image.
pub fn still_path(output: &str, format: ImageFormat) -> (path: String)
    ensures
        path@ == still_name(output@, extension_of(format)),
{
    let mut path = String::from_str(output);
    path.append(".");
    path.append(format.extension());
    proof {
        reveal_strlit(".");
        assert("."@ =~= seq!['.']);
    }
    path
}

/// The name of the file of frame `index` of an animation.
pub fn frame_path(output: &str, index: u32, format: ImageFormat) -> (path: String)
    ensures
        path@ == frame_name(output@, index as nat, extension_of(format)),
{
    let mut path = String::from_str(output);
    path.append("_");
    push_decimal(&mut path, index);
    path.append(".");
    path.append(format.extension());
    proof {
        reveal_strlit(".");
        reveal_strlit("_");
        assert("."@ =~= seq!['.']);
        assert("_"@ =~= seq!['_']);
    }
    path
}

} // verus!
