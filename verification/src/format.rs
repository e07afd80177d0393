//! The closed set of output formats, each with its file extension and its encoder.

use vstd::prelude::*;

verus! {

/// An image format a page can be encoded to.
#[derive(Clone, Copy, Debug, PartialEq, Eq, Structural)]
pub enum OutputFormat {
    Png,
    Jpeg,
    Gif,
    WebP,
    Pnm,
    Tiff,
    Tga,
    Bmp,
    Ico,
    Hdr,
    OpenExr,
    Farbfeld,
    Avif,
    Qoi,
}

impl Default for OutputFormat {
    /// Pages become PNG images where nothing else is asked for.
    fn default() -> (format: OutputFormat)
        ensures
            format == OutputFormat::Png,
    {
        OutputFormat::Png
    }
}

/// The formats that the `image` crate names: a public enum without fields,
/// declared as it stands there.
#[verifier::external_type_specification]
pub struct ExImageFormat(image::ImageFormat);

impl OutputFormat {
    /// The file extension that object keys of this format end in.
    pub open spec fn extension_text(self) -> Seq<char> {
        match self {
            OutputFormat::Png => "png"@,
            OutputFormat::Jpeg => "jpg"@,
            OutputFormat::Gif => "gif"@,
            OutputFormat::WebP => "webp"@,
            OutputFormat::Pnm => "pnm"@,
            OutputFormat::Tiff => "tiff"@,
            OutputFormat::Tga => "tga"@,
            OutputFormat::Bmp => "bmp"@,
            OutputFormat::Ico => "ico"@,
            OutputFormat::Hdr => "hdr"@,
            OutputFormat::OpenExr => "exr"@,
            OutputFormat::Farbfeld => "ff"@,
            OutputFormat::Avif => "avif"@,
            OutputFormat::Qoi => "qoi"@,
        }
    }

    /// The file extension of the format.
    pub fn extension(&self) -> (ext: &'static str)
        ensures
            ext@ == self.extension_text(),
    {
        match self {
            OutputFormat::Png => "png",
            OutputFormat::Jpeg => "jpg",
            OutputFormat::Gif => "gif",
            OutputFormat::WebP => "webp",
            OutputFormat::Pnm => "pnm",
            OutputFormat::Tiff => "tiff",
            OutputFormat::Tga => "tga",
            OutputFormat::Bmp => "bmp",
            OutputFormat::Ico => "ico",
            OutputFormat::Hdr => "hdr",
            OutputFormat::OpenExr => "exr",
            OutputFormat::Farbfeld => "ff",
            OutputFormat::Avif => "avif",
            OutputFormat::Qoi => "qoi",
        }
    }

    /// Whether the format's encoder takes a page as it is drawn, with eight
    /// bits for each colour. The encoders of three formats take floating-point
    /// or sixteen-bit colour only: no page is ever encoded to one of these.
    pub open spec fn takes_eight_bit_colour(self) -> bool {
        match self {
            OutputFormat::Hdr => false,
            OutputFormat::OpenExr => false,
            OutputFormat::Farbfeld => false,
            _ => true,
        }
    }

    /// Whether the format's encoder gives the same bytes for the same page
    /// on every machine. Two do not: that of AVIF splits its work by the
    /// number of threads the machine offers, and that of TIFF writes its
    /// numbers in the byte order of the machine.
    pub open spec fn encodes_alike_everywhere(self) -> bool {
        match self {
            OutputFormat::Avif => false,
            OutputFormat::Tiff => false,
            _ => true,
        }
    }

    /// The encoder of the format: each format has its own.
    pub open spec fn encoder(self) -> image::ImageFormat {
        match self {
            OutputFormat::Png => image::ImageFormat::Png,
            OutputFormat::Jpeg => image::ImageFormat::Jpeg,
            OutputFormat::Gif => image::ImageFormat::Gif,
            OutputFormat::WebP => image::ImageFormat::WebP,
            OutputFormat::Pnm => image::ImageFormat::Pnm,
            OutputFormat::Tiff => image::ImageFormat::Tiff,
            OutputFormat::Tga => image::ImageFormat::Tga,
            OutputFormat::Bmp => image::ImageFormat::Bmp,
            OutputFormat::Ico => image::ImageFormat::Ico,
            OutputFormat::Hdr => image::ImageFormat::Hdr,
            OutputFormat::OpenExr => image::ImageFormat::OpenExr,
            OutputFormat::Farbfeld => image::ImageFormat::Farbfeld,
            OutputFormat::Avif => image::ImageFormat::Avif,
            OutputFormat::Qoi => image::ImageFormat::Qoi,
        }
    }

    /// The encoder of the format.
    pub fn as_image_format(&self) -> (encoder: image::ImageFormat)
        ensures
            encoder == self.encoder(),
    {
        match self {
            OutputFormat::Png => image::ImageFormat::Png,
            OutputFormat::Jpeg => image::ImageFormat::Jpeg,
            OutputFormat::Gif => image::ImageFormat::Gif,
            OutputFormat::WebP => image::ImageFormat::WebP,
            OutputFormat::Pnm => image::ImageFormat::Pnm,
            OutputFormat::Tiff => image::ImageFormat::Tiff,
            OutputFormat::Tga => image::ImageFormat::Tga,
            OutputFormat::Bmp => image::ImageFormat::Bmp,
            OutputFormat::Ico => image::ImageFormat::Ico,
            OutputFormat::Hdr => image::ImageFormat::Hdr,
            OutputFormat::OpenExr => image::ImageFormat::OpenExr,
            OutputFormat::Farbfeld => image::ImageFormat::Farbfeld,
            OutputFormat::Avif => image::ImageFormat::Avif,
            OutputFormat::Qoi => image::ImageFormat::Qoi,
        }
    }
}

} // verus!
