use vstd::prelude::*;
use vstd::string::StringExecFns;
use crate::text::text_is;

verus! {

/// The image encodings that processed images are written in.
#[derive(Clone, Copy, Debug, PartialEq, Eq, Structural)]
pub enum ImageFormat {
    /// JPEG at the given quality.
    Jpeg(u8),
    /// PNG.
    Png,
}

/// How the entries of a zip archive are compressed.
#[derive(Clone, Copy, Debug, PartialEq, Eq, Structural)]
pub enum ZipCompression {
    /// Stored without compression.
    Stored,
    /// Compressed with deflate.
    Deflated,
}

/// Where a processed image goes.
#[derive(Clone, Copy, Debug, PartialEq, Eq, Structural)]
pub enum Destination {
    /// A zip archive written at the plan's path, holding the image,
    /// encoded as `format`, as its only entry, named by the plan's name.
    ZipArchive { format: ImageFormat, compression: ZipCompression },
    /// An image file in the directory given by the plan's path, named by
    /// the plan's name and the extension of `format`.
    ImageFile { format: ImageFormat },
}

/// What is written for one processed image: the name and path the image
/// carries when it is written, and where it goes.
pub struct WritePlan {
    pub name: String,
    pub path: String,
    pub destination: Destination,
}

/// JPEG quality used for images written by extension or into archives.
pub const WRITE_JPEG_QUALITY: u8 = 80;

/// The format that a file extension asks for: `png` and `PNG` give PNG,
/// anything else JPEG at quality 80.
pub open spec fn format_for_extension(ext: Seq<char>) -> ImageFormat {
    if ext == "png"@ || ext == "PNG"@ {
        ImageFormat::Png
    } else {
        ImageFormat::Jpeg(WRITE_JPEG_QUALITY)
    }
}

/// Whether an extension asks for a zip archive.
pub open spec fn is_zip_extension(ext: Seq<char>) -> bool {
    ext == "zip"@
}

/// The name an image carries when written for extension `ext`: inside a zip
/// archive the entry gets a `.jpg` suffix, otherwise the name is kept.
pub open spec fn written_name(name: Seq<char>, ext: Seq<char>) -> Seq<char> {
    if is_zip_extension(ext) {
        name + ".jpg"@
    } else {
        name
    }
}

/// Where an image goes for extension `ext`.
pub open spec fn destination_for_extension(ext: Seq<char>) -> Destination {
    if is_zip_extension(ext) {
        Destination::ZipArchive {
            format: ImageFormat::Jpeg(WRITE_JPEG_QUALITY),
            compression: ZipCompression::Deflated,
        }
    } else {
        Destination::ImageFile { format: format_for_extension(ext) }
    }
}

/// Only the extensions `png` and `PNG` give PNG; every other extension gives
/// JPEG at quality 80.
pub proof fn law_extension_format(ext: Seq<char>)
    ensures
        (ext == "png"@ || ext == "PNG"@) ==> format_for_extension(ext) == ImageFormat::Png,
        !(ext == "png"@ || ext == "PNG"@) ==> format_for_extension(ext) == ImageFormat::Jpeg(WRITE_JPEG_QUALITY),
{
}

/// Writing for an extension: `zip` packs the image, renamed with a `.jpg`
/// suffix, as a deflated JPEG (quality 80) into an archive; `png` and `PNG`
/// write a PNG file under the image's name; every other extension writes a
/// JPEG file (quality 80) under the image's name.
pub proof fn law_write_for_extension(name: Seq<char>, ext: Seq<char>)
    ensures
        ext == "zip"@ ==> written_name(name, ext) == name + ".jpg"@ && destination_for_extension(ext)
            == (Destination::ZipArchive {
            format: ImageFormat::Jpeg(WRITE_JPEG_QUALITY),
            compression: ZipCompression::Deflated,
        }),
        (ext == "png"@ || ext == "PNG"@) ==> written_name(name, ext) == name
            && destination_for_extension(ext) == (Destination::ImageFile { format: ImageFormat::Png }),
        !(ext == "zip"@ || ext == "png"@ || ext == "PNG"@) ==> written_name(name, ext) == name
            && destination_for_extension(ext) == (Destination::ImageFile { format: ImageFormat::Jpeg(WRITE_JPEG_QUALITY) }),
{
    reveal_strlit("zip");
    reveal_strlit("png");
    reveal_strlit("PNG");
    assert("zip"@[0] != "png"@[0]);
    assert("zip"@[0] != "PNG"@[0]);
}

/// Chooses the image format for a file extension.
pub fn image_format_for_extension(ext: &str) -> (f: ImageFormat)
    ensures
        f == format_for_extension(ext@),
        (ext@ == "png"@ || ext@ == "PNG"@) ==> f == ImageFormat::Png,
        !(ext@ == "png"@ || ext@ == "PNG"@) ==> f == ImageFormat::Jpeg(WRITE_JPEG_QUALITY),
{
    if text_is(ext, "png") || text_is(ext, "PNG") {
        ImageFormat::Png
    } else {
        ImageFormat::Jpeg(WRITE_JPEG_QUALITY)
    }
}

/// JPEG quality used for images converted in the browser.
pub const CONVERT_JPEG_QUALITY: u8 = 90;

/// The format a conversion request names: `png` gives PNG; `jpg` and
/// anything else JPEG at quality 90.
pub open spec fn format_for_conversion(format: Seq<char>) -> ImageFormat {
    if format == "png"@ {
        ImageFormat::Png
    } else {
        ImageFormat::Jpeg(CONVERT_JPEG_QUALITY)
    }
}

/// A conversion gives PNG exactly when `png` is asked for; every other
/// request, `jpg` and unknown names alike, gives JPEG at quality 90.
pub proof fn law_conversion_format(format: Seq<char>)
    ensures
        format == "png"@ ==> format_for_conversion(format) == ImageFormat::Png,
        format != "png"@ ==> format_for_conversion(format) == ImageFormat::Jpeg(CONVERT_JPEG_QUALITY),
{
}

/// Chooses the output format of a conversion request.
pub fn conversion_format(format: &str) -> (f: ImageFormat)
    ensures
        f == format_for_conversion(format@),
        format@ == "png"@ ==> f == ImageFormat::Png,
        format@ != "png"@ ==> f == ImageFormat::Jpeg(CONVERT_JPEG_QUALITY),
{
    proof {
        reveal_strlit("jpg");
        reveal_strlit("png");
        assert("jpg"@[0] != "png"@[0]);
    }
    if text_is(format, "jpg") {
        ImageFormat::Jpeg(CONVERT_JPEG_QUALITY)
    } else if text_is(format, "png") {
        ImageFormat::Png
    } else {
        ImageFormat::Jpeg(CONVERT_JPEG_QUALITY)
    }
}

/// Plans the writing of an image named `name` to `path`, as the extension
/// `ext` asks: `zip` packs it as `<name>.jpg` (JPEG, quality 80, deflated)
/// into a zip archive at `path`; `png` or `PNG` writes a PNG file into the
/// directory `path`; any other extension writes a JPEG file (quality 80)
/// there. The image's path becomes `path` in every case.
pub fn write_to_path(name: String, path: String, ext: &str) -> (plan: WritePlan)
    ensures
        plan.name@ == written_name(name@, ext@),
        plan.path@ == path@,
        plan.destination == destination_for_extension(ext@),
        ext@ == "zip"@ ==> plan.name@ == name@ + ".jpg"@ && plan.destination == (Destination::ZipArchive {
            format: ImageFormat::Jpeg(WRITE_JPEG_QUALITY),
            compression: ZipCompression::Deflated,
        }),
        (ext@ == "png"@ || ext@ == "PNG"@) ==> plan.name@ == name@
            && plan.destination == (Destination::ImageFile { format: ImageFormat::Png }),
        !(ext@ == "zip"@ || ext@ == "png"@ || ext@ == "PNG"@) ==> plan.name@ == name@
            && plan.destination == (Destination::ImageFile { format: ImageFormat::Jpeg(WRITE_JPEG_QUALITY) }),
{
    proof {
        law_write_for_extension(name@, ext@);
    }
    if text_is(ext, "zip") {
        let entry_name = name.concat(".jpg");
        WritePlan {
            name: entry_name,
            path,
            destination: Destination::ZipArchive {
                format: ImageFormat::Jpeg(WRITE_JPEG_QUALITY),
                compression: ZipCompression::Deflated,
            },
        }
    } else {
        let format = image_format_for_extension(ext);
        WritePlan { name, path, destination: Destination::ImageFile { format } }
    }
}

} // verus!
