//! Source images to be written to a drive.
use vstd::prelude::*;
use crate::size_format::{decimal_text, format_byte_size, is_scaled_text, shows_amount};
use crate::text::equals;

verus! {

/// The kind of an image file.
#[derive(Debug, Clone, Copy, PartialEq, Eq, Structural)]
pub enum ImageType {
    Firmware,
    Os,
    Data,
    Other,
}

/// An image file chosen to be written.
#[derive(Debug, Clone, PartialEq)]
pub struct ImageModel {
    pub name: String,
    pub path: String,
    pub size: u64,
    pub file_type: ImageType,
}

/// The label shown for each kind of image.
pub open spec fn type_label(t: ImageType) -> Seq<char> {
    match t {
        ImageType::Firmware => "Firmware"@,
        ImageType::Os => "OS Image"@,
        ImageType::Data => "Data Image"@,
        ImageType::Other => "Other"@,
    }
}

/// The kind a file's extension gives it: `iso` and `img` files are OS
/// images, every other file (and one without a readable extension) firmware.
pub open spec fn type_for_extension(extension: Option<Seq<char>>) -> ImageType {
    match extension {
        Some(e) => if e == "iso"@ || e == "img"@ {
            ImageType::Os
        } else {
            ImageType::Firmware
        },
        None => ImageType::Firmware,
    }
}

/// The kind of image a file with this extension holds.
pub fn image_type_for_extension(extension: Option<&str>) -> (r: ImageType)
    ensures
        r == type_for_extension(extension.deep_view()),
{
    match extension {
        Some(e) => {
            if equals(e, "iso") || equals(e, "img") {
                ImageType::Os
            } else {
                ImageType::Firmware
            }
        },
        None => ImageType::Firmware,
    }
}

impl ImageModel {
    /// The image for a picked file: its name ("Unknown" when the path has
    /// none), its path, its size in bytes (0 when it could not be read) and
    /// the kind its extension gives it.
    pub fn from_picked_file(
        name: Option<String>,
        path: String,
        size: Option<u64>,
        extension: Option<&str>,
    ) -> (r: ImageModel)
        ensures
            r.name@ == (match name {
                Some(n) => n@,
                None => "Unknown"@,
            }),
            r.path == path,
            r.size == (match size {
                Some(n) => n,
                None => 0,
            }),
            r.file_type == type_for_extension(extension.deep_view()),
    {
        let name = match name {
            Some(n) => n,
            None => "Unknown".to_string(),
        };
        let size = match size {
            Some(n) => n,
            None => 0,
        };
        ImageModel { name, path, size, file_type: image_type_for_extension(extension) }
    }

    /// The image size, rendered with binary units.
    pub fn formatted_size(&self) -> (r: String)
        ensures
            self.size < 1024 ==> r@ == decimal_text(self.size as nat) + " B"@,
            self.size >= 1024 ==> is_scaled_text(r@, true) && shows_amount(r@, true, (self.size) as nat),
    {
        format_byte_size(self.size, true)
    }

    /// The label of the image's kind.
    pub fn type_display_name(&self) -> (r: String)
        ensures
            r@ == type_label(self.file_type),
    {
        match self.file_type {
            ImageType::Firmware => "Firmware".to_string(),
            ImageType::Os => "OS Image".to_string(),
            ImageType::Data => "Data Image".to_string(),
            ImageType::Other => "Other".to_string(),
        }
    }
}

} // verus!
