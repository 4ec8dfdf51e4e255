//! Target drives: their capacity, usage and kind.
use vstd::prelude::*;
use crate::size_format::{decimal_text, format_byte_size, is_scaled_text, shows_amount};

verus! {

/// The kind of a storage drive.
#[derive(Debug, Clone, Copy, PartialEq, Eq, Structural)]
pub enum DriveType {
    Usb,
    Sd,
    Internal,
    Other,
}

/// A storage drive that an image can be written to.
#[derive(Debug, Clone, PartialEq)]
pub struct DriveModel {
    pub id: String,
    pub name: String,
    pub path: String,
    pub total_space: u64,
    pub used_space: u64,
    pub is_removable: bool,
    pub mount_point: String,
    pub drive_type: DriveType,
    pub vendor: String,
    pub model: String,
    pub serial_number: String,
    pub is_mounted: bool,
}

impl DriveModel {
    /// The usage figures are consistent: no more is used than there is.
    pub open spec fn usage_consistent(&self) -> bool {
        self.used_space <= self.total_space
    }

    /// The bytes that are not in use.
    pub open spec fn spec_free_space(&self) -> int {
        self.total_space - self.used_space
    }

    /// Bytes not in use: the total less the used space.
    pub fn free_space(&self) -> (r: u64)
        requires
            self.usage_consistent(),
        ensures
            r == self.spec_free_space(),
    {
        self.total_space - self.used_space
    }

    /// The total capacity, rendered with binary units.
    pub fn formatted_total(&self) -> (r: String)
        ensures
            self.total_space < 1024 ==> r@ == decimal_text(self.total_space as nat) + " B"@,
            self.total_space >= 1024 ==> is_scaled_text(r@, true) && shows_amount(r@, true, (self.total_space) as nat),
    {
        format_byte_size(self.total_space, true)
    }

    /// The free space, rendered with binary units.
    pub fn formatted_free(&self) -> (r: String)
        requires
            self.usage_consistent(),
        ensures
            self.spec_free_space() < 1024 ==> r@ == decimal_text(self.spec_free_space() as nat) + " B"@,
            self.spec_free_space() >= 1024 ==> is_scaled_text(r@, true) && shows_amount(r@, true, (self.spec_free_space()) as nat),
    {
        format_byte_size(self.free_space(), true)
    }

    /// The used space, rendered with binary units.
    pub fn formatted_used(&self) -> (r: String)
        ensures
            self.used_space < 1024 ==> r@ == decimal_text(self.used_space as nat) + " B"@,
            self.used_space >= 1024 ==> is_scaled_text(r@, true) && shows_amount(r@, true, (self.used_space) as nat),
    {
        format_byte_size(self.used_space, true)
    }

    /// Whether `required_bytes` fit in the free space.
    pub fn has_enough_space(&self, required_bytes: u64) -> (r: bool)
        requires
            self.usage_consistent(),
        ensures
            r == (self.spec_free_space() >= required_bytes),
    {
        self.free_space() >= required_bytes
    }

    /// Whether the drive may be written; every drive is.
    pub fn is_writable(&self) -> (r: bool)
        ensures
            r,
    {
        true
    }
}

} // verus!
