//! Typed, bounds-checked access to Multiboot2 boot information tags.
//!
//! A tag is a record in the memory region that a Multiboot2 boot loader hands
//! to a kernel: an eight-byte header (type identifier, total size) followed by
//! a payload. This crate reads the boot loader name tag and the two ACPI root
//! pointer tags from bytes, validates what they hold, and builds such tags
//! for producers of the format.
//!
//! Integers stand in memory in little-endian order. Walking the region from
//! tag to tag is the caller's business: every function here is handed the
//! bytes of one tag.

pub mod boot_loader_name;
pub mod builder;
pub mod bytes;
pub mod checksum;
pub mod rsdp;
pub mod tag;
pub mod utf8;

pub use boot_loader_name::BootLoaderNameTag;
pub use builder::BoxedDst;
pub use checksum::{acpi_checksum_is_valid, wrapping_sum, ChecksumError};
pub use rsdp::{RsdpV1Tag, RsdpV2Tag};
pub use tag::{get_dst_str_slice, TagHeader, TagTrait, HEADER_SIZE};
pub use utf8::Utf8DecodeError;
