//! Detection of code caves in 64-bit portable-executable images.
//!
//! A code cave is a maximal run of the padding byte `0xCC` inside the code
//! section of an image. The crate locates the code section, slices its raw
//! bytes out of the file, finds every run that is at least as long as a
//! caller-chosen minimum, and reports each run by its virtual address.

pub mod error;
pub mod image;
pub mod locate;
pub mod pipeline;
pub mod report;
pub mod scan;
