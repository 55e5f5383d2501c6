//! The whole detection, from the bytes of a file to the report.

use crate::error::ScanError;
use crate::image::{parse_image, parsed_image, Image, ImageView, SectionDescriptor};
use crate::locate::{
    find_text_section, first_named, section_bytes, section_in_bounds, slice_section,
    CODE_SECTION_NAME,
};
use crate::report::{build_report, report, ReportEntry};
use crate::scan::{caves, scan_caves};
use vstd::prelude::*;

verus! {

/// Which entry of the section table is scanned, or why none is: the image
/// must be a 64-bit image, it must have a code section, and the raw data of
/// that section must lie inside the file. The checks come in this order.
pub open spec fn code_section_index(image: ImageView, file_len: nat) -> Result<int, ScanError> {
    if !image.is_64 {
        Err(ScanError::UnsupportedArchitecture)
    } else {
        match first_named(image.sections, CODE_SECTION_NAME@) {
            None => Err(ScanError::SectionNotFound),
            Some(i) => if section_in_bounds(file_len, image.sections[i]) {
                Ok(i)
            } else {
                Err(ScanError::OutOfBounds)
            },
        }
    }
}

/// The report for a parsed image and the file it was parsed from.
pub open spec fn analysis(image: ImageView, file: Seq<u8>, min_size: nat) -> Result<
    Seq<ReportEntry>,
    ScanError,
> {
    match code_section_index(image, file.len()) {
        Err(e) => Err(e),
        Ok(i) => Ok(
            report(
                caves(section_bytes(file, image.sections[i]), min_size),
                image.sections[i].virtual_address,
            ),
        ),
    }
}

/// The report for the bytes of a file, given what the parser makes of them.
pub open spec fn detection(parsed: Option<ImageView>, file: Seq<u8>, min_size: nat) -> Result<
    Seq<ReportEntry>,
    ScanError,
> {
    match parsed {
        None => Err(ScanError::ParseError),
        Some(image) => analysis(image, file, min_size),
    }
}

/// Finds the code section of a parsed image and cuts its raw data out of the file.
pub fn locate_code<'a>(image: &'a Image, file: &'a [u8]) -> (located: Result<
    (&'a SectionDescriptor, &'a [u8]),
    ScanError,
>)
    ensures
        match located {
            Ok((section, text)) => {
                &&& code_section_index(image@, file@.len()) matches Ok(i)
                &&& *section == image.sections[i]
                &&& text@ == section_bytes(file@, section@)
                &&& text@.len() == section.raw_data_size
            },
            Err(e) => code_section_index(image@, file@.len()) == Err::<int, ScanError>(e),
        },
{
    if !image.is_64 {
        return Err(ScanError::UnsupportedArchitecture);
    }
    let section = match find_text_section(image) {
        Ok(section) => section,
        Err(e) => {
            return Err(e);
        },
    };
    match slice_section(file, section) {
        Ok(text) => Ok((section, text)),
        Err(e) => Err(e),
    }
}

/// Scans the code section of a parsed image and reports its caves.
pub fn analyze(image: &Image, file: &[u8], min_size: u64) -> (outcome: Result<
    Vec<ReportEntry>,
    ScanError,
>)
    ensures
        match outcome {
            Ok(entries) => analysis(image@, file@, min_size as nat) == Ok::<
                Seq<ReportEntry>,
                ScanError,
            >(entries@),
            Err(e) => analysis(image@, file@, min_size as nat) == Err::<
                Seq<ReportEntry>,
                ScanError,
            >(e),
        },
{
    match locate_code(image, file) {
        Ok((section, text)) => {
            let found = scan_caves(text, min_size);
            Ok(build_report(found.as_slice(), section.virtual_address))
        },
        Err(e) => Err(e),
    }
}

/// Runs the whole detection on the bytes of a file: parses them as an image,
/// finds the code section, scans it and reports each cave of at least
/// `min_size` bytes under its virtual address.
pub fn find_caves(file: &[u8], min_size: u64) -> (outcome: Result<Vec<ReportEntry>, ScanError>)
    ensures
        match outcome {
            Ok(entries) => detection(parsed_image(file@), file@, min_size as nat) == Ok::<
                Seq<ReportEntry>,
                ScanError,
            >(entries@),
            Err(e) => detection(parsed_image(file@), file@, min_size as nat) == Err::<
                Seq<ReportEntry>,
                ScanError,
            >(e),
        },
{
    match parse_image(file) {
        Ok(image) => analyze(&image, file, min_size),
        Err(_) => Err(ScanError::ParseError),
    }
}

} // verus!
