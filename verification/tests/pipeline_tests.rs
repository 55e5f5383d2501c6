use codecave::error::ScanError;
use codecave::image::{
    assemble_image, parse_image, section_table_offset, Image, ImageHeader, SectionDescriptor,
};
use codecave::pipeline::{analyze, find_caves, locate_code};
use codecave::report::ReportEntry;

const HEADER_AT: usize = 0x80;
const OPTIONAL_AT: usize = HEADER_AT + 4 + 20;

fn put_u16(file: &mut [u8], at: usize, value: u16) {
    file[at..at + 2].copy_from_slice(&value.to_le_bytes());
}

fn put_u32(file: &mut [u8], at: usize, value: u32) {
    file[at..at + 4].copy_from_slice(&value.to_le_bytes());
}

/// A small image file of `len` bytes in all: headers with an optional header
/// of the given magic number (none at all for `None`) and `directories` empty
/// data directories, the given section table, and `0x90` behind the headers.
fn image_file_with(
    magic: Option<u16>,
    directories: usize,
    sections: &[(&[u8], u32, u32, u32)],
    len: usize,
) -> Vec<u8> {
    let fixed: usize = match magic {
        None => 0,
        Some(0x10b) => 96,
        Some(_) => 112,
    };
    let optional_size = if fixed == 0 { 0 } else { fixed + 8 * directories };
    let table_at = OPTIONAL_AT + optional_size;
    let headers_end = table_at + 40 * sections.len();
    let mut file = vec![0u8; headers_end.max(len)];
    for byte in file.iter_mut().skip(headers_end) {
        *byte = 0x90;
    }
    file[0] = b'M';
    file[1] = b'Z';
    put_u32(&mut file, 0x3c, HEADER_AT as u32);
    file[HEADER_AT..HEADER_AT + 4].copy_from_slice(b"PE\0\0");
    let coff = HEADER_AT + 4;
    put_u16(&mut file, coff, if magic == Some(0x20b) { 0x8664 } else { 0x014c });
    put_u16(&mut file, coff + 2, sections.len() as u16);
    put_u16(&mut file, coff + 16, optional_size as u16);
    put_u16(&mut file, coff + 18, 0x0002);
    if let Some(magic) = magic {
        put_u16(&mut file, OPTIONAL_AT, magic);
        put_u32(&mut file, OPTIONAL_AT + fixed - 4, directories as u32);
    }
    for (i, (name, virtual_address, pointer, size)) in sections.iter().enumerate() {
        let at = table_at + 40 * i;
        file[at..at + name.len()].copy_from_slice(name);
        put_u32(&mut file, at + 8, *size);
        put_u32(&mut file, at + 12, *virtual_address);
        put_u32(&mut file, at + 16, *size);
        put_u32(&mut file, at + 20, *pointer);
    }
    file
}

fn image_file(is_64: bool, sections: &[(&[u8], u32, u32, u32)], len: usize) -> Vec<u8> {
    image_file_with(Some(if is_64 { 0x20b } else { 0x10b }), 0, sections, len)
}

fn scenario_file(is_64: bool, code_name: &[u8]) -> Vec<u8> {
    let mut file = image_file(
        is_64,
        &[(b".rdata", 0x2000, 0x300, 0x10), (code_name, 0x1000, 0x200, 7)],
        0x400,
    );
    file[0x200..0x207].copy_from_slice(&[0x90, 0xCC, 0xCC, 0xCC, 0x90, 0xCC, 0xCC]);
    file
}

#[test]
fn parse_copies_the_section_table_in_order() {
    let file = image_file(
        true,
        &[(b".text", 0x1000, 0x200, 0x80), (b".data", 0x2000, 0x280, 0x40), (b".textbss", 0x3000, 0, 0)],
        0x400,
    );
    let image = parse_image(&file).unwrap();
    assert!(image.is_64);
    assert_eq!(
        image.sections,
        vec![
            SectionDescriptor {
                name: *b".text\0\0\0",
                real_name: None,
                virtual_address: 0x1000,
                raw_data_pointer: 0x200,
                raw_data_size: 0x80,
            },
            SectionDescriptor {
                name: *b".data\0\0\0",
                real_name: None,
                virtual_address: 0x2000,
                raw_data_pointer: 0x280,
                raw_data_size: 0x40,
            },
            SectionDescriptor {
                name: *b".textbss",
                real_name: None,
                virtual_address: 0x3000,
                raw_data_pointer: 0,
                raw_data_size: 0,
            },
        ]
    );
}

#[test]
fn parse_tells_the_two_widths_apart() {
    assert!(parse_image(&image_file(true, &[], 0x200)).unwrap().is_64);
    assert!(!parse_image(&image_file(false, &[], 0x200)).unwrap().is_64);
}

#[test]
fn parse_rejects_what_is_no_image() {
    assert!(parse_image(&[]).is_err());
    assert!(parse_image(b"not an executable at all").is_err());
    assert!(parse_image(&[0u8; 0x400]).is_err());
    let mut file = image_file(true, &[], 0x200);
    file[HEADER_AT] = b'N';
    assert!(parse_image(&file).is_err());
    let cut = image_file(true, &[(b".text", 0x1000, 0x200, 0x10)], 0x400);
    assert!(parse_image(&cut[..0x90]).is_err());
    assert!(parse_image(&cut[..OPTIONAL_AT + 112 + 39]).is_err());
    assert!(parse_image(&cut[..OPTIONAL_AT + 112 + 40]).is_ok());
}

#[test]
fn parse_failure_gives_a_reason() {
    let failure = parse_image(b"MZ").unwrap_err();
    assert!(!failure.reason.is_empty());
    let mut file = image_file(true, &[], 0x200);
    put_u16(&mut file, OPTIONAL_AT, 0x0107);
    let failure = parse_image(&file).unwrap_err();
    assert!(!failure.reason.is_empty());
}

#[test]
fn parse_rejects_an_unknown_magic_number() {
    let mut file = image_file(true, &[(b".text", 0x1000, 0x200, 0x10)], 0x400);
    put_u16(&mut file, OPTIONAL_AT, 0x0107);
    assert!(parse_image(&file).is_err());
    assert_eq!(find_caves(&file, 1), Err(ScanError::ParseError));
}

#[test]
fn image_without_optional_header_is_not_64_bit() {
    let mut file = image_file_with(None, 0, &[(b".text", 0x1000, 0x200, 7)], 0x400);
    file[0x200..0x207].copy_from_slice(&[0x90, 0xCC, 0xCC, 0xCC, 0x90, 0xCC, 0xCC]);
    let image = parse_image(&file).unwrap();
    assert!(!image.is_64);
    assert_eq!(image.sections.len(), 1);
    assert_eq!(find_caves(&file, 3), Err(ScanError::UnsupportedArchitecture));
}

#[test]
fn section_table_follows_the_optional_header() {
    let with_directories =
        image_file_with(Some(0x20b), 16, &[(b".text", 0x1000, 0x200, 0x20)], 0x400);
    let image = parse_image(&with_directories).unwrap();
    assert!(image.is_64);
    assert_eq!(image.sections.len(), 1);
    assert_eq!(image.sections[0].name, *b".text\0\0\0");
    assert_eq!(image.sections[0].raw_data_pointer, 0x200);
    assert_eq!(image.sections[0].raw_data_size, 0x20);
}

#[test]
fn section_table_offset_adds_the_header_sizes() {
    let mut header = ImageHeader {
        pe_pointer: 0x80,
        number_of_sections: 3,
        pointer_to_symbol_table: 0,
        number_of_symbols: 0,
        size_of_optional_header: 240,
        optional_magic: Some(0x20b),
    };
    assert_eq!(section_table_offset(&header), 0x80 + 4 + 20 + 240);
    header.size_of_optional_header = 0;
    assert_eq!(section_table_offset(&header), 0x98);
    header.pe_pointer = u32::MAX;
    header.size_of_optional_header = u16::MAX;
    assert_eq!(section_table_offset(&header), 0xFFFF_FFFF + 24 + 0xFFFF);
}

#[test]
fn architecture_comes_from_the_magic_number() {
    assert_eq!(assemble_image(Some(0x20b), Vec::new()), Ok(Image { is_64: true, sections: Vec::new() }));
    assert_eq!(assemble_image(Some(0x10b), Vec::new()), Ok(Image { is_64: false, sections: Vec::new() }));
    assert_eq!(assemble_image(None, Vec::new()), Ok(Image { is_64: false, sections: Vec::new() }));
    assert!(assemble_image(Some(0x107), Vec::new()).is_err());
    assert!(assemble_image(Some(0), Vec::new()).is_err());
    let section = SectionDescriptor {
        name: *b".text\0\0\0",
        real_name: None,
        virtual_address: 0x1000,
        raw_data_pointer: 0x200,
        raw_data_size: 0x80,
    };
    let image = assemble_image(Some(0x20b), vec![section.clone()]).unwrap();
    assert_eq!(image.sections, vec![section]);
}

#[test]
fn long_section_name_is_read_from_the_string_table() {
    let mut file = image_file(true, &[(b"/4", 0x1000, 0x200, 7), (b".text", 0x2000, 0x210, 4)], 0x400);
    put_u32(&mut file, HEADER_AT + 4 + 8, 0x300);
    file[0x300..0x304].copy_from_slice(&[0x20, 0, 0, 0]);
    file[0x304..0x310].copy_from_slice(b".text_hidden");
    file[0x310] = 0;
    let image = parse_image(&file).unwrap();
    assert_eq!(image.sections[0].name, *b"/4\0\0\0\0\0\0");
    assert_eq!(image.sections[0].real_name.as_deref(), Some(".text_hidden"));
    assert_eq!(image.sections[1].real_name, None);
    let mut renamed = file.clone();
    renamed[0x304..0x30a].copy_from_slice(b".text\0");
    renamed[0x200..0x207].copy_from_slice(&[0x90, 0xCC, 0xCC, 0xCC, 0x90, 0xCC, 0xCC]);
    assert_eq!(
        find_caves(&renamed, 3),
        Ok(vec![ReportEntry { index: 0, rva: 0x1001, length: 3 }])
    );
}

#[test]
fn broken_directories_do_not_stop_the_scan() {
    let mut file = image_file_with(
        Some(0x20b),
        16,
        &[(b".rdata", 0x2000, 0x300, 0x40), (b".text", 0x1000, 0x280, 7)],
        0x400,
    );
    file[0x280..0x287].copy_from_slice(&[0x90, 0xCC, 0xCC, 0xCC, 0x90, 0xCC, 0xCC]);
    let directories = OPTIONAL_AT + 112;
    for index in [0usize, 1, 6, 9] {
        put_u32(&mut file, directories + 8 * index, 0x2000);
        put_u32(&mut file, directories + 8 * index + 4, 0x28);
    }
    for at in (0x300..0x340).step_by(8) {
        put_u32(&mut file, at, 0x2000);
        put_u32(&mut file, at + 4, 0x7FFF_FFFF);
    }
    assert_eq!(find_caves(&file, 3), Ok(vec![ReportEntry { index: 0, rva: 0x1001, length: 3 }]));
    assert_eq!(find_caves(&file[..0x320], 3), Ok(vec![ReportEntry { index: 0, rva: 0x1001, length: 3 }]));
}

#[test]
fn scenario_end_to_end() {
    let file = scenario_file(true, b".text");
    assert_eq!(find_caves(&file, 3), Ok(vec![ReportEntry { index: 0, rva: 0x1001, length: 3 }]));
    assert_eq!(
        find_caves(&file, 2),
        Ok(vec![
            ReportEntry { index: 0, rva: 0x1001, length: 3 },
            ReportEntry { index: 1, rva: 0x1005, length: 2 },
        ])
    );
    assert_eq!(find_caves(&file, 4), Ok(vec![]));
}

#[test]
fn scan_does_not_look_outside_the_section() {
    let mut file = scenario_file(true, b".text");
    file[0x1ff] = 0xCC;
    file[0x207] = 0xCC;
    assert_eq!(
        find_caves(&file, 2),
        Ok(vec![
            ReportEntry { index: 0, rva: 0x1001, length: 3 },
            ReportEntry { index: 1, rva: 0x1005, length: 2 },
        ])
    );
}

#[test]
fn image_that_is_not_64_bit_is_unsupported() {
    let file = scenario_file(false, b".text");
    assert_eq!(find_caves(&file, 3), Err(ScanError::UnsupportedArchitecture));
    assert_eq!(find_caves(&file, 0), Err(ScanError::UnsupportedArchitecture));
}

#[test]
fn image_without_code_section_is_rejected() {
    let file = scenario_file(true, b".code");
    assert_eq!(find_caves(&file, 3), Err(ScanError::SectionNotFound));
    let none = image_file(true, &[], 0x200);
    assert_eq!(find_caves(&none, 3), Err(ScanError::SectionNotFound));
}

#[test]
fn code_section_beyond_the_file_is_out_of_bounds() {
    let file = image_file(true, &[(b".text", 0x1000, 0x200, 0x201)], 0x400);
    assert_eq!(find_caves(&file, 1), Err(ScanError::OutOfBounds));
    let fits = image_file(true, &[(b".text", 0x1000, 0x200, 0x200)], 0x400);
    assert_eq!(find_caves(&fits, 1), Ok(vec![]));
    let far = image_file(true, &[(b".text", 0x1000, u32::MAX, u32::MAX)], 0x400);
    assert_eq!(find_caves(&far, 1), Err(ScanError::OutOfBounds));
}

#[test]
fn bytes_that_do_not_parse_are_a_parse_error() {
    assert_eq!(find_caves(&[], 3), Err(ScanError::ParseError));
    assert_eq!(find_caves(&[0xCC; 64], 3), Err(ScanError::ParseError));
    assert_eq!(find_caves(b"MZ", 0), Err(ScanError::ParseError));
}

#[test]
fn architecture_is_checked_before_the_section_table() {
    let image = Image { is_64: false, sections: Vec::new() };
    assert_eq!(analyze(&image, &[], 0), Err(ScanError::UnsupportedArchitecture));
    assert_eq!(locate_code(&image, &[]), Err(ScanError::UnsupportedArchitecture));
}

#[test]
fn analyze_a_hand_made_image() {
    let image = Image {
        is_64: true,
        sections: vec![
            SectionDescriptor {
                name: *b".data\0\0\0",
                real_name: None,
                virtual_address: 0x2000,
                raw_data_pointer: 0,
                raw_data_size: 2,
            },
            SectionDescriptor {
                name: *b".text\0\0\0",
                real_name: None,
                virtual_address: 0x1000,
                raw_data_pointer: 2,
                raw_data_size: 7,
            },
        ],
    };
    let file = [0xCC, 0xCC, 0x90, 0xCC, 0xCC, 0xCC, 0x90, 0xCC, 0xCC, 0xCC];
    let (section, text) = locate_code(&image, &file).unwrap();
    assert_eq!(section, &image.sections[1]);
    assert_eq!(text, &file[2..9]);
    assert_eq!(analyze(&image, &file, 3), Ok(vec![ReportEntry { index: 0, rva: 0x1001, length: 3 }]));
    assert_eq!(analyze(&image, &file[..8], 3), Err(ScanError::OutOfBounds));
}
