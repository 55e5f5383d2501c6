use codecave::error::ScanError;
use codecave::report::{build_report, render_line, translate, ReportEntry};
use codecave::scan::{scan_caves, CaveRecord};

#[test]
fn translate_adds_the_section_base() {
    assert_eq!(translate(1, 0x1000), 0x1001);
    assert_eq!(translate(0, 0), 0);
    assert_eq!(translate(0, u32::MAX), 0xFFFF_FFFF);
    assert_eq!(translate(0xFFFF_FFFF, u32::MAX), 0x1_FFFF_FFFE);
}

#[test]
fn scenario_reports_the_cave_at_its_virtual_address() {
    let text = [0x90, 0xCC, 0xCC, 0xCC, 0x90, 0xCC, 0xCC];
    let found = scan_caves(&text, 3);
    let entries = build_report(&found, 0x1000);
    assert_eq!(entries, vec![ReportEntry { index: 0, rva: 0x1001, length: 3 }]);
}

#[test]
fn report_keeps_order_and_numbers_from_zero() {
    let caves = [
        CaveRecord { start_offset: 4, length: 9 },
        CaveRecord { start_offset: 20, length: 2 },
        CaveRecord { start_offset: 64, length: 100 },
    ];
    let entries = build_report(&caves, 0x40_0000);
    assert_eq!(
        entries,
        vec![
            ReportEntry { index: 0, rva: 0x40_0004, length: 9 },
            ReportEntry { index: 1, rva: 0x40_0014, length: 2 },
            ReportEntry { index: 2, rva: 0x40_0040, length: 100 },
        ]
    );
}

#[test]
fn report_of_nothing_is_empty() {
    assert_eq!(build_report(&[], 0x1000), vec![]);
}

#[test]
fn every_error_has_its_own_message() {
    let all = [
        ScanError::IoError,
        ScanError::ParseError,
        ScanError::UnsupportedArchitecture,
        ScanError::SectionNotFound,
        ScanError::OutOfBounds,
    ];
    assert_eq!(ScanError::IoError.message(), "failed to read or write a file");
    assert_eq!(ScanError::ParseError.message(), "failed to parse executable");
    assert_eq!(ScanError::UnsupportedArchitecture.message(), "unsupported architecture");
    assert_eq!(ScanError::SectionNotFound.message(), "failed to find .text");
    assert_eq!(ScanError::OutOfBounds.message(), "section range out of bounds");
    for (i, a) in all.iter().enumerate() {
        for (j, b) in all.iter().enumerate() {
            assert_eq!(a.message() == b.message(), i == j);
        }
    }
}

#[test]
fn line_has_the_documented_form() {
    assert_eq!(render_line(&ReportEntry { index: 0, rva: 0x1001, length: 3 }), "0. at 0x1001 length = 3");
    assert_eq!(render_line(&ReportEntry { index: 0, rva: 0, length: 0 }), "0. at 0x0 length = 0");
    assert_eq!(
        render_line(&ReportEntry { index: 12, rva: 0xdead_beef, length: 4096 }),
        "12. at 0xdeadbeef length = 4096"
    );
    assert_eq!(
        render_line(&ReportEntry { index: 10, rva: u64::MAX, length: u64::MAX }),
        "10. at 0xffffffffffffffff length = 18446744073709551615"
    );
}

#[test]
fn line_agrees_with_the_standard_formatter() {
    let mut value: u64 = 1;
    for index in 0..300usize {
        value = value.wrapping_mul(6364136223846793005).wrapping_add(1442695040888963407);
        let rva = value >> (index % 64);
        let length = value.rotate_left(17) >> ((index * 7) % 64);
        let entry = ReportEntry { index, rva, length };
        assert_eq!(render_line(&entry), format!("{}. at 0x{:x} length = {}", index, rva, length));
    }
}
