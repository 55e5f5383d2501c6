//! The address translator and the report: each cave under the virtual address
//! at which it stands in the loaded image.

use crate::scan::CaveRecord;
use vstd::prelude::*;
use vstd::string::StringExecFns;

verus! {

/// One line of the report.
#[derive(Clone, Copy, Debug, PartialEq, Eq, Structural)]
pub struct ReportEntry {
    /// Position of the entry in the report, counted from zero.
    pub index: usize,
    /// Virtual address of the first byte of the cave, relative to the image base.
    pub rva: u64,
    /// Number of bytes in the cave.
    pub length: u64,
}

/// The virtual address of the byte at `start_offset` of a section that is
/// loaded at `virtual_address`.
pub open spec fn rva_of(start_offset: int, virtual_address: int) -> int {
    start_offset + virtual_address
}

/// The report entry of cave number `index` of a section loaded at `virtual_address`.
pub open spec fn entry_of(index: int, cave: CaveRecord, virtual_address: u32) -> ReportEntry {
    ReportEntry {
        index: index as usize,
        rva: rva_of(cave.start_offset as int, virtual_address as int) as u64,
        length: cave.length,
    }
}

/// The report of `caves`: one entry for each, in the same order.
pub open spec fn report(caves: Seq<CaveRecord>, virtual_address: u32) -> Seq<ReportEntry> {
    Seq::new(caves.len(), |k: int| entry_of(k, caves[k], virtual_address))
}

/// Every address of the report fits in 64 bits.
pub open spec fn addresses_fit(caves: Seq<CaveRecord>, virtual_address: u32) -> bool {
    forall|k: int|
        0 <= k < caves.len() ==> rva_of(
            (#[trigger] caves[k]).start_offset as int,
            virtual_address as int,
        ) <= u64::MAX
}

/// Translates an offset inside a section into a virtual address.
pub fn translate(start_offset: usize, virtual_address: u32) -> (rva: u64)
    requires
        rva_of(start_offset as int, virtual_address as int) <= u64::MAX,
    ensures
        rva == rva_of(start_offset as int, virtual_address as int),
{
    start_offset as u64 + virtual_address as u64
}

/// Builds the report of `caves` for a section loaded at `virtual_address`.
pub fn build_report(caves: &[CaveRecord], virtual_address: u32) -> (entries: Vec<ReportEntry>)
    requires
        addresses_fit(caves@, virtual_address),
    ensures
        entries@ == report(caves@, virtual_address),
{
    let mut entries: Vec<ReportEntry> = Vec::new();
    let mut index: usize = 0;
    while index < caves.len()
        invariant
            index <= caves.len(),
            addresses_fit(caves@, virtual_address),
            entries@ == report(caves@.take(index as int), virtual_address),
        decreases caves.len() - index,
    {
        let cave = caves[index];
        let rva: u64 = translate(cave.start_offset, virtual_address);
        entries.push(ReportEntry { index, rva, length: cave.length });
        index += 1;
        assert(entries@ == report(caves@.take(index as int), virtual_address));
    }
    assert(caves@.take(index as int) == caves@);
    entries
}

/// The sixteen digits, in order of their value.
pub open spec fn digit_chars() -> Seq<char> {
    seq!['0', '1', '2', '3', '4', '5', '6', '7', '8', '9', 'a', 'b', 'c', 'd', 'e', 'f']
}

/// `value` in decimal, most significant digit first, without leading zeros;
/// zero is the single digit `0`.
pub open spec fn decimal(value: nat) -> Seq<char>
    decreases value,
{
    if value < 10 {
        seq![digit_chars()[value as int]]
    } else {
        decimal(value / 10).push(digit_chars()[(value % 10) as int])
    }
}

/// `value` in lower-case hexadecimal, most significant digit first, without
/// leading zeros; zero is the single digit `0`.
pub open spec fn hexadecimal(value: nat) -> Seq<char>
    decreases value,
{
    if value < 16 {
        seq![digit_chars()[value as int]]
    } else {
        hexadecimal(value / 16).push(digit_chars()[(value % 16) as int])
    }
}

/// The text of a report line: the index in decimal, the address in lower-case
/// hexadecimal behind `0x`, and the length in decimal.
pub open spec fn line_text(entry: ReportEntry) -> Seq<char> {
    decimal(entry.index as nat) + ". at 0x"@ + hexadecimal(entry.rva as nat) + " length = "@
        + decimal(entry.length as nat)
}

/// The digit of value `d`, as a text of one character.
fn digit_text(d: u64) -> (text: &'static str)
    requires
        d < 16,
    ensures
        text@ == seq![digit_chars()[d as int]],
{
    proof {
        reveal_strlit("0");
        reveal_strlit("1");
        reveal_strlit("2");
        reveal_strlit("3");
        reveal_strlit("4");
        reveal_strlit("5");
        reveal_strlit("6");
        reveal_strlit("7");
        reveal_strlit("8");
        reveal_strlit("9");
        reveal_strlit("a");
        reveal_strlit("b");
        reveal_strlit("c");
        reveal_strlit("d");
        reveal_strlit("e");
        reveal_strlit("f");
    }
    let text = match d {
        0 => "0",
        1 => "1",
        2 => "2",
        3 => "3",
        4 => "4",
        5 => "5",
        6 => "6",
        7 => "7",
        8 => "8",
        9 => "9",
        10 => "a",
        11 => "b",
        12 => "c",
        13 => "d",
        14 => "e",
        _ => "f",
    };
    assert(text@ =~= seq![digit_chars()[d as int]]);
    text
}

/// Appends `value` in decimal to `out`.
fn push_decimal(out: &mut String, value: u64)
    ensures
        final(out)@ == old(out)@ + decimal(value as nat),
    decreases value,
{
    if value >= 10 {
        push_decimal(out, value / 10);
    }
    out.append(digit_text(value % 10));
    assert(out@ =~= old(out)@ + decimal(value as nat));
}

/// Appends `value` in lower-case hexadecimal to `out`.
fn push_hexadecimal(out: &mut String, value: u64)
    ensures
        final(out)@ == old(out)@ + hexadecimal(value as nat),
    decreases value,
{
    if value >= 16 {
        push_hexadecimal(out, value / 16);
    }
    out.append(digit_text(value % 16));
    assert(out@ =~= old(out)@ + hexadecimal(value as nat));
}

/// Renders one line of the report, without a line end.
pub fn render_line(entry: &ReportEntry) -> (line: String)
    ensures
        line@ == line_text(*entry),
{
    let mut line = String::new();
    push_decimal(&mut line, entry.index as u64);
    line.append(". at 0x");
    push_hexadecimal(&mut line, entry.rva);
    line.append(" length = ");
    push_decimal(&mut line, entry.length);
    assert(line@ =~= line_text(*entry));
    line
}

} // verus!
