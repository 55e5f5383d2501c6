//! The executable image as the scan sees it: the architecture flag and the
//! ordered section table. The `goblin` crate reads the headers and the
//! section table out of the file's bytes; where the table stands and what the
//! headers say of the architecture is decided here.

use vstd::prelude::*;
use vstd::utf8::{
    decode_utf8, encode_utf8, encode_utf8_decode_utf8, encode_utf8_valid_utf8, valid_utf8,
};

verus! {

/// One entry of an image's section table.
#[derive(Clone, Debug, PartialEq, Eq)]
pub struct SectionDescriptor {
    /// The name field of the entry as it stands in the file: eight bytes,
    /// padded with zero bytes where the name is shorter.
    pub name: [u8; 8],
    /// The full name, where the name field only refers to the string table.
    pub real_name: Option<String>,
    /// Address of the section in the loaded image, relative to the image base.
    pub virtual_address: u32,
    /// Offset of the section's raw data in the file.
    pub raw_data_pointer: u32,
    /// Number of bytes of raw data.
    pub raw_data_size: u32,
}

/// What the scan reads of an image's headers.
#[derive(Clone, Copy, Debug, PartialEq, Eq)]
pub struct ImageHeader {
    /// File offset of the signature that stands before the COFF header.
    pub pe_pointer: u32,
    /// Number of entries of the section table.
    pub number_of_sections: u16,
    /// File offset of the COFF symbol table, behind which the string table stands.
    pub pointer_to_symbol_table: u32,
    /// Number of entries of the COFF symbol table.
    pub number_of_symbols: u32,
    /// Number of bytes of the optional header, which stands between the COFF
    /// header and the section table.
    pub size_of_optional_header: u16,
    /// The magic number of the optional header, where the image has one.
    pub optional_magic: Option<u16>,
}

/// Why the bytes of a file are not an image.
#[derive(Clone, Debug, PartialEq, Eq)]
pub struct ParseFailure {
    /// The reason in words, for the user.
    pub reason: String,
}

/// A parsed image: what the scan reads of it.
#[derive(Clone, Debug, PartialEq, Eq)]
pub struct Image {
    /// Whether the image is a 64-bit image.
    pub is_64: bool,
    /// The section table, in file order.
    pub sections: Vec<SectionDescriptor>,
}

/// Mathematical model of a [`SectionDescriptor`].
pub struct SectionView {
    pub name: Seq<u8>,
    pub real_name: Option<Seq<char>>,
    pub virtual_address: u32,
    pub raw_data_pointer: u32,
    pub raw_data_size: u32,
}

/// Mathematical model of an [`Image`].
pub struct ImageView {
    pub is_64: bool,
    pub sections: Seq<SectionView>,
}

/// The characters of an optional string.
pub open spec fn text_of(s: Option<String>) -> Option<Seq<char>> {
    match s {
        Some(s) => Some(s@),
        None => None,
    }
}

impl View for SectionDescriptor {
    type V = SectionView;

    open spec fn view(&self) -> SectionView {
        SectionView {
            name: self.name@,
            real_name: text_of(self.real_name),
            virtual_address: self.virtual_address,
            raw_data_pointer: self.raw_data_pointer,
            raw_data_size: self.raw_data_size,
        }
    }
}

/// The models of a table's entries, in order.
pub open spec fn section_views(sections: Seq<SectionDescriptor>) -> Seq<SectionView> {
    sections.map_values(|s: SectionDescriptor| s@)
}

impl View for Image {
    type V = ImageView;

    open spec fn view(&self) -> ImageView {
        ImageView { is_64: self.is_64, sections: section_views(self.sections@) }
    }
}

/// The bytes of a name field that stand before its first zero byte.
pub open spec fn inline_name(raw: Seq<u8>) -> Seq<u8>
    decreases raw.len(),
{
    if raw.len() == 0 || raw[0] == 0 {
        Seq::empty()
    } else {
        seq![raw[0]] + inline_name(raw.drop_first())
    }
}

/// The name of a section: its full name where it has one, else the text of
/// its name field up to the first zero byte. A name field that is not valid
/// UTF-8 gives no name.
pub open spec fn section_name(section: SectionView) -> Option<Seq<char>> {
    match section.real_name {
        Some(name) => Some(name),
        None => if valid_utf8(inline_name(section.name)) {
            Some(decode_utf8(inline_name(section.name)))
        } else {
            None
        },
    }
}

/// The bytes before the first zero byte are the first `n` bytes, where none
/// of those is zero and the field ends there or a zero byte follows.
pub proof fn lemma_inline_name(raw: Seq<u8>, n: int)
    requires
        0 <= n <= raw.len(),
        forall|i: int| 0 <= i < n ==> raw[i] != 0,
        n == raw.len() || raw[n] == 0,
    ensures
        inline_name(raw) == raw.take(n),
    decreases n,
{
    if n == 0 {
        assert(raw.take(0) == Seq::<u8>::empty());
    } else {
        let rest = raw.drop_first();
        assert forall|i: int| 0 <= i < n - 1 implies rest[i] != 0 by {
            assert(rest[i] == raw[i + 1]);
        }
        lemma_inline_name(rest, n - 1);
        assert(raw.take(n) == seq![raw[0]] + rest.take(n - 1));
    }
}

/// A section without a full name is named by its name field: where the field
/// holds the UTF-8 bytes of `name`, none of them zero, up to its end or to a
/// zero byte, the section's name is `name`.
pub proof fn lemma_name_of_field(section: SectionView, name: Seq<char>)
    requires
        section.real_name is None,
        encode_utf8(name).len() <= section.name.len(),
        section.name.take(encode_utf8(name).len() as int) == encode_utf8(name),
        forall|i: int| 0 <= i < encode_utf8(name).len() ==> encode_utf8(name)[i] != 0,
        encode_utf8(name).len() == section.name.len() || section.name[encode_utf8(name).len() as int]
            == 0,
    ensures
        section_name(section) == Some(name),
{
    let bytes = encode_utf8(name);
    assert forall|i: int| 0 <= i < bytes.len() implies section.name[i] != 0 by {
        assert(section.name.take(bytes.len() as int)[i] == bytes[i]);
    }
    lemma_inline_name(section.name, bytes.len() as int);
    encode_utf8_valid_utf8(name);
    encode_utf8_decode_utf8(name);
}

/// Number of bytes of the signature that stands before the COFF header.
pub const SIZEOF_SIGNATURE: u64 = 4;

/// Number of bytes of the COFF header.
pub const SIZEOF_COFF_HEADER: u64 = 20;

/// The magic number of the optional header of a 32-bit image.
pub const MAGIC_32: u16 = 0x10b;

/// The magic number of the optional header of a 64-bit image.
pub const MAGIC_64: u16 = 0x20b;

/// File offset of the section table: it follows the signature, the COFF
/// header and the optional header.
pub open spec fn table_offset(header: ImageHeader) -> int {
    header.pe_pointer + SIZEOF_SIGNATURE + SIZEOF_COFF_HEADER + header.size_of_optional_header
}

/// What the optional header says of the architecture: an image without one
/// is no 64-bit image, and a magic number that is neither of the two known
/// ones says nothing.
pub open spec fn width_of(optional_magic: Option<u16>) -> Option<bool> {
    match optional_magic {
        None => Some(false),
        Some(magic) => if magic == MAGIC_64 {
            Some(true)
        } else if magic == MAGIC_32 {
            Some(false)
        } else {
            None
        },
    }
}

/// The image with the given section table, where the optional header tells
/// its architecture.
pub open spec fn assembled(optional_magic: Option<u16>, sections: Seq<SectionView>) -> Option<
    ImageView,
> {
    match width_of(optional_magic) {
        Some(is_64) => Some(ImageView { is_64, sections }),
        None => None,
    }
}

/// The headers that `goblin` reads out of a file's bytes, or nothing where it
/// rejects them.
pub uninterp spec fn parsed_header(bytes: Seq<u8>) -> Option<ImageHeader>;

/// The section table that `goblin` reads out of a file's bytes: `count`
/// entries from `offset` on, with the string table behind a symbol table of
/// `symbols` entries at `symbol_table`; nothing where it rejects them.
pub uninterp spec fn parsed_sections(
    bytes: Seq<u8>,
    offset: usize,
    count: u16,
    symbol_table: u32,
    symbols: u32,
) -> Option<Seq<SectionView>>;

/// The image that a file's bytes hold: the headers, then the section table
/// where the headers say it stands, then the architecture. The table is
/// read on hosts with 64-bit addresses only.
pub open spec fn parsed_image(bytes: Seq<u8>) -> Option<ImageView> {
    match parsed_header(bytes) {
        None => None,
        Some(header) => if usize::BITS != 64 {
            None
        } else {
            match parsed_sections(
                bytes,
                table_offset(header) as usize,
                header.number_of_sections,
                header.pointer_to_symbol_table,
                header.number_of_symbols,
            ) {
                None => None,
                Some(sections) => assembled(header.optional_magic, sections),
            }
        },
    }
}

/// The error of the `goblin` crate, `goblin::error::Error`. Its value is
/// carried from the parser to the caller and never looked into.
#[verifier::external_type_specification]
#[verifier::external_body]
pub struct ExParseFailure(goblin::error::Error);

/// Calls `goblin::pe::header::Header::parse` and copies six fields out of its
/// result: the pointer of the DOS header, four fields of the COFF header and
/// the magic number of the optional header.
///
/// The contract gives the result a name, `parsed_header`: the parser reads
/// the bytes and nothing else. By goblin's source it reads them through
/// bounds-checked reads and slices only where it has compared the bounds
/// with the length before, so it returns on every input.
#[verifier::external_body]
fn read_header(buffer: &[u8]) -> (read: Result<ImageHeader, goblin::error::Error>)
    ensures
        match read {
            Ok(header) => parsed_header(buffer@) == Some(header),
            Err(_) => parsed_header(buffer@) is None,
        },
{
    let header = goblin::pe::header::Header::parse(buffer)?;
    Ok(ImageHeader {
        pe_pointer: header.dos_header.pe_pointer,
        number_of_sections: header.coff_header.number_of_sections,
        pointer_to_symbol_table: header.coff_header.pointer_to_symbol_table,
        number_of_symbols: header.coff_header.number_of_symbol_table,
        size_of_optional_header: header.coff_header.size_of_optional_header,
        optional_magic: header.optional_header.map(|optional| optional.standard_fields.magic),
    })
}

/// Calls `goblin::pe::header::CoffHeader::sections` on a COFF header with
/// the given three fields, from `offset` on, and copies out of each entry, in
/// order, the name field, the full name, the virtual address and the place
/// and size of the raw data.
///
/// The contract gives the result a name, `parsed_sections`. By goblin's
/// source the call reads the bytes through bounds-checked reads only. Its
/// own arithmetic on the offsets of the string table stays below 2^38, so
/// the contract asks for 64-bit addresses, with which it cannot overflow.
#[verifier::external_body]
fn read_sections(
    buffer: &[u8],
    offset: usize,
    count: u16,
    symbol_table: u32,
    symbols: u32,
) -> (read: Result<Vec<SectionDescriptor>, goblin::error::Error>)
    requires
        usize::BITS == 64,
    ensures
        match read {
            Ok(sections) => parsed_sections(buffer@, offset, count, symbol_table, symbols) == Some(
                section_views(sections@),
            ),
            Err(_) => parsed_sections(buffer@, offset, count, symbol_table, symbols) is None,
        },
{
    let coff = goblin::pe::header::CoffHeader {
        number_of_sections: count,
        pointer_to_symbol_table: symbol_table,
        number_of_symbol_table: symbols,
        ..Default::default()
    };
    let mut at = offset;
    let tables = coff.sections(buffer, &mut at)?;
    Ok(tables.into_iter().map(|table| SectionDescriptor {
        name: table.name,
        real_name: table.real_name,
        virtual_address: table.virtual_address,
        raw_data_pointer: table.pointer_to_raw_data,
        raw_data_size: table.size_of_raw_data,
    }).collect())
}

/// Calls `goblin::pe::optional_header::OptionalHeader::container` on an
/// optional header with the given magic number.
///
/// By goblin's source the method looks at the magic number only: `0x20b` is
/// the big container, `0x10b` the little one, and any other number an error.
#[verifier::external_body]
fn container_is_big(magic: u16) -> (read: Result<bool, goblin::error::Error>)
    ensures
        match read {
            Ok(big) => width_of(Some(magic)) == Some(big),
            Err(_) => width_of(Some(magic)) is None,
        },
{
    let optional = goblin::pe::optional_header::OptionalHeader {
        standard_fields: goblin::pe::optional_header::StandardFields { magic, ..Default::default() },
        windows_fields: Default::default(),
        data_directories: Default::default(),
    };
    Ok(match optional.container()? {
        goblin::container::Container::Big => true,
        goblin::container::Container::Little => false,
    })
}

/// Calls `to_string` on an error of `goblin`, which writes it out through
/// goblin's `Display`. Nothing is claimed of the text.
#[verifier::external_body]
fn reason_of(error: &goblin::error::Error) -> (reason: String) {
    error.to_string()
}

/// Calls `goblin::pe::section_table::SectionTable::name` on a table entry
/// with the given name field and full name.
///
/// By goblin's source the method returns the full name where there is one.
/// Otherwise it reads the name field up to its first zero byte, or to its end,
/// and fails where those bytes are not valid UTF-8; the failure comes back
/// here as `None`.
#[verifier::external_body]
pub(crate) fn resolve_name(section: &SectionDescriptor) -> (name: Option<String>)
    ensures
        text_of(name) == section_name(section@),
{
    let table = goblin::pe::section_table::SectionTable {
        name: section.name,
        real_name: section.real_name.clone(),
        ..Default::default()
    };
    table.name().ok().map(String::from)
}

/// File offset of the section table of an image with the given headers.
pub fn section_table_offset(header: &ImageHeader) -> (offset: u64)
    ensures
        offset == table_offset(*header),
{
    header.pe_pointer as u64 + SIZEOF_SIGNATURE + SIZEOF_COFF_HEADER
        + header.size_of_optional_header as u64
}

/// Makes the image out of its section table and the magic number of its
/// optional header, which tells the architecture.
///
/// A magic number that is neither of the two known ones is a failure.
pub fn assemble_image(optional_magic: Option<u16>, sections: Vec<SectionDescriptor>) -> (made:
    Result<Image, ParseFailure>)
    ensures
        match made {
            Ok(image) => assembled(optional_magic, section_views(sections@)) == Some(image@),
            Err(_) => assembled(optional_magic, section_views(sections@)) is None,
        },
{
    let is_64 = match optional_magic {
        None => false,
        Some(magic) => match container_is_big(magic) {
            Ok(big) => big,
            Err(e) => {
                return Err(ParseFailure { reason: reason_of(&e) });
            },
        },
    };
    Ok(Image { is_64, sections })
}

/// Parses the bytes of a file as an executable image.
///
/// `goblin` reads the headers, and the section table from where the headers
/// say it stands. What it rejects is a failure, and so is every file on a
/// host without 64-bit addresses.
pub fn parse_image(buffer: &[u8]) -> (parsed: Result<Image, ParseFailure>)
    ensures
        match parsed {
            Ok(image) => parsed_image(buffer@) == Some(image@),
            Err(_) => parsed_image(buffer@) is None,
        },
{
    let header = match read_header(buffer) {
        Ok(header) => header,
        Err(e) => {
            return Err(ParseFailure { reason: reason_of(&e) });
        },
    };
    if usize::BITS != 64 {
        return Err(ParseFailure { reason: "images are read on 64-bit hosts only".to_owned() });
    }
    let offset: u64 = section_table_offset(&header);
    let read = read_sections(
        buffer,
        offset as usize,
        header.number_of_sections,
        header.pointer_to_symbol_table,
        header.number_of_symbols,
    );
    match read {
        Ok(sections) => assemble_image(header.optional_magic, sections),
        Err(e) => Err(ParseFailure { reason: reason_of(&e) }),
    }
}

} // verus!
