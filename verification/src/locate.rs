//! The section locator and the section slicer: which entry of the section
//! table is the code section, and which bytes of the file are its raw data.

use crate::error::ScanError;
use crate::image::{
    resolve_name, section_name, section_views, Image, SectionDescriptor, SectionView,
};
use vstd::prelude::*;
use vstd::slice::slice_subrange;

verus! {

/// The name of the code section.
pub const CODE_SECTION_NAME: &'static str = ".text";

/// The section's name is exactly `target`: same characters, same case.
pub open spec fn has_name(section: SectionView, target: Seq<char>) -> bool {
    section_name(section) == Some(target)
}

/// Entry `i` is the first entry of `sections` that is named `target`.
pub open spec fn is_first_named(sections: Seq<SectionView>, target: Seq<char>, i: int) -> bool {
    &&& 0 <= i < sections.len()
    &&& has_name(sections[i], target)
    &&& forall|j: int| 0 <= j < i ==> !has_name(#[trigger] sections[j], target)
}

/// The index of the first entry that is named `target`, if there is one.
pub open spec fn first_named(sections: Seq<SectionView>, target: Seq<char>) -> Option<int> {
    if exists|i: int| is_first_named(sections, target, i) {
        Some(choose|i: int| is_first_named(sections, target, i))
    } else {
        None
    }
}

/// The raw data of `section` lies inside a file of `file_len` bytes.
pub open spec fn section_in_bounds(file_len: nat, section: SectionView) -> bool {
    section.raw_data_pointer + section.raw_data_size <= file_len
}

/// The bytes of `file` that are the raw data of `section`.
pub open spec fn section_bytes(file: Seq<u8>, section: SectionView) -> Seq<u8> {
    file.subrange(
        section.raw_data_pointer as int,
        section.raw_data_pointer + section.raw_data_size,
    )
}

/// At most one entry is the first one of its name.
pub proof fn lemma_first_named_unique(
    sections: Seq<SectionView>,
    target: Seq<char>,
    i: int,
    j: int,
)
    requires
        is_first_named(sections, target, i),
        is_first_named(sections, target, j),
    ensures
        i == j,
        first_named(sections, target) == Some(i),
{
    let chosen = choose|k: int| is_first_named(sections, target, k);
    if chosen < i {
        assert(!has_name(sections[chosen], target));
    }
    if i < chosen {
        assert(!has_name(sections[i], target));
    }
    if j < i {
        assert(!has_name(sections[j], target));
    }
    if i < j {
        assert(!has_name(sections[i], target));
    }
}

/// Where no entry has the name, none is the first of that name, and the reverse.
pub proof fn lemma_first_named_none(sections: Seq<SectionView>, target: Seq<char>)
    ensures
        first_named(sections, target) is None <==> forall|j: int|
            0 <= j < sections.len() ==> !has_name(#[trigger] sections[j], target),
{
    if exists|j: int| 0 <= j < sections.len() && has_name(#[trigger] sections[j], target) {
        let j = choose|j: int| 0 <= j < sections.len() && has_name(#[trigger] sections[j], target);
        lemma_some_first_named(sections, target, j);
    }
}

/// Below an entry that has the name stands a first entry of that name.
proof fn lemma_some_first_named(sections: Seq<SectionView>, target: Seq<char>, j: int)
    requires
        0 <= j < sections.len(),
        has_name(sections[j], target),
    ensures
        exists|i: int| is_first_named(sections, target, i),
    decreases j,
{
    if exists|k: int| 0 <= k < j && has_name(#[trigger] sections[k], target) {
        let k = choose|k: int| 0 <= k < j && has_name(#[trigger] sections[k], target);
        lemma_some_first_named(sections, target, k);
    } else {
        assert(is_first_named(sections, target, j));
    }
}

/// Finds the first entry of `sections` whose name is exactly `target`.
pub fn find_section(sections: &[SectionDescriptor], target: &str) -> (found: Option<usize>)
    ensures
        match found {
            Some(i) => {
                &&& is_first_named(section_views(sections@), target@, i as int)
                &&& first_named(section_views(sections@), target@) == Some(i as int)
            },
            None => {
                &&& first_named(section_views(sections@), target@) is None
                &&& forall|j: int|
                    0 <= j < sections.len() ==> !has_name(
                        #[trigger] section_views(sections@)[j],
                        target@,
                    )
            },
        },
{
    let wanted = target.to_owned();
    let mut i: usize = 0;
    while i < sections.len()
        invariant
            i <= sections.len(),
            wanted@ == target@,
            forall|j: int| 0 <= j < i ==> !has_name(#[trigger] section_views(sections@)[j], target@),
        decreases sections.len() - i,
    {
        let name = resolve_name(&sections[i]);
        let hit = match name {
            Some(name) => name == wanted,
            None => false,
        };
        if hit {
            proof {
                lemma_first_named_unique(section_views(sections@), target@, i as int, i as int);
            }
            return Some(i);
        }
        i += 1;
    }
    proof {
        lemma_first_named_none(section_views(sections@), target@);
    }
    None
}

/// Finds the code section of `image`: the first section named `.text`.
pub fn find_text_section(image: &Image) -> (found: Result<&SectionDescriptor, ScanError>)
    ensures
        match found {
            Ok(section) => first_named(image@.sections, CODE_SECTION_NAME@) matches Some(i)
                && *section == image.sections[i],
            Err(e) => e == ScanError::SectionNotFound && first_named(
                image@.sections,
                CODE_SECTION_NAME@,
            ) is None,
        },
{
    match find_section(image.sections.as_slice(), CODE_SECTION_NAME) {
        Some(i) => Ok(&image.sections[i]),
        None => Err(ScanError::SectionNotFound),
    }
}

/// Cuts the raw data of `section` out of `file`.
///
/// A section whose raw data does not lie inside the file is an error; it is
/// never shortened to what the file holds.
pub fn slice_section<'a>(file: &'a [u8], section: &SectionDescriptor) -> (cut: Result<
    &'a [u8],
    ScanError,
>)
    ensures
        match cut {
            Ok(text) => section_in_bounds(file@.len(), section@) && text@ == section_bytes(
                file@,
                section@,
            ),
            Err(e) => e == ScanError::OutOfBounds && !section_in_bounds(file@.len(), section@),
        },
{
    let offset: usize = section.raw_data_pointer as usize;
    let size: usize = section.raw_data_size as usize;
    let file_len: usize = file.len();
    match offset.checked_add(size) {
        Some(end) => {
            if end <= file_len {
                Ok(slice_subrange(file, offset, end))
            } else {
                Err(ScanError::OutOfBounds)
            }
        },
        None => Err(ScanError::OutOfBounds),
    }
}

} // verus!
