//! Validation of file-type suffixes and suffix matching on file paths.

use vstd::prelude::*;

verus! {

/// The byte value of a lower-case `a`.
pub const LOWER_A: u8 = 97;

/// The byte value of a lower-case `z`.
pub const LOWER_Z: u8 = 122;

/// The byte value of an upper-case `A`.
pub const UPPER_A: u8 = 65;

/// The byte value of an upper-case `Z`.
pub const UPPER_Z: u8 = 90;

/// The byte value of a dot.
pub const DOT: u8 = 46;

/// An ASCII letter, lower or upper case.
pub open spec fn spec_is_letter(c: u8) -> bool {
    (LOWER_A <= c && c <= LOWER_Z) || (UPPER_A <= c && c <= UPPER_Z)
}

/// A valid file-type suffix: a dot followed by one or more letters.
pub open spec fn spec_valid_file_type(s: Seq<u8>) -> bool {
    &&& s.len() >= 2
    &&& s[0] == DOT
    &&& forall|k: int| 1 <= k < s.len() ==> spec_is_letter(#[trigger] s[k])
}

pub fn is_letter(c: u8) -> (r: bool)
    ensures
        r == spec_is_letter(c),
{
    (LOWER_A <= c && c <= LOWER_Z) || (UPPER_A <= c && c <= UPPER_Z)
}

pub fn is_valid_file_type(file_type: &Vec<u8>) -> (r: bool)
    ensures
        r == spec_valid_file_type(file_type@),
{
    if file_type.len() < 2 {
        return false;
    }
    if file_type[0] != DOT {
        return false;
    }
    let mut k: usize = 1;
    while k < file_type.len()
        invariant
            1 <= k <= file_type@.len(),
            file_type@.len() >= 2,
            file_type@[0] == DOT,
            forall|m: int| 1 <= m < k ==> spec_is_letter(#[trigger] file_type@[m]),
        decreases file_type@.len() - k,
    {
        if !is_letter(file_type[k]) {
            return false;
        }
        k += 1;
    }
    true
}

/// `suffix` occurs at the very end of `s`.
pub open spec fn spec_is_suffix(suffix: Seq<u8>, s: Seq<u8>) -> bool {
    &&& suffix.len() <= s.len()
    &&& forall|k: int|
        0 <= k < suffix.len() ==> s[s.len() - suffix.len() + k] == #[trigger] suffix[k]
}

/// Some file type in the list is a suffix of the path.
pub open spec fn spec_has_qualifying_suffix(path: Seq<u8>, file_types: Seq<Vec<u8>>) -> bool {
    exists|j: int| 0 <= j < file_types.len() && spec_is_suffix((#[trigger] file_types[j])@, path)
}

/// Suffix test: does `s` end with `suffix`?
pub fn ends_with(s: &Vec<u8>, suffix: &Vec<u8>) -> (r: bool)
    ensures
        r == spec_is_suffix(suffix@, s@),
{
    if suffix.len() > s.len() {
        return false;
    }
    let start: usize = s.len() - suffix.len();
    let mut k: usize = 0;
    while k < suffix.len()
        invariant
            s@.len() <= usize::MAX,
            start == s@.len() - suffix@.len(),
            suffix@.len() <= s@.len(),
            k <= suffix@.len(),
            forall|m: int| 0 <= m < k ==> s@[start + m] == #[trigger] suffix@[m],
        decreases suffix@.len() - k,
    {
        if s[start + k] != suffix[k] {
            return false;
        }
        k += 1;
    }
    true
}

/// Whether a file path qualifies for counting: it ends with one of the
/// configured file-type suffixes.
pub fn path_has_qualifying_suffix(path: &Vec<u8>, file_types: &Vec<Vec<u8>>) -> (r: bool)
    ensures
        r == spec_has_qualifying_suffix(path@, file_types@),
{
    let mut j: usize = 0;
    while j < file_types.len()
        invariant
            j <= file_types@.len(),
            forall|m: int| 0 <= m < j ==> !spec_is_suffix((#[trigger] file_types@[m])@, path@),
        decreases file_types@.len() - j,
    {
        if ends_with(path, &file_types[j]) {
            return true;
        }
        j += 1;
    }
    false
}

} // verus!
