use vstd::prelude::*;

use crate::error::{ErrorKind, OrganizeError};
use crate::number::{all_digits, digits_value, is_digit, parse_u32};
use crate::text::{
    drop_tail, ends_with_str, last_index_of, lemma_last_index_of, push_char, rfind_char,
    spec_ends_with,
};

verus! {

/// Everything the pipeline derives for one source file: the camera
/// session's directory number, the shot's file number, and the
/// filesystem-safe creation timestamp.
#[derive(Debug, Clone)]
pub struct ResolvedMetadata {
    pub directory_number: u32,
    pub file_number: u32,
    /// The raw creation date with `:` replaced by `-` and ` ` by `_`.
    pub timestamp: String,
}

/// The digits left of the camera-vendor suffix in a session directory
/// name such as `100CANON`.
pub open spec fn spec_dir_prefix(parent: Seq<char>) -> Seq<char> {
    parent.subrange(0, parent.len() - "CANON"@.len())
}

/// The directory number encoded in a session directory name: the name
/// must end in `CANON` and the rest must be a decimal number that fits
/// in a `u32`.
pub open spec fn spec_directory_number(parent: Seq<char>) -> Option<nat> {
    if spec_ends_with(parent, "CANON"@) && spec_dir_prefix(parent).len() > 0 && all_digits(
        spec_dir_prefix(parent),
    ) && digits_value(spec_dir_prefix(parent)) <= u32::MAX {
        Some(digits_value(spec_dir_prefix(parent)))
    } else {
        None
    }
}

/// Derive the directory number from the parent directory's name, or
/// report a violation of the camera's naming convention.
pub fn directory_number(parent_name: &str) -> (r: Result<u32, OrganizeError>)
    ensures
        spec_directory_number(parent_name@) matches Some(v) ==> (r matches Ok(n) && n == v),
        spec_directory_number(parent_name@) is None ==> (r matches Err(e) && e.kind
            == ErrorKind::StructureViolation),
{
    if !ends_with_str(parent_name, "CANON") {
        return Err(
            OrganizeError::new(
                ErrorKind::StructureViolation,
                String::from_str("could not determine dir number: ").concat(parent_name),
            ),
        );
    }
    let prefix = drop_tail(parent_name, "CANON");
    match parse_u32(prefix) {
        Some(n) => Ok(n),
        None => Err(
            OrganizeError::new(
                ErrorKind::StructureViolation,
                String::from_str("invalid dir number: ").concat(prefix),
            ),
        ),
    }
}

/// Start of the maximal run of digits that ends just before position `d`.
pub open spec fn digit_run_start(s: Seq<char>, d: int) -> int
    decreases d,
{
    if d <= 0 {
        d
    } else if is_digit(s[d - 1]) {
        digit_run_start(s, d - 1)
    } else {
        d
    }
}

/// `digit_run_start` is determined by: everything from the returned
/// position up to `d` is digits, and the position is either the start of
/// the sequence or preceded by a non-digit.
pub proof fn lemma_digit_run_start(s: Seq<char>, d: int, i: int)
    requires
        0 <= i <= d <= s.len(),
        forall|j: int| i <= j < d ==> is_digit(s[j]),
        i > 0 ==> !is_digit(s[i - 1]),
    ensures
        digit_run_start(s, d) == i,
    decreases d - i,
{
    if d > i {
        lemma_digit_run_start(s, d - 1, i);
    }
}

/// The trailing numeric group of a file name: the digits that stand
/// between an underscore and the final dot, with a non-empty extension
/// after that dot. This is the fixed pattern `.*_([0-9]+)\.[^.]+`
/// anchored to the whole name.
pub open spec fn spec_file_number_capture(name: Seq<char>) -> Option<Seq<char>> {
    let d = last_index_of(name, '.');
    if d < 0 || d + 1 >= name.len() {
        None
    } else {
        let j = digit_run_start(name, d);
        if j < d && j >= 1 && name[j - 1] == '_' {
            Some(name.subrange(j, d))
        } else {
            None
        }
    }
}

/// The file number a file name yields: the captured digit group's value,
/// when there is one and it fits in a `u32`.
pub open spec fn spec_file_number_from_name(name: Seq<char>) -> Option<nat> {
    match spec_file_number_capture(name) {
        Some(c) => if digits_value(c) <= u32::MAX {
            Some(digits_value(c))
        } else {
            None
        },
        None => None,
    }
}

/// Extract the file number from the trailing numeric group of a file
/// name, if the name matches the fixed pattern.
pub fn file_number_from_name(name: &str) -> (r: Option<u32>)
    ensures
        spec_file_number_from_name(name@) matches Some(v) ==> (r matches Some(x) && x == v),
        spec_file_number_from_name(name@) is None ==> r is None,
{
    let n = name.unicode_len();
    let d = match rfind_char(name, '.') {
        Some(d) => d,
        None => {
            return None;
        },
    };
    proof {
        lemma_last_index_of(name@, '.');
    }
    if d + 1 >= n {
        return None;
    }
    let mut i: usize = d;
    let mut hit_non_digit = false;
    while i > 0 && !hit_non_digit
        invariant
            n == name@.len(),
            d < n,
            i <= d,
            forall|j: int| i <= j < d ==> is_digit(name@[j]),
            hit_non_digit ==> i > 0 && !is_digit(name@[i - 1]),
        decreases i + (if hit_non_digit { 0int } else { 1int }),
    {
        let c = name.get_char(i - 1);
        let u = c as u32;
        if u < 48 || u > 57 {
            hit_non_digit = true;
        } else {
            i -= 1;
        }
    }
    proof {
        lemma_digit_run_start(name@, d as int, i as int);
    }
    if i < d && i >= 1 && name.get_char(i - 1) == '_' {
        let capture = name.substring_char(i, d);
        parse_u32(capture)
    } else {
        None
    }
}

/// The transformation that makes a raw timestamp filesystem-safe:
/// `:` becomes `-` and ` ` becomes `_`.
pub open spec fn transform_char(c: char) -> char {
    if c == ':' {
        '-'
    } else if c == ' ' {
        '_'
    } else {
        c
    }
}

/// Character-wise filesystem-safe transformation of a timestamp.
pub open spec fn transform_seq(s: Seq<char>) -> Seq<char> {
    s.map_values(|c: char| transform_char(c))
}

/// Make a raw creation date filesystem-safe.
pub fn transform_timestamp(s: &str) -> (r: String)
    ensures
        r@ == transform_seq(s@),
{
    let n = s.unicode_len();
    let mut out = String::new();
    let mut i: usize = 0;
    while i < n
        invariant
            n == s@.len(),
            i <= n,
            out@.len() == i,
            forall|j: int| 0 <= j < i ==> out@[j] == transform_char(s@[j]),
        decreases n - i,
    {
        let c = s.get_char(i);
        let t = if c == ':' {
            '-'
        } else if c == ' ' {
            '_'
        } else {
            c
        };
        push_char(&mut out, t);
        i += 1;
    }
    proof {
        assert(out@ =~= transform_seq(s@));
    }
    out
}

/// A string parses as a `u32`: non-empty, all digits, value in range.
pub open spec fn spec_parses_u32(s: Seq<char>) -> bool {
    s.len() > 0 && all_digits(s) && digits_value(s) <= u32::MAX
}

/// The file number for one source file, from its two independent
/// sources: the externally extracted index field is preferred; the
/// trailing numeric group of the file name is the fallback.
pub open spec fn spec_resolve_file_number(exif_index: Seq<char>, name: Seq<char>) -> Option<nat> {
    if spec_parses_u32(exif_index) {
        Some(digits_value(exif_index))
    } else {
        spec_file_number_from_name(name)
    }
}

/// Resolve the file number, preferring the metadata index field and
/// falling back to the file name; when both fail the run must abort.
pub fn resolve_file_number(exif_file_index: &str, file_name: &str) -> (r: Result<
    u32,
    OrganizeError,
>)
    ensures
        spec_resolve_file_number(exif_file_index@, file_name@) matches Some(v) ==> (r matches Ok(x)
            && x == v),
        spec_resolve_file_number(exif_file_index@, file_name@) is None ==> (r matches Err(e)
            && e.kind == ErrorKind::MetadataUnavailable),
{
    match parse_u32(exif_file_index) {
        Some(n) => Ok(n),
        None => match file_number_from_name(file_name) {
            Some(n) => Ok(n),
            None => Err(
                OrganizeError::new(
                    ErrorKind::MetadataUnavailable,
                    String::from_str("could not determine file number: ").concat(
                        file_name,
                    ).concat(" with index field ").concat(exif_file_index),
                ),
            ),
        },
    }
}

/// Resolve everything the composer needs for one source file, or report
/// the first fatal condition: a parent directory that breaks the naming
/// convention, then an unresolvable file number.
pub fn resolve_metadata(
    file_name: &str,
    parent_name: &str,
    exif_file_index: &str,
    exif_create_date: &str,
) -> (r: Result<ResolvedMetadata, OrganizeError>)
    ensures
        spec_directory_number(parent_name@) is None ==> (r matches Err(e) && e.kind
            == ErrorKind::StructureViolation),
        spec_directory_number(parent_name@) is Some && spec_resolve_file_number(
            exif_file_index@,
            file_name@,
        ) is None ==> (r matches Err(e) && e.kind == ErrorKind::MetadataUnavailable),
        spec_directory_number(parent_name@) matches Some(dn) ==> spec_resolve_file_number(
            exif_file_index@,
            file_name@,
        ) matches Some(fnum) ==> (r matches Ok(m) && m.directory_number == dn && m.file_number
            == fnum && m.timestamp@ == transform_seq(exif_create_date@)),
{
    let dn = match directory_number(parent_name) {
        Ok(dn) => dn,
        Err(e) => {
            return Err(e);
        },
    };
    let fnum = match resolve_file_number(exif_file_index, file_name) {
        Ok(fnum) => fnum,
        Err(e) => {
            return Err(e);
        },
    };
    let ts = transform_timestamp(exif_create_date);
    Ok(ResolvedMetadata { directory_number: dn, file_number: fnum, timestamp: ts })
}

} // verus!
