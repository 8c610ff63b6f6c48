use vstd::prelude::*;

use crate::compose::{
    canonical_target, spec_canonical_filename, spec_date_part, spec_join, CanonicalTarget,
};
use crate::error::{ErrorKind, OrganizeError};
use crate::resolve::{spec_directory_number, spec_resolve_file_number, transform_seq};
use crate::scan::{extension_of, has_allowed_extension, spec_extension, spec_has_allowed_extension};
use crate::text::{str_eq, to_lowercase, lower_seq};

verus! {

/// What the scanner decides about one candidate file before any
/// external metadata is fetched.
#[derive(Debug)]
pub enum ScreenDecision {
    /// The extension is outside the allow-set: report, do not copy, do
    /// not abort.
    Skip,
    /// The file is to be processed; the directory structure was checked
    /// and these values feed the later stages.
    Process { directory_number: u32, extension_lower: String },
}

/// Screen one source file against the extension filter and the fixed
/// camera directory convention. Files outside the allow-set are skipped
/// and never cause an abort; for files inside it, the grandparent must
/// be `DCIM` and the parent must encode a directory number.
pub fn screen_file(
    file_name: &str,
    parent_name: &str,
    grandparent_name: &str,
    allowed: &Vec<String>,
) -> (r: Result<ScreenDecision, OrganizeError>)
    ensures
        !spec_has_allowed_extension(file_name@, allowed.deep_view()) ==> (r matches Ok(d)
            && d is Skip),
        spec_has_allowed_extension(file_name@, allowed.deep_view()) && grandparent_name@ != "DCIM"@
            ==> (r matches Err(e) && e.kind == ErrorKind::StructureViolation),
        spec_has_allowed_extension(file_name@, allowed.deep_view()) && grandparent_name@ == "DCIM"@
            && spec_directory_number(parent_name@) is None ==> (r matches Err(e) && e.kind
            == ErrorKind::StructureViolation),
        spec_has_allowed_extension(file_name@, allowed.deep_view()) && grandparent_name@ == "DCIM"@
            ==> (spec_directory_number(parent_name@) matches Some(dn) ==> (r matches Ok(d)
            && d matches ScreenDecision::Process { directory_number, extension_lower }
            && directory_number == dn && (spec_extension(file_name@) matches Some(ext)
            && extension_lower@ == lower_seq(ext)))),
{
    if !has_allowed_extension(file_name, allowed) {
        return Ok(ScreenDecision::Skip);
    }
    if !str_eq(grandparent_name, "DCIM") {
        return Err(
            OrganizeError::new(
                ErrorKind::StructureViolation,
                String::from_str("unexpected directory structure: ").concat(grandparent_name),
            ),
        );
    }
    let dn = match crate::resolve::directory_number(parent_name) {
        Ok(dn) => dn,
        Err(e) => {
            return Err(e);
        },
    };
    // The filter passed, so the file name has an extension.
    let ext = match extension_of(file_name) {
        Some(e) => e,
        None => vstd::pervasive::unreached(),
    };
    let ext_lower = to_lowercase(ext.as_str());
    Ok(ScreenDecision::Process { directory_number: dn, extension_lower: ext_lower })
}

/// Finish one screened file once the external metadata extraction has
/// answered: resolve the file number and compose the canonical target.
pub fn finish_file(
    dst_base_dir: &str,
    file_name: &str,
    directory_number: u32,
    extension_lower: &str,
    exif_file_index: &str,
    exif_create_date: &str,
) -> (r: Result<CanonicalTarget, OrganizeError>)
    ensures
        spec_resolve_file_number(exif_file_index@, file_name@) is None ==> (r matches Err(e)
            && e.kind == ErrorKind::MetadataUnavailable),
        spec_resolve_file_number(exif_file_index@, file_name@) matches Some(fnum) ==> (r matches Ok(
            t,
        ) && t.filename@ == spec_canonical_filename(
            transform_seq(exif_create_date@),
            directory_number as nat,
            fnum,
            extension_lower@,
        ) && t.dir@ == spec_join(
            dst_base_dir@,
            spec_date_part(transform_seq(exif_create_date@)),
        ) && t.path@ == spec_join(t.dir@, t.filename@)),
{
    let fnum = match crate::resolve::resolve_file_number(exif_file_index, file_name) {
        Ok(n) => n,
        Err(e) => {
            return Err(e);
        },
    };
    let ts = crate::resolve::transform_timestamp(exif_create_date);
    let meta = crate::resolve::ResolvedMetadata {
        directory_number,
        file_number: fnum,
        timestamp: ts,
    };
    Ok(canonical_target(dst_base_dir, &meta, extension_lower))
}

} // verus!
