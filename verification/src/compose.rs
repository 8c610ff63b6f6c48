use vstd::prelude::*;

use crate::number::{dec_digits, u32_to_string};
use crate::resolve::ResolvedMetadata;
use crate::text::{find_char, first_index_of, push_char};

verus! {

/// A composed destination: the date directory under the base, the
/// canonical file name, and the full target path.
#[derive(Debug)]
pub struct CanonicalTarget {
    pub dir: String,
    pub filename: String,
    pub path: String,
}

/// The canonical file name:
/// `<transformed-timestamp>_<directory-number>-<file-number>.<lowercased-extension>`.
pub open spec fn spec_canonical_filename(
    ts: Seq<char>,
    dir_number: nat,
    file_number: nat,
    ext_lower: Seq<char>,
) -> Seq<char> {
    ts + seq!['_'] + dec_digits(dir_number) + seq!['-'] + dec_digits(file_number) + seq!['.']
        + ext_lower
}

/// The date portion of a transformed timestamp: everything before the
/// first underscore, or the whole string when there is none.
pub open spec fn spec_date_part(ts: Seq<char>) -> Seq<char> {
    let i = first_index_of(ts, '_');
    if i < 0 {
        ts
    } else {
        ts.subrange(0, i)
    }
}

/// Two path components joined by a single separator.
pub open spec fn spec_join(a: Seq<char>, b: Seq<char>) -> Seq<char> {
    a + seq!['/'] + b
}

/// Canonical naming is deterministic: metadata that agrees on timestamp,
/// directory number and file number, with the same extension, always
/// composes to the identical file name. Together with the exact
/// `ensures` of `canonical_filename`, any two runs over the same input
/// produce the same name.
pub proof fn lemma_canonical_filename_deterministic(
    m1: ResolvedMetadata,
    m2: ResolvedMetadata,
    ext1: Seq<char>,
    ext2: Seq<char>,
)
    requires
        m1.timestamp@ == m2.timestamp@,
        m1.directory_number == m2.directory_number,
        m1.file_number == m2.file_number,
        ext1 == ext2,
    ensures
        spec_canonical_filename(m1.timestamp@, m1.directory_number as nat, m1.file_number as nat, ext1)
            == spec_canonical_filename(m2.timestamp@, m2.directory_number as nat, m2.file_number as nat, ext2),
{
}

/// Compose the canonical file name for resolved metadata and a
/// lowercased extension.
pub fn canonical_filename(meta: &ResolvedMetadata, ext_lower: &str) -> (r: String)
    ensures
        r@ == spec_canonical_filename(
            meta.timestamp@,
            meta.directory_number as nat,
            meta.file_number as nat,
            ext_lower@,
        ),
{
    let mut s = meta.timestamp.clone();
    push_char(&mut s, '_');
    let dir_digits = u32_to_string(meta.directory_number);
    s.append(dir_digits.as_str());
    push_char(&mut s, '-');
    let file_digits = u32_to_string(meta.file_number);
    s.append(file_digits.as_str());
    push_char(&mut s, '.');
    s.append(ext_lower);
    proof {
        assert(s@ =~= spec_canonical_filename(
            meta.timestamp@,
            meta.directory_number as nat,
            meta.file_number as nat,
            ext_lower@,
        ));
    }
    s
}

/// The date directory for a transformed timestamp.
pub fn date_part(ts: &str) -> (r: String)
    ensures
        r@ == spec_date_part(ts@),
{
    match find_char(ts, '_') {
        Some(i) => {
            proof {
                crate::text::lemma_first_index_of(ts@, '_');
            }
            ts.substring_char(0, i).to_owned()
        },
        None => ts.to_owned(),
    }
}

/// Join two path components with a separator.
pub fn join_path(a: &str, b: &str) -> (r: String)
    ensures
        r@ == spec_join(a@, b@),
{
    let mut s = a.to_owned();
    push_char(&mut s, '/');
    s.append(b);
    proof {
        assert(s@ =~= spec_join(a@, b@));
    }
    s
}

/// Compose the full canonical target for one source file: the date
/// directory under the destination base and the canonical file name.
pub fn canonical_target(dst_base_dir: &str, meta: &ResolvedMetadata, ext_lower: &str) -> (t:
    CanonicalTarget)
    ensures
        t.filename@ == spec_canonical_filename(
            meta.timestamp@,
            meta.directory_number as nat,
            meta.file_number as nat,
            ext_lower@,
        ),
        t.dir@ == spec_join(dst_base_dir@, spec_date_part(meta.timestamp@)),
        t.path@ == spec_join(t.dir@, t.filename@),
{
    let filename = canonical_filename(meta, ext_lower);
    let date = date_part(meta.timestamp.as_str());
    let dir = join_path(dst_base_dir, date.as_str());
    let path = join_path(dir.as_str(), filename.as_str());
    CanonicalTarget { dir, filename, path }
}

} // verus!
