use vstd::prelude::*;

use crate::text::{
    last_index_of, lemma_last_index_of, lower_seq, rfind_char, str_eq, to_lowercase,
};

verus! {

/// The extension of a file name: the characters after the last dot.
/// There is none when the name holds no dot, or when the only dot is the
/// leading character (a hidden file such as `.config` has no extension).
pub open spec fn spec_extension(name: Seq<char>) -> Option<Seq<char>> {
    let d = last_index_of(name, '.');
    if d <= 0 {
        None
    } else {
        Some(name.subrange(d + 1, name.len() as int))
    }
}

/// Extract the extension of a file name.
pub fn extension_of(name: &str) -> (r: Option<String>)
    ensures
        spec_extension(name@) matches Some(es) ==> (r matches Some(e) && e@ == es),
        spec_extension(name@) is None ==> r is None,
{
    match rfind_char(name, '.') {
        Some(d) => {
            if d == 0 {
                None
            } else {
                let n = name.unicode_len();
                proof {
                    lemma_last_index_of(name@, '.');
                }
                Some(name.substring_char(d + 1, n).to_owned())
            }
        },
        None => None,
    }
}

/// The extension matches one of the allowed ones, ignoring ASCII case on
/// both sides.
pub open spec fn ext_in_set(e: Seq<char>, allowed: Seq<Seq<char>>) -> bool {
    exists|i: int| 0 <= i < allowed.len() && lower_seq(e) == lower_seq(allowed[i])
}

/// The file name has an extension and it is in the allowed set,
/// case-insensitively.
pub open spec fn spec_has_allowed_extension(name: Seq<char>, allowed: Seq<Seq<char>>) -> bool {
    match spec_extension(name) {
        Some(e) => ext_in_set(e, allowed),
        None => false,
    }
}

/// The case-insensitive extension filter of the scanner: does this file
/// name carry one of the allowed extensions?
pub fn has_allowed_extension(name: &str, allowed: &Vec<String>) -> (r: bool)
    ensures
        r == spec_has_allowed_extension(name@, allowed.deep_view()),
{
    match extension_of(name) {
        Some(e) => {
            let e_lower = to_lowercase(e.as_str());
            let n = allowed.len();
            let mut i: usize = 0;
            while i < n
                invariant
                    n == allowed@.len(),
                    i <= n,
                    e_lower@ == lower_seq(e@),
                    spec_extension(name@) matches Some(es) && es == e@,
                    forall|j: int| 0 <= j < i ==> lower_seq(e@) != lower_seq(allowed.deep_view()[j]),
                decreases n - i,
            {
                let a_lower = to_lowercase(allowed[i].as_str());
                if str_eq(e_lower.as_str(), a_lower.as_str()) {
                    assert(lower_seq(e@) == lower_seq(allowed.deep_view()[i as int]));
                    return true;
                }
                i += 1;
            }
            false
        },
        None => false,
    }
}

/// The extensions the archiving pipeline accepts: photographs, raw images
/// and video clips.
pub fn default_allowed_extensions() -> (r: Vec<String>)
    ensures
        r.deep_view() =~= seq!["jpg"@, "cr2"@, "mp4"@],
{
    let mut v: Vec<String> = Vec::new();
    v.push(String::from_str("jpg"));
    v.push(String::from_str("cr2"));
    v.push(String::from_str("mp4"));
    v
}

} // verus!
