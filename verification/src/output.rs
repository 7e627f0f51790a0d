//! The default name of a compiled program's output file.
use vstd::prelude::*;
use vstd::string::*;
use vstd::utf8::*;

use crate::search::{find_at, regex_find_at};
use crate::text::slice;

verus! {

broadcast use {
    is_char_boundary_start_end_of_seq,
    encode_utf8_valid_utf8,
    encode_utf8_decode_utf8,
    decode_utf8_encode_utf8,
};

/// A file name with an extension: something, a dot, and then no slash.
pub const HAS_EXT_PTN: &'static str = r".+\.[^\/]+$";
/// The last path component.
pub const LAST_COMPONENT_PTN: &'static str = r"[^\/]*$";
/// The extension, dot included.
pub const EXTENSION_PTN: &'static str = r"\.[^\.]+?$";

/// `s` without the first match of `pattern`, as `Regex::replace` with an
/// empty replacement gives it.
pub open spec fn without_first_match(pattern: Seq<char>, s: &str) -> Seq<char> {
    let b = s.spec_bytes();
    match regex_find_at(pattern, s@, 0) {
        Some((a, e)) => decode_utf8(b.subrange(0, a as int)) + decode_utf8(
            b.subrange(e as int, b.len() as int),
        ),
        None => s@,
    }
}

/// The default output name for `source_file`: where it has no extension,
/// `a.out` in its directory; else the name without its extension, with
/// `.o` added for an object file.
pub open spec fn spec_output_filename(source_file: &str, is_object_file: bool) -> Seq<char> {
    if regex_find_at(HAS_EXT_PTN@, source_file@, 0) is None {
        without_first_match(LAST_COMPONENT_PTN@, source_file) + "a.out"@
    } else {
        without_first_match(EXTENSION_PTN@, source_file) + if is_object_file {
            ".o"@
        } else {
            ""@
        }
    }
}

/// `s` without the first match of `pattern`.
fn remove_first_match(pattern: &str, s: &str) -> (r: String)
    ensures
        r@ == without_first_match(pattern@, s),
{
    match find_at(pattern, s, 0) {
        Some((a, e)) => {
            let len = s.as_bytes().len();
            let head = slice(s, 0, a);
            let tail = slice(s, e, len);
            let mut r = String::from_str(head);
            r.append(tail);
            r
        },
        None => String::from_str(s),
    }
}

/// The default output name for `source_file`.
pub fn make_output_filename(source_file: &str, is_object_file: bool) -> (r: String)
    ensures
        r@ == spec_output_filename(source_file, is_object_file),
{
    let has_ext = find_at(HAS_EXT_PTN, source_file, 0).is_some();
    if !has_ext {
        let mut r = remove_first_match(LAST_COMPONENT_PTN, source_file);
        r.append("a.out");
        return r;
    }
    let mut r = remove_first_match(EXTENSION_PTN, source_file);
    r.append(if is_object_file {
        ".o"
    } else {
        ""
    });
    r
}

} // verus!
