//! Whitespace handling for proposed names and the destination path of a rename.
use vstd::prelude::*;

verus! {

/// The characters with Unicode's `White_Space` property, which `char::is_whitespace`
/// and `str::trim` go by.
pub open spec fn is_white_space(c: char) -> bool {
    let u = c as u32;
    (0x09 <= u && u <= 0x0d) || u == 0x20 || u == 0x85 || u == 0xa0 || u == 0x1680 || (0x2000
        <= u && u <= 0x200a) || u == 0x2028 || u == 0x2029 || u == 0x202f || u == 0x205f || u
        == 0x3000
}

/// A name is blank when it holds nothing but whitespace (or nothing at all).
pub open spec fn is_blank(s: Seq<char>) -> bool {
    forall|k: int| 0 <= k < s.len() ==> is_white_space(#[trigger] s[k])
}

/// `r` is `s` with its leading and trailing whitespace cut off.
pub open spec fn is_trim_of(s: Seq<char>, r: Seq<char>) -> bool {
    exists|i: int, j: int|
        0 <= i <= j <= s.len() && r == s.subrange(i, j) && (forall|k: int|
            0 <= k < i ==> is_white_space(#[trigger] s[k])) && (forall|k: int|
            j <= k < s.len() ==> is_white_space(#[trigger] s[k])) && (i < j ==> !is_white_space(s[i])
            && !is_white_space(s[j - 1]))
}

/// The path that `std::path::Path::with_file_name` gives for `path` with its final
/// component replaced by `name`.
pub uninterp spec fn with_file_name_of(path: Seq<char>, name: Seq<char>) -> Seq<char>;

/// Relies on `str::trim`: the result is the part of `s` left once the leading and the
/// trailing whitespace are cut off.
#[verifier::external_body]
fn trim_str(s: &str) -> (r: &str)
    ensures
        is_trim_of(s@, r@),
{
    s.trim()
}

/// Relies on `std::path::Path::with_file_name`: the path with its final component
/// replaced; a path built from strings converts back to a string without loss.
#[verifier::external_body]
pub(crate) fn path_with_file_name(path: &str, name: &str) -> (r: String)
    ensures
        r@ == with_file_name_of(path@, name@),
{
    std::path::Path::new(path).with_file_name(name).to_string_lossy().into_owned()
}

/// Whether `s` is blank, decided as `s.trim().is_empty()`.
pub fn is_blank_name(s: &str) -> (r: bool)
    ensures
        r == is_blank(s@),
{
    let t = trim_str(s);
    let r = t.is_empty();
    proof {
        let (i, j) = choose|i: int, j: int|
            0 <= i <= j <= s@.len() && t@ == s@.subrange(i, j) && (forall|k: int|
                0 <= k < i ==> is_white_space(#[trigger] s@[k])) && (forall|k: int|
                j <= k < s@.len() ==> is_white_space(#[trigger] s@[k])) && (i < j ==> !is_white_space(s@[i])
                && !is_white_space(s@[j - 1]));
        if r {
            assert forall|k: int| 0 <= k < s@.len() implies is_white_space(#[trigger] s@[k]) by {
                if k < i {
                } else {
                    assert(j <= k);
                }
            }
        } else {
            assert(i < j);
            assert(!is_white_space(s@[i]));
        }
    }
    r
}

} // verus!
