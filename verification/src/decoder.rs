//! Which audio files can be decoded.

use vstd::prelude::*;
use crate::text::{lowercase_of, opt_chars, same_text, to_lowercase};

verus! {

#[verifier::external_type_specification]
#[verifier::external_body]
pub struct ExPathBuf(std::path::PathBuf);

/// The endings of the audio files that can be decoded.
pub open spec fn supported_extensions() -> Seq<Seq<char>> {
    seq!["wav"@, "mp3"@, "m4a"@, "aac"@, "flac"@, "ogg"@, "mp4"@]
}

/// The endings of `v`.
pub open spec fn extension_views(v: Seq<&'static str>) -> Seq<Seq<char>> {
    v.map_values(|s: &'static str| s@)
}

/// The endings of the audio files that can be decoded.
pub fn get_supported_extensions() -> (v: Vec<&'static str>)
    ensures
        extension_views(v@) == supported_extensions(),
{
    let mut v: Vec<&'static str> = Vec::new();
    v.push("wav");
    v.push("mp3");
    v.push("m4a");
    v.push("aac");
    v.push("flac");
    v.push("ogg");
    v.push("mp4");
    assert(extension_views(v@) =~= supported_extensions());
    v
}

/// The ending of the file that `path` names: what std's `Path::extension` finds in the
/// path, where that is Unicode. `None` where the path names no file, the name has no
/// ending, or the ending is not Unicode. A path is a value of std's that cannot be seen
/// into from here, so the ending is named, not written out.
pub uninterp spec fn extension_of(path: std::path::PathBuf) -> Option<Seq<char>>;

/// The ending of the file that `path` names, as text: std's `Path::extension` and
/// `OsStr::to_str`. Trusted: that the ending depends on the path alone.
#[verifier::external_body]
fn extension_text(path: &std::path::PathBuf) -> (r: Option<String>)
    ensures
        opt_chars(r) == extension_of(*path),
{
    match path.extension() {
        Some(e) => match e.to_str() {
            Some(s) => Some(s.to_owned()),
            None => None,
        },
        None => None,
    }
}

/// Whether `extension` is the ending of a file that can be decoded, letters of either
/// case being the same.
pub open spec fn extension_supported(extension: Seq<char>) -> bool {
    supported_extensions().contains(lowercase_of(extension))
}

/// Whether `extension` is the ending of a file that can be decoded.
pub fn is_supported_extension(extension: &str) -> (r: bool)
    ensures
        r == extension_supported(extension@),
{
    let lower = to_lowercase(extension);
    let all = get_supported_extensions();
    let mut i: usize = 0;
    while i < all.len()
        invariant
            i <= all.len(),
            extension_views(all@) == supported_extensions(),
            lower@ == lowercase_of(extension@),
            forall|j: int| 0 <= j < i ==> supported_extensions()[j] != lower@,
        decreases all.len() - i,
    {
        assert(extension_views(all@)[i as int] == all@[i as int]@);
        if same_text(all[i], lower.as_str()) {
            return true;
        }
        i += 1;
    }
    false
}

/// Whether the ending of the path `path`, if it has one, is that of a file that can be
/// decoded.
pub open spec fn format_supported(path: std::path::PathBuf) -> bool {
    match extension_of(path) {
        Some(e) => extension_supported(e),
        None => false,
    }
}

/// Whether the file that `path` names has the ending of a file that can be decoded, as
/// `is_supported_extension` judges the ending. A path without an ending is not
/// supported.
pub fn is_supported_format(path: &std::path::PathBuf) -> (r: bool)
    ensures
        r == format_supported(*path),
{
    match extension_text(path) {
        Some(e) => is_supported_extension(e.as_str()),
        None => false,
    }
}

} // verus!
