//! Paths of audio files: which are playable, and how they are shown.
use std::path::PathBuf;
use vstd::prelude::*;
use vstd::utf8::is_ascii_chars;

use crate::text::same_text;

verus! {

/// The extensions of the files that can be played.
pub const AUDIO_EXTENSIONS: [&'static str; 4] = ["mp3", "wav", "flac", "ogg"];

/// `std::path::PathBuf`, carried through; what is in a path is known by the names
/// below.
#[verifier::external_type_specification]
#[verifier::external_body]
pub struct ExPathBuf(std::path::PathBuf);

/// `std::path::Path`, which a `PathBuf` dereferences to.
#[verifier::external_type_specification]
#[verifier::external_body]
pub struct ExPath(std::path::Path);

/// A path as text; what is not Unicode in it is replaced by U+FFFD.
pub uninterp spec fn path_text(path: PathBuf) -> Seq<char>;

/// The path that a text denotes.
pub uninterp spec fn path_from(text: Seq<char>) -> PathBuf;

/// A path as it is shown to the user.
pub uninterp spec fn path_shown(path: PathBuf) -> Seq<char>;

/// The last component of a path, if it is a name; what is not Unicode in it is
/// replaced by U+FFFD.
pub uninterp spec fn path_file_name(path: PathBuf) -> Option<Seq<char>>;

/// The extension of a path, if it has one that is Unicode.
pub uninterp spec fn path_extension(path: PathBuf) -> Option<Seq<char>>;

/// A text in lower case, by the Unicode rules.
pub uninterp spec fn lowercase(s: Seq<char>) -> Seq<char>;

/// The characters of an optional string.
pub open spec fn text_view(s: Option<String>) -> Option<Seq<char>> {
    match s {
        Some(s) => Some(s@),
        None => None,
    }
}

/// Whether a file name is a non-empty stem, a dot and this extension, in which
/// there is no further dot.
pub open spec fn splits_into(name: Seq<char>, stem: Seq<char>, extension: Seq<char>) -> bool {
    &&& stem.len() > 0
    &&& name == stem.push('.') + extension
    &&& !extension.contains('.')
}

/// Whether a text is known to be what it was made from: nothing was replaced.
pub open spec fn is_exact(s: Seq<char>) -> bool {
    !s.contains('\u{FFFD}')
}

/// Whether a text is a file name on its own: it is not empty, names neither the
/// directory itself nor its parent, and holds no separator or drive.
pub open spec fn is_plain_name(s: Seq<char>) -> bool {
    &&& s.len() > 0
    &&& s != "."@
    &&& s != ".."@
    &&& !s.contains('/')
    &&& !s.contains('\\')
    &&& !s.contains(':')
}

/// The lower case of an ASCII character.
pub open spec fn ascii_lower(c: char) -> char {
    if 'A' <= c <= 'Z' {
        (c as u8 + 32) as char
    } else {
        c
    }
}

/// Whether an extension, in lower case, is that of a playable file.
pub open spec fn is_audio_lower(extension: Seq<char>) -> bool {
    ||| extension == "mp3"@
    ||| extension == "wav"@
    ||| extension == "flac"@
    ||| extension == "ogg"@
}

/// Whether a path is that of a playable file.
pub open spec fn is_audio(path: PathBuf) -> bool {
    match path_extension(path) {
        Some(extension) => is_audio_lower(lowercase(extension)),
        None => false,
    }
}

/// The name under which a path is listed: its file name, or else the path.
pub open spec fn track_name(path: PathBuf) -> Seq<char> {
    match path_file_name(path) {
        Some(name) => name,
        None => path_shown(path),
    }
}

/// `Path::to_string_lossy`: the path as text. A text in which nothing was
/// replaced denotes the path again.
#[verifier::external_body]
pub(crate) fn text_of(path: &PathBuf) -> (r: String)
    ensures
        r@ == path_text(*path),
        is_exact(r@) ==> path_from(r@) == *path,
{
    path.to_string_lossy().into_owned()
}

/// `PathBuf::from` of a string: the path that it denotes, whose text is that
/// string. A plain name is the last component of its path; what the components
/// of other texts are depends on the platform and is not said.
#[verifier::external_body]
pub(crate) fn from_text(text: String) -> (r: PathBuf)
    ensures
        r == path_from(text@),
        path_text(r) == text@,
        is_plain_name(text@) ==> path_file_name(r) == Some(text@),
{
    PathBuf::from(text)
}

/// Equality of `OsStr`, which `Path::as_os_str` gives of a path: whether two paths
/// are the same, as they are written.
#[verifier::external_body]
pub(crate) fn same_path(a: &PathBuf, b: &PathBuf) -> (r: bool)
    ensures
        r == (*a == *b),
{
    a.as_os_str() == b.as_os_str()
}

/// `Path::display`: the path as it is shown.
#[verifier::external_body]
pub(crate) fn shown(path: &PathBuf) -> (r: String)
    ensures
        r@ == path_shown(*path),
{
    path.display().to_string()
}

/// `Path::file_name`: the last component, as text.
#[verifier::external_body]
pub(crate) fn file_name(path: &PathBuf) -> (r: Option<String>)
    ensures
        text_view(r) == path_file_name(*path),
{
    path.file_name().map(|name| name.to_string_lossy().into_owned())
}

/// `Path::extension`, where it is Unicode: nothing without a file name; with a
/// file name that is Unicode, what follows its last dot, unless there is no dot
/// or only a leading one.
#[verifier::external_body]
pub(crate) fn extension(path: &PathBuf) -> (r: Option<String>)
    ensures
        text_view(r) == path_extension(*path),
        path_file_name(*path) is None ==> r is None,
        path_file_name(*path) matches Some(name) ==> is_exact(name) ==> match r {
            Some(e) => exists|stem: Seq<char>| #[trigger] splits_into(name, stem, e@),
            None => forall|stem: Seq<char>, e: Seq<char>| !(#[trigger] splits_into(name, stem, e)),
        },
{
    path.extension().and_then(|e| e.to_str()).map(|e| e.to_owned())
}

/// `str::to_lowercase`: the lower case by the Unicode rules, which take an ASCII
/// text character by character.
#[verifier::external_body]
pub(crate) fn to_lowercase(s: &str) -> (r: String)
    ensures
        r@ == lowercase(s@),
        is_ascii_chars(s@) ==> r@ == s@.map_values(|c: char| ascii_lower(c)),
{
    s.to_lowercase()
}

/// Whether an extension is that of a playable file, in upper or lower case.
pub fn is_audio_extension(extension: &str) -> (r: bool)
    ensures
        r == is_audio_lower(lowercase(extension@)),
        is_ascii_chars(extension@) ==> r == is_audio_lower(
            extension@.map_values(|c: char| ascii_lower(c)),
        ),
{
    let lower = to_lowercase(extension);
    for i in 0..AUDIO_EXTENSIONS.len()
        invariant
            lower@ == lowercase(extension@),
            is_ascii_chars(extension@) ==> lower@ == extension@.map_values(
                |c: char| ascii_lower(c),
            ),
            forall|j: int| 0 <= j < i ==> lower@ != (#[trigger] AUDIO_EXTENSIONS[j])@,
    {
        assert(is_audio_lower(AUDIO_EXTENSIONS[i as int]@));
        if same_text(lower.as_str(), AUDIO_EXTENSIONS[i]) {
            return true;
        }
    }
    assert(AUDIO_EXTENSIONS[0]@ == "mp3"@ && AUDIO_EXTENSIONS[1]@ == "wav"@
        && AUDIO_EXTENSIONS[2]@ == "flac"@ && AUDIO_EXTENSIONS[3]@ == "ogg"@);
    false
}

/// Whether a path is that of a playable file, judged by its extension alone.
pub fn is_audio_file(path: &PathBuf) -> (r: bool)
    ensures
        r == is_audio(*path),
        path_file_name(*path) is None ==> !r,
        path_file_name(*path) matches Some(name) ==> is_exact(name) ==> r == exists|
            stem: Seq<char>,
            e: Seq<char>,
        | #[trigger] splits_into(name, stem, e) && is_audio_lower(lowercase(e)),
{
    match extension(path) {
        Some(e) => {
            proof {
                if path_file_name(*path) is Some && is_exact(path_file_name(*path)->0) {
                    let name = path_file_name(*path)->0;
                    let stem = choose|stem: Seq<char>| #[trigger] splits_into(name, stem, e@);
                    assert forall|s: Seq<char>, x: Seq<char>| #[trigger]
                        splits_into(name, s, x) implies x == e@ by {
                        lemma_split_unique(name, stem, e@, s, x);
                    }
                }
            }
            is_audio_extension(e.as_str())
        },
        None => false,
    }
}

/// The name under which a path is listed.
pub fn display_name(path: &PathBuf) -> (r: String)
    ensures
        r@ == track_name(*path),
{
    match file_name(path) {
        Some(name) => name,
        None => shown(path),
    }
}

/// A file name has one extension.
proof fn lemma_split_unique(
    name: Seq<char>,
    stem1: Seq<char>,
    ext1: Seq<char>,
    stem2: Seq<char>,
    ext2: Seq<char>,
)
    requires
        splits_into(name, stem1, ext1),
        splits_into(name, stem2, ext2),
    ensures
        ext1 == ext2,
{
    let a = stem1.len();
    let b = stem2.len();
    assert(name.len() == a + 1 + ext1.len() && name.len() == b + 1 + ext2.len());
    assert(name[a as int] == '.' && name[b as int] == '.');
    if a < b {
        assert(ext1[b - a - 1] == name[b as int]);
        assert(ext1.contains('.'));
    } else if b < a {
        assert(ext2[a - b - 1] == name[a as int]);
        assert(ext2.contains('.'));
    }
    assert forall|i: int| 0 <= i < ext1.len() implies ext1[i] == ext2[i] by {
        assert(ext1[i] == name[a + 1 + i] && ext2[i] == name[b + 1 + i]);
    }
    assert(ext1 =~= ext2);
}

} // verus!
