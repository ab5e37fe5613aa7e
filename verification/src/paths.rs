//! Path reasoning: absolute and canonical (cleaned) paths, parent
//! directories, extensions, and the dispatch from a file extension to the
//! source handler responsible for it.
//!
//! The library identifies a module by its canonical path: an absolute path
//! with single separators, no trailing separator, and no `.` or `..`
//! segments. Cleaning itself is delegated to the `clean_path` crate.

use vstd::prelude::*;
use vstd::string::StrSliceExecFns;
use crate::module::SourceKind;

verus! {

/// An absolute path starts with the separator.
pub open spec fn is_absolute(s: Seq<char>) -> bool {
    s.len() > 0 && s[0] == '/'
}

/// A canonical absolute path: either the root alone, or an absolute path
/// with no empty, `.` or `..` segment and no trailing separator.
pub open spec fn is_canonical_abs(s: Seq<char>) -> bool {
    &&& is_absolute(s)
    &&& (s.len() == 1 || s[s.len() - 1] != '/')
    &&& (forall|i: int| 0 <= i < s.len() - 1 ==> !((#[trigger] s[i]) == '/' && s[i + 1] == '/'))
    &&& (forall|i: int|
        0 <= i < s.len() - 1 && (#[trigger] s[i]) == '/' && s[i + 1] == '.' ==> i + 2 < s.len()
            && s[i + 2] != '/' && (s[i + 2] == '.' ==> i + 3 < s.len() && s[i + 3] != '/'))
}

/// What the `clean_path` crate returns for a path: a pure, lexical
/// function of the characters alone.
pub uninterp spec fn path_clean(s: Seq<char>) -> Seq<char>;

/// Relies on `clean_path::clean`: a lexical clean that reduces repeated
/// separators, eliminates `.` and `..` segments (dropping `..` that would
/// escape the root), and never touches the filesystem. On an absolute
/// input the result is a canonical absolute path, and a path that is
/// already canonical comes back unchanged.
#[verifier::external_body]
pub(crate) fn canonical_path_of(path: &str) -> (r: String)
    requires
        is_absolute(path@),
    ensures
        r@ == path_clean(path@),
        is_canonical_abs(r@),
        is_canonical_abs(path@) ==> r@ == path@,
{
    clean_path::clean(path).to_string_lossy().into_owned()
}

/// Whether `path` is absolute.
pub fn path_is_absolute(path: &str) -> (r: bool)
    ensures
        r == is_absolute(path@),
{
    path.unicode_len() > 0 && path.get_char(0) == '/'
}

/// Equality of two string slices, stated over their character sequences.
pub fn str_eq(a: &str, b: &str) -> (r: bool)
    ensures
        r == (a@ == b@),
{
    a.to_owned() == b.to_owned()
}

/// Index of the last separator in `s`, or `-1` if there is none.
pub open spec fn last_slash(s: Seq<char>) -> int
    decreases s.len(),
{
    if s.len() == 0 {
        -1
    } else if s[s.len() - 1] == '/' {
        s.len() - 1
    } else {
        last_slash(s.drop_last())
    }
}

/// The last separator is the unique one with no separator after it.
pub proof fn lemma_last_slash_at(s: Seq<char>, j: int)
    requires
        0 <= j < s.len(),
        s[j] == '/',
        forall|k: int| j < k < s.len() ==> s[k] != '/',
    ensures
        last_slash(s) == j,
    decreases s.len(),
{
    if s[s.len() - 1] == '/' {
        assert(j == s.len() - 1);
    } else {
        lemma_last_slash_at(s.drop_last(), j);
    }
}

pub proof fn lemma_last_slash_bounds(s: Seq<char>)
    requires
        exists|i: int| 0 <= i < s.len() && s[i] == '/',
    ensures
        0 <= last_slash(s) < s.len(),
        s[last_slash(s)] == '/',
        forall|k: int| last_slash(s) < k < s.len() ==> s[k] != '/',
    decreases s.len(),
{
    if s[s.len() - 1] == '/' {
    } else {
        let i = choose|i: int| 0 <= i < s.len() && s[i] == '/';
        assert(i < s.len() - 1);
        assert(s.drop_last()[i] == '/');
        lemma_last_slash_bounds(s.drop_last());
        assert forall|k: int| last_slash(s) < k < s.len() implies s[k] != '/' by {
            if k < s.len() - 1 {
                assert(s.drop_last()[k] == s[k]);
            }
        }
    }
}

/// The directory that contains the file named by a canonical path.
pub open spec fn parent_dir_spec(s: Seq<char>) -> Seq<char> {
    if last_slash(s) <= 0 {
        seq!['/']
    } else {
        s.subrange(0, last_slash(s))
    }
}

/// Return the parent directory of a canonical file path.
pub fn parent_dir_of(path: &str) -> (r: String)
    requires
        is_canonical_abs(path@),
        path@.len() > 1,
    ensures
        r@ == parent_dir_spec(path@),
{
    let n = path.unicode_len();
    let mut i: usize = n - 1;
    loop
        invariant
            is_canonical_abs(path@),
            n == path@.len(),
            1 <= n,
            0 <= i < n,
            forall|k: int| i < k < n ==> path@[k] != '/',
        decreases i,
    {
        if path.get_char(i) == '/' {
            proof {
                lemma_last_slash_at(path@, i as int);
            }
            if i == 0 {
                let r = "/".to_owned();
                proof {
                    reveal_strlit("/");
                    assert(r@ =~= parent_dir_spec(path@));
                }
                return r;
            } else {
                return path.substring_char(0, i).to_owned();
            }
        }
        if i == 0 {
            // unreachable: a canonical path starts with the separator
            proof {
                assert(path@[0] == '/');
            }
            let r = "/".to_owned();
            proof {
                reveal_strlit("/");
                assert(r@ =~= parent_dir_spec(path@));
            }
            return r;
        }
        i = i - 1;
    }
}

/// Index of the last `.` in `s`, or `-1` if there is none.
pub open spec fn last_dot(s: Seq<char>) -> int
    decreases s.len(),
{
    if s.len() == 0 {
        -1
    } else if s[s.len() - 1] == '.' {
        s.len() - 1
    } else {
        last_dot(s.drop_last())
    }
}

pub proof fn lemma_last_dot_at(s: Seq<char>, j: int)
    requires
        0 <= j < s.len(),
        s[j] == '.',
        forall|k: int| j < k < s.len() ==> s[k] != '.',
    ensures
        last_dot(s) == j,
    decreases s.len(),
{
    if s[s.len() - 1] == '.' {
        assert(j == s.len() - 1);
    } else {
        lemma_last_dot_at(s.drop_last(), j);
    }
}

pub proof fn lemma_last_dot_none(s: Seq<char>)
    requires
        forall|k: int| 0 <= k < s.len() ==> s[k] != '.',
    ensures
        last_dot(s) == -1,
    decreases s.len(),
{
    if s.len() > 0 {
        lemma_last_dot_none(s.drop_last());
    }
}

/// The extension of the file named by a path: the part of the file name
/// after its last `.`, provided that dot is not the first character of the
/// file name. A name such as `.profile` has no extension.
pub open spec fn extension_spec(s: Seq<char>) -> Option<Seq<char>> {
    if last_dot(s) > last_slash(s) + 1 {
        Some(s.subrange(last_dot(s) + 1, s.len() as int))
    } else {
        None
    }
}

/// Return the extension of a canonical file path, if it has one.
pub fn extension_of(path: &str) -> (r: Option<String>)
    requires
        is_canonical_abs(path@),
        path@.len() > 1,
    ensures
        match r {
            Some(e) => extension_spec(path@) == Some(e@),
            None => extension_spec(path@) is None,
        },
{
    let n = path.unicode_len();
    let mut i: usize = n - 1;
    loop
        invariant
            is_canonical_abs(path@),
            n == path@.len(),
            1 <= n,
            0 <= i < n,
            forall|k: int| i < k < n ==> path@[k] != '.' && path@[k] != '/',
        decreases i,
    {
        let c = path.get_char(i);
        if c == '/' {
            // no dot after the last separator
            proof {
                lemma_last_slash_at(path@, i as int);
                lemma_last_dot_before(path@, i as int);
            }
            return None;
        }
        if c == '.' {
            proof {
                lemma_last_dot_at(path@, i as int);
            }
            if i == 0 {
                // unreachable: a canonical path starts with the separator
                proof {
                    assert(path@[0] == '/');
                }
                return None;
            }
            // the dot must sit after the last separator, and not directly
            // after it
            let prev = path.get_char(i - 1);
            if prev == '/' {
                proof {
                    lemma_last_slash_at(path@, i as int - 1);
                }
                return None;
            }
            // every character after `i` is not `/`, so the last separator
            // is before `i - 1`
            proof {
                assert(path@[0] == '/');
                lemma_last_slash_bounds(path@);
                let j = last_slash(path@);
                assert(j < i as int);
                assert(path@[i as int - 1] != '/');
                assert(j < i as int - 1);
            }
            return Some(path.substring_char(i + 1, n).to_owned());
        }
        if i == 0 {
            proof {
                assert(path@[0] == '/');
            }
            return None;
        }
        i = i - 1;
    }
}

/// The last dot lies before the end of the sequence.
proof fn lemma_last_dot_lt(s: Seq<char>)
    ensures
        last_dot(s) < s.len(),
    decreases s.len(),
{
    if s.len() > 0 && s[s.len() - 1] != '.' {
        lemma_last_dot_lt(s.drop_last());
    }
}

/// If position `j` holds a separator and no dot follows it, the last dot
/// lies at or before `j`.
proof fn lemma_last_dot_before(s: Seq<char>, j: int)
    requires
        0 <= j < s.len(),
        s[j] == '/',
        forall|k: int| j < k < s.len() ==> s[k] != '.',
    ensures
        last_dot(s) <= j,
    decreases s.len(),
{
    if j == s.len() - 1 {
        lemma_last_dot_lt(s.drop_last());
    } else {
        lemma_last_dot_before(s.drop_last(), j);
    }
}

/// The family of source handler that loads and parses a file, chosen by
/// its extension.
#[derive(Debug, Clone, Copy, PartialEq, Eq, Structural)]
pub enum HandlerKind {
    Css,
    JavaScript,
    Json,
    Yaml,
    Text,
    Media,
}

/// The dispatch table from a file extension to its handler. Extensions are
/// matched case-sensitively; a file without a recognized extension is
/// treated as an opaque media asset.
pub open spec fn handler_kind_spec(ext: Option<Seq<char>>) -> HandlerKind {
    match ext {
        None => HandlerKind::Media,
        Some(e) => if e == "css"@ {
            HandlerKind::Css
        } else if e == "js"@ || e == "jsx"@ || e == "ts"@ || e == "tsx"@ || e == "mts"@ || e
            == "cts"@ || e == "mjs"@ || e == "cjs"@ {
            HandlerKind::JavaScript
        } else if e == "json"@ || e == "jsonc"@ || e == "json5"@ {
            HandlerKind::Json
        } else if e == "yaml"@ || e == "yml"@ {
            HandlerKind::Yaml
        } else if e == "gql"@ || e == "graphql"@ || e == "html"@ || e == "less"@ || e == "map"@
            || e == "sass"@ || e == "scss"@ || e == "styl"@ || e == "svg"@ {
            HandlerKind::Text
        } else {
            HandlerKind::Media
        },
    }
}

/// Choose the handler responsible for a canonical file path.
pub fn handler_kind_for_path(path: &str) -> (r: HandlerKind)
    requires
        is_canonical_abs(path@),
        path@.len() > 1,
    ensures
        r == handler_kind_spec(extension_spec(path@)),
{
    let ext = extension_of(path);
    match ext {
        None => HandlerKind::Media,
        Some(e) => {
            let e = e.as_str();
            if str_eq(e, "css") {
                HandlerKind::Css
            } else if str_eq(e, "js") || str_eq(e, "jsx") || str_eq(e, "ts") || str_eq(e, "tsx")
                || str_eq(e, "mts") || str_eq(e, "cts") || str_eq(e, "mjs") || str_eq(e, "cjs") {
                HandlerKind::JavaScript
            } else if str_eq(e, "json") || str_eq(e, "jsonc") || str_eq(e, "json5") {
                HandlerKind::Json
            } else if str_eq(e, "yaml") || str_eq(e, "yml") {
                HandlerKind::Yaml
            } else if str_eq(e, "gql") || str_eq(e, "graphql") || str_eq(e, "html") || str_eq(
                e,
                "less",
            ) || str_eq(e, "map") || str_eq(e, "sass") || str_eq(e, "scss") || str_eq(e, "styl")
                || str_eq(e, "svg") {
                HandlerKind::Text
            } else {
                HandlerKind::Media
            }
        },
    }
}

/// `seg` occurs as a whole path segment starting at index `i`.
pub open spec fn segment_at(s: Seq<char>, seg: Seq<char>, i: int) -> bool {
    &&& 0 <= i
    &&& i + seg.len() <= s.len()
    &&& (i == 0 || s[i - 1] == '/')
    &&& (i + seg.len() == s.len() || s[i + seg.len()] == '/')
    &&& s.subrange(i, i + seg.len()) == seg
}

/// `seg` occurs somewhere in `s` as a whole path segment.
pub open spec fn has_segment(s: Seq<char>, seg: Seq<char>) -> bool {
    exists|i: int| has_segment_at(s, seg, i)
}

/// Trigger form of [`segment_at`].
pub open spec fn has_segment_at(s: Seq<char>, seg: Seq<char>, i: int) -> bool {
    segment_at(s, seg, i)
}

/// Whether `seg` occurs in `s` as a whole path segment (delimited by the
/// separator or by an end of the string).
pub fn str_has_segment(s: &str, seg: &str) -> (r: bool)
    requires
        seg@.len() > 0,
    ensures
        r == has_segment(s@, seg@),
{
    let n = s.unicode_len();
    let m = seg.unicode_len();
    if m > n {
        proof {
            assert forall|k: int| !has_segment_at(s@, seg@, k) by {
                assert(!segment_at(s@, seg@, k));
            }
        }
        return false;
    }
    let mut i: usize = 0;
    while i <= n - m
        invariant
            1 <= m <= n,
            n == s@.len(),
            m == seg@.len(),
            i <= n - m + 1,
            forall|k: int| 0 <= k < i ==> !has_segment_at(s@, seg@, k),
        decreases n - m + 1 - i,
    {
        let start_ok = i == 0 || s.get_char(i - 1) == '/';
        let end_ok = i + m == n || s.get_char(i + m) == '/';
        let mut found = false;
        if start_ok && end_ok {
            let sub = s.substring_char(i, i + m);
            if str_eq(sub, seg) {
                found = true;
            }
        }
        if found {
            proof {
                assert(has_segment_at(s@, seg@, i as int));
            }
            return true;
        }
        proof {
            assert(!has_segment_at(s@, seg@, i as int));
        }
        i = i + 1;
    }
    proof {
        assert forall|k: int| !has_segment_at(s@, seg@, k) by {
            if k >= i {
                assert(!segment_at(s@, seg@, k));
            }
        }
    }
    false
}

/// The media classification of an opaque asset, by extension.
pub open spec fn media_kind_spec(ext: Option<Seq<char>>) -> SourceKind {
    match ext {
        None => SourceKind::Unknown,
        Some(e) => if e == "aac"@ || e == "flac"@ || e == "m4a"@ || e == "mp3"@ || e == "ogg"@
            || e == "wav"@ {
            SourceKind::Audio
        } else if e == "avif"@ || e == "bmp"@ || e == "gif"@ || e == "ico"@ || e == "jpeg"@ || e
            == "jpg"@ || e == "png"@ || e == "webp"@ {
            SourceKind::Image
        } else if e == "avi"@ || e == "mkv"@ || e == "mov"@ || e == "mp4"@ || e == "webm"@ {
            SourceKind::Video
        } else {
            SourceKind::Unknown
        },
    }
}

/// Classify an opaque media asset as audio, image or video by its
/// extension, falling back to `Unknown`.
pub fn media_kind_for_path(path: &str) -> (r: SourceKind)
    requires
        is_canonical_abs(path@),
        path@.len() > 1,
    ensures
        r == media_kind_spec(extension_spec(path@)),
{
    let ext = extension_of(path);
    match ext {
        None => SourceKind::Unknown,
        Some(e) => {
            let e = e.as_str();
            if str_eq(e, "aac") || str_eq(e, "flac") || str_eq(e, "m4a") || str_eq(e, "mp3")
                || str_eq(e, "ogg") || str_eq(e, "wav") {
                SourceKind::Audio
            } else if str_eq(e, "avif") || str_eq(e, "bmp") || str_eq(e, "gif") || str_eq(e, "ico")
                || str_eq(e, "jpeg") || str_eq(e, "jpg") || str_eq(e, "png") || str_eq(e, "webp") {
                SourceKind::Image
            } else if str_eq(e, "avi") || str_eq(e, "mkv") || str_eq(e, "mov") || str_eq(e, "mp4")
                || str_eq(e, "webm") {
                SourceKind::Video
            } else {
                SourceKind::Unknown
            }
        },
    }
}

} // verus!
