//! File manager rules: request shapes, listing entries and their order,
//! content types, protected paths and size limits.
use vstd::prelude::*;
use crate::text::{chars_of, eq_chars};
use crate::sync::opt_text;

verus! {

/// Query naming one path.
pub struct FilePath {
    pub path: String,
}

/// Request to write text into a file.
pub struct FileWriteReq {
    pub path: String,
    pub content: String,
}

/// Request to rename a path.
pub struct FileRenameReq {
    pub from: String,
    pub to: String,
}

/// Request naming one path to create or delete.
pub struct FileOpReq {
    pub path: String,
}

/// Request to copy a path.
pub struct FileCopyReq {
    pub from: String,
    pub to: String,
}

/// One row of a directory listing.
pub struct FileEntry {
    pub name: String,
    pub path: String,
    pub is_dir: bool,
    pub size: u64,
    pub modified: u64,
    pub permissions: String,
    pub extension: String,
}

/// The final component of a path split at `/`, as `Path::file_name` gives
/// it on Unix: the last component that is neither empty nor `.` (such
/// components are skipped); none when there is none, or when it is `..`.
pub open spec fn last_name(comps: Seq<Seq<char>>) -> Option<Seq<char>>
    decreases comps.len(),
{
    if comps.len() == 0 {
        None
    } else {
        let c = comps.last();
        if c.len() == 0 || c == seq!['.'] {
            last_name(comps.drop_last())
        } else if c == seq!['.', '.'] {
            None
        } else {
            Some(c)
        }
    }
}

/// The position of the last occurrence of a character, or -1.
pub open spec fn last_index(s: Seq<char>, c: char) -> int
    decreases s.len(),
{
    if s.len() == 0 {
        -1
    } else if s.last() == c {
        s.len() - 1
    } else {
        last_index(s.drop_last(), c)
    }
}

/// What `Path::extension` gives for a path on Unix: the part of the final
/// component after its last `.`; none when there is no final component,
/// when it has no `.`, or when its only `.` is its first character (as in
/// `.bashrc`).
pub open spec fn path_extension_spec(path: Seq<char>) -> Option<Seq<char>> {
    match last_name(crate::text::split(path, '/')) {
        Some(name) => {
            let k = last_index(name, '.');
            if k <= 0 {
                None
            } else {
                Some(name.subrange(k + 1, name.len() as int))
            }
        },
        None => None,
    }
}

proof fn lemma_last_index(s: Seq<char>, c: char)
    ensures
        -1 <= last_index(s, c) < s.len(),
        last_index(s, c) >= 0 ==> s[last_index(s, c)] == c,
        forall|j: int| last_index(s, c) < j < s.len() ==> s[j] != c,
    decreases s.len(),
{
    if s.len() > 0 {
        lemma_last_index(s.drop_last(), c);
        if s.last() != c {
            assert forall|j: int| last_index(s, c) < j < s.len() implies s[j] != c by {
                if j < s.len() - 1 {
                    assert(s[j] == s.drop_last()[j]);
                }
            }
        }
    }
}

/// `Path::new(path).extension()` on Unix, as text (see
/// [`path_extension_spec`]).
pub fn path_extension(path: &str) -> (r: Option<String>)
    ensures
        opt_text(r) == path_extension_spec(path@),
{
    let parts = crate::text::split_chars(&chars_of(path), '/');
    let ghost comps = crate::text::views(parts@);
    let mut i: usize = parts.len();
    assert(comps.subrange(0, i as int) =~= comps);
    while i > 0
        invariant
            i <= parts@.len(),
            comps == crate::text::views(parts@),
            comps == crate::text::split(path@, '/'),
            last_name(comps.subrange(0, i as int)) == last_name(comps),
        decreases i,
    {
        let ghost pre = comps.subrange(0, i as int);
        assert(pre.last() == parts@[i - 1]@);
        assert(pre.drop_last() =~= comps.subrange(0, i - 1));
        let c = &parts[i - 1];
        let is_dot = c.len() == 1 && c[0] == '.';
        let is_dot_dot = c.len() == 2 && c[0] == '.' && c[1] == '.';
        assert(is_dot <==> c@ == seq!['.']) by {
            if c@.len() == 1 && c@[0] == '.' {
                assert(c@ =~= seq!['.']);
            }
        }
        assert(is_dot_dot <==> c@ == seq!['.', '.']) by {
            if c@.len() == 2 && c@[0] == '.' && c@[1] == '.' {
                assert(c@ =~= seq!['.', '.']);
            }
        }
        if c.len() == 0 || is_dot {
            i = i - 1;
        } else if is_dot_dot {
            assert(last_name(pre) is None);
            return None;
        } else {
            assert(last_name(pre) == Some(c@));
            let mut k: usize = c.len();
            assert(c@.subrange(0, k as int) =~= c@);
            while k > 0 && c[k - 1] != '.'
                invariant
                    k <= c@.len(),
                    last_index(c@.subrange(0, k as int), '.') == last_index(c@, '.'),
                decreases k,
            {
                assert(c@.subrange(0, k as int).drop_last() =~= c@.subrange(0, k - 1));
                k = k - 1;
            }
            // k is one past the last '.', or 0 when there is none.
            proof {
                let sub = c@.subrange(0, k as int);
                if k > 0 {
                    assert(sub.last() == '.');
                    assert(last_index(sub, '.') == k - 1);
                } else {
                    assert(last_index(sub, '.') == -1);
                }
            }
            if k <= 1 {
                return None;
            }
            return Some(crate::text::string_of(&crate::text::sub_chars(c, k, c.len())));
        }
    }
    assert(comps.subrange(0, 0) =~= Seq::<Seq<char>>::empty());
    None
}

/// The extension a listing shows for an entry: empty for a directory,
/// otherwise its path's extension (empty when it has none).
pub open spec fn entry_extension_spec(is_dir: bool, path: Seq<char>) -> Seq<char> {
    if is_dir {
        Seq::empty()
    } else {
        match path_extension_spec(path) {
            Some(e) => e,
            None => Seq::empty(),
        }
    }
}

/// The extension shown for a listing entry (see [`entry_extension_spec`]).
pub fn entry_extension(is_dir: bool, path: &str) -> (r: String)
    ensures
        r@ == entry_extension_spec(is_dir, path@),
{
    if is_dir {
        String::new()
    } else {
        match path_extension(path) {
            Some(e) => e,
            None => String::new(),
        }
    }
}

/// What `str::to_lowercase` gives.
pub uninterp spec fn spec_lowercase(s: Seq<char>) -> Seq<char>;

/// `str::to_lowercase`.
#[verifier::external_body]
pub(crate) fn lowercase(s: &str) -> (r: String)
    ensures
        r@ == spec_lowercase(s@),
{
    s.to_lowercase()
}

/// Equality of two string slices.
pub fn str_eq(a: &str, b: &str) -> (r: bool)
    ensures
        r == (a@ == b@),
{
    let x = chars_of(a);
    let y = chars_of(b);
    eq_chars(&x, &y)
}

/// The content type served for a (lower-case) file extension.
pub open spec fn mime_for_ext(e: Seq<char>) -> Seq<char> {
    if e == "txt"@ || e == "log"@ || e == "conf"@ || e == "cfg"@ || e == "ini"@ {
        "text/plain"@
    } else if e == "json"@ {
        "application/json"@
    } else if e == "xml"@ {
        "application/xml"@
    } else if e == "html"@ || e == "htm"@ {
        "text/html"@
    } else if e == "css"@ {
        "text/css"@
    } else if e == "js"@ || e == "ts"@ {
        "application/javascript"@
    } else if e == "sh"@ || e == "bash"@ {
        "application/x-sh"@
    } else if e == "rs"@ {
        "text/x-rust"@
    } else if e == "java"@ || e == "kt"@ {
        "text/x-java"@
    } else if e == "png"@ {
        "image/png"@
    } else if e == "jpg"@ || e == "jpeg"@ {
        "image/jpeg"@
    } else if e == "gif"@ {
        "image/gif"@
    } else if e == "webp"@ {
        "image/webp"@
    } else if e == "svg"@ {
        "image/svg+xml"@
    } else if e == "mp3"@ {
        "audio/mpeg"@
    } else if e == "wav"@ {
        "audio/wav"@
    } else if e == "ogg"@ {
        "audio/ogg"@
    } else if e == "mp4"@ {
        "video/mp4"@
    } else if e == "webm"@ {
        "video/webm"@
    } else if e == "mkv"@ {
        "video/x-matroska"@
    } else if e == "zip"@ {
        "application/zip"@
    } else if e == "gz"@ {
        "application/gzip"@
    } else if e == "tar"@ {
        "application/x-tar"@
    } else if e == "7z"@ {
        "application/x-7z-compressed"@
    } else if e == "rar"@ {
        "application/vnd.rar"@
    } else if e == "pdf"@ {
        "application/pdf"@
    } else if e == "apk"@ {
        "application/vnd.android.package-archive"@
    } else {
        "application/octet-stream"@
    }
}

/// The content type of a file name, from its lower-cased extension (no
/// extension reads as the empty one).
pub open spec fn mime_of_name(name: Seq<char>) -> Seq<char> {
    let ext = match path_extension_spec(name) {
        Some(e) => spec_lowercase(e),
        None => Seq::<char>::empty(),
    };
    mime_for_ext(ext)
}

fn mime_for_ext_exec(e: &str) -> (r: &'static str)
    ensures
        r@ == mime_for_ext(e@),
{
    if str_eq(e, "txt") || str_eq(e, "log") || str_eq(e, "conf") || str_eq(e, "cfg") || str_eq(
        e,
        "ini",
    ) {
        "text/plain"
    } else if str_eq(e, "json") {
        "application/json"
    } else if str_eq(e, "xml") {
        "application/xml"
    } else if str_eq(e, "html") || str_eq(e, "htm") {
        "text/html"
    } else if str_eq(e, "css") {
        "text/css"
    } else if str_eq(e, "js") || str_eq(e, "ts") {
        "application/javascript"
    } else if str_eq(e, "sh") || str_eq(e, "bash") {
        "application/x-sh"
    } else if str_eq(e, "rs") {
        "text/x-rust"
    } else if str_eq(e, "java") || str_eq(e, "kt") {
        "text/x-java"
    } else if str_eq(e, "png") {
        "image/png"
    } else if str_eq(e, "jpg") || str_eq(e, "jpeg") {
        "image/jpeg"
    } else if str_eq(e, "gif") {
        "image/gif"
    } else if str_eq(e, "webp") {
        "image/webp"
    } else if str_eq(e, "svg") {
        "image/svg+xml"
    } else if str_eq(e, "mp3") {
        "audio/mpeg"
    } else if str_eq(e, "wav") {
        "audio/wav"
    } else if str_eq(e, "ogg") {
        "audio/ogg"
    } else if str_eq(e, "mp4") {
        "video/mp4"
    } else if str_eq(e, "webm") {
        "video/webm"
    } else if str_eq(e, "mkv") {
        "video/x-matroska"
    } else if str_eq(e, "zip") {
        "application/zip"
    } else if str_eq(e, "gz") {
        "application/gzip"
    } else if str_eq(e, "tar") {
        "application/x-tar"
    } else if str_eq(e, "7z") {
        "application/x-7z-compressed"
    } else if str_eq(e, "rar") {
        "application/vnd.rar"
    } else if str_eq(e, "pdf") {
        "application/pdf"
    } else if str_eq(e, "apk") {
        "application/vnd.android.package-archive"
    } else {
        "application/octet-stream"
    }
}

/// Content type for a download, guessed from the file name's extension.
pub fn mime_guess(name: &str) -> (r: String)
    ensures
        r@ == mime_of_name(name@),
{
    let ext = match path_extension(name) {
        Some(e) => lowercase(e.as_str()),
        None => String::new(),
    };
    let m = mime_for_ext_exec(ext.as_str());
    m.to_string()
}

/// Paths the file manager refuses to delete.
pub open spec fn protected_path(p: Seq<char>) -> bool {
    p == "/"@ || p == "/system"@ || p == "/data"@ || p == "/vendor"@ || p == "/proc"@ || p
        == "/sys"@ || p == "/dev"@
}

/// Whether a (normalised) path is a protected system directory.
pub fn is_protected_path(p: &str) -> (r: bool)
    ensures
        r == protected_path(p@),
{
    str_eq(p, "/") || str_eq(p, "/system") || str_eq(p, "/data") || str_eq(p, "/vendor") || str_eq(
        p,
        "/proc",
    ) || str_eq(p, "/sys") || str_eq(p, "/dev")
}

/// Largest file (in bytes) the editor will open: 2 MiB.
pub const MAX_EDIT_SIZE: u64 = 2097152;

/// Whether a file of this size may be opened in the editor.
pub fn editable_size(len: u64) -> (r: bool)
    ensures
        r == (len <= 2 * 1024 * 1024),
{
    len <= MAX_EDIT_SIZE
}

} // verus!
