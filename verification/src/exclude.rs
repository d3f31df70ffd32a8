//! Exclusion patterns and size filters applied while scanning a tree, and the
//! entries a scan produces.
use vstd::prelude::*;
use crate::paths::slashes;
use crate::sync::{fingerprint_text, opt_text, EntryView, FileEntry};
use crate::text::{append_chars, chars_of, string_of};

verus! {

/// Whether `glob::Pattern::new` accepts the pattern text.
pub uninterp spec fn spec_glob_valid(pattern: Seq<char>) -> bool;

/// Whether the glob pattern compiled from `pattern` matches `text`
/// (`glob::Pattern::matches`).
pub uninterp spec fn spec_glob_matches(pattern: Seq<char>, text: Seq<char>) -> bool;

/// `glob::Pattern::new(pattern).is_ok()`.
#[verifier::external_body]
fn glob_valid(pattern: &str) -> (r: bool)
    ensures
        r == spec_glob_valid(pattern@),
{
    glob::Pattern::new(pattern).is_ok()
}

/// `glob::Pattern::matches` for a valid pattern text.
#[verifier::external_body]
fn glob_matches(pattern: &str, text: &str) -> (r: bool)
    requires
        spec_glob_valid(pattern@),
    ensures
        r == spec_glob_matches(pattern@, text@),
{
    match glob::Pattern::new(pattern) {
        Ok(p) => p.matches(text),
        Err(_) => false,
    }
}

/// A glob pattern that compiles.
pub struct GlobPattern {
    source: String,
}

impl View for GlobPattern {
    type V = Seq<char>;

    closed spec fn view(&self) -> Seq<char> {
        self.source@
    }
}

impl GlobPattern {
    #[verifier::type_invariant]
    closed spec fn inv(self) -> bool {
        spec_glob_valid(self.source@)
    }

    /// Compiles a pattern; `None` when the glob syntax is invalid.
    pub fn new(pattern: &str) -> (r: Option<GlobPattern>)
        ensures
            r is Some == spec_glob_valid(pattern@),
            r matches Some(p) ==> p@ == pattern@,
    {
        if glob_valid(pattern) {
            Some(GlobPattern { source: pattern.to_string() })
        } else {
            None
        }
    }

    /// Whether the pattern matches a text.
    pub fn matches(&self, text: &str) -> (r: bool)
        ensures
            r == spec_glob_matches(self@, text@),
    {
        proof {
            use_type_invariant(self);
        }
        glob_matches(self.source.as_str(), text)
    }
}

/// The pattern texts that compile, in order.
pub open spec fn valid_patterns(ps: Seq<Seq<char>>) -> Seq<Seq<char>>
    decreases ps.len(),
{
    if ps.len() == 0 {
        Seq::<Seq<char>>::empty()
    } else if spec_glob_valid(ps.last()) {
        valid_patterns(ps.drop_last()).push(ps.last())
    } else {
        valid_patterns(ps.drop_last())
    }
}

pub open spec fn pattern_views(ps: Seq<GlobPattern>) -> Seq<Seq<char>> {
    ps.map_values(|p: GlobPattern| p@)
}

/// Compiles exclusion patterns, silently dropping invalid ones.
pub fn compile_patterns(patterns: &[String]) -> (r: Vec<GlobPattern>)
    ensures
        pattern_views(r@) == valid_patterns(patterns@.map_values(|s: String| s@)),
{
    let ghost all = patterns@.map_values(|s: String| s@);
    let mut r: Vec<GlobPattern> = Vec::new();
    let mut i: usize = 0;
    while i < patterns.len()
        invariant
            i <= patterns@.len(),
            all == patterns@.map_values(|s: String| s@),
            pattern_views(r@) == valid_patterns(all.subrange(0, i as int)),
        decreases patterns@.len() - i,
    {
        assert(all.subrange(0, i + 1).drop_last() =~= all.subrange(0, i as int));
        assert(all.subrange(0, i + 1).last() == patterns@[i as int]@);
        let ghost before = pattern_views(r@);
        match GlobPattern::new(patterns[i].as_str()) {
            Some(p) => {
                r.push(p);
                assert(pattern_views(r@) =~= before.push(patterns@[i as int]@));
            },
            None => {},
        }
        i = i + 1;
    }
    assert(all.subrange(0, patterns@.len() as int) =~= all);
    r
}

/// A scanned path is excluded when some pattern matches its relative path.
/// Patterns are held against the whole relative path only: a rule meant for
/// any depth carries `**/` in front (see `crate::paths::glob_of_rule`), so a
/// rule anchored at the root matches nothing deeper down.
pub open spec fn excluded_by(rel_path: Seq<char>, ps: Seq<Seq<char>>) -> bool {
    exists|i: int| 0 <= i < ps.len() && spec_glob_matches(#[trigger] ps[i], rel_path)
}

/// Whether the exclusion patterns reject a relative path.
pub fn is_excluded(rel_path: &str, patterns: &[GlobPattern]) -> (r: bool)
    ensures
        r == excluded_by(rel_path@, pattern_views(patterns@)),
{
    let ghost ps = pattern_views(patterns@);
    let mut i: usize = 0;
    while i < patterns.len()
        invariant
            i <= patterns@.len(),
            ps == pattern_views(patterns@),
            forall|k: int| 0 <= k < i ==> !spec_glob_matches(#[trigger] ps[k], rel_path@),
        decreases patterns@.len() - i,
    {
        let p = &patterns[i];
        assert(ps[i as int] == p@);
        if p.matches(rel_path) {
            return true;
        }
        i = i + 1;
    }
    false
}

/// A file size passes the optional lower and upper bounds (both inclusive).
pub open spec fn size_allowed(size: i64, min: Option<i64>, max: Option<i64>) -> bool {
    &&& (match min {
        Some(m) => size >= m,
        None => true,
    })
    &&& (match max {
        Some(m) => size <= m,
        None => true,
    })
}

/// Whether a file size passes the size filter.
pub fn size_passes(size: i64, min: Option<i64>, max: Option<i64>) -> (r: bool)
    ensures
        r == size_allowed(size, min, max),
{
    let lo = match min {
        Some(m) => size >= m,
        None => true,
    };
    let hi = match max {
        Some(m) => size <= m,
        None => true,
    };
    lo && hi
}

/// The entry a scan records: relative path with `/` separators; files carry
/// their fingerprint, directories none.
pub open spec fn scanned_entry(
    rel_raw: Seq<char>,
    name: Seq<char>,
    is_dir: bool,
    size: i64,
    modified: Option<i64>,
) -> EntryView {
    EntryView {
        path: slashes(rel_raw),
        name,
        is_dir,
        size,
        modified,
        fingerprint: if is_dir {
            None
        } else {
            Some(fingerprint_text(size, false, modified))
        },
    }
}

/// Decides what a scan keeps of one directory entry: nothing when excluded
/// by a pattern or (for files) outside the size bounds, otherwise its entry.
pub fn scan_entry(
    rel_raw: &str,
    name: &str,
    is_dir: bool,
    size: i64,
    modified: Option<i64>,
    patterns: &[GlobPattern],
    min_size: Option<i64>,
    max_size: Option<i64>,
) -> (r: Option<FileEntry>)
    ensures
        match r {
            Some(e) => e@ == scanned_entry(rel_raw@, name@, is_dir, size, modified) && !excluded_by(slashes(rel_raw@), pattern_views(patterns@)) && (is_dir || size_allowed(size, min_size, max_size)),
            None => excluded_by(slashes(rel_raw@), pattern_views(patterns@)) || (!is_dir
                && !size_allowed(size, min_size, max_size)),
        },
{
    let raw = chars_of(rel_raw);
    let mut rel: Vec<char> = Vec::new();
    let mut i: usize = 0;
    while i < raw.len()
        invariant
            i <= raw@.len(),
            rel@ == slashes(raw@.subrange(0, i as int)),
        decreases raw@.len() - i,
    {
        let c = raw[i];
        rel.push(if c == '\\' { '/' } else { c });
        i = i + 1;
        assert(rel@ =~= slashes(raw@.subrange(0, i as int)));
    }
    assert(raw@.subrange(0, raw@.len() as int) =~= raw@);
    let rel_path = string_of(&rel);
    if is_excluded(rel_path.as_str(), patterns) {
        return None;
    }
    if !is_dir && !size_passes(size, min_size, max_size) {
        return None;
    }
    let fingerprint = if is_dir {
        None
    } else {
        Some(crate::sync::compute_fingerprint_raw(size, false, modified))
    };
    Some(FileEntry { path: rel_path, name: name.to_string(), is_dir, size, modified, fingerprint })
}

/// `dir.trim_end_matches('/')`.
pub open spec fn strip_trailing_slashes(s: Seq<char>) -> Seq<char>
    decreases s.len(),
{
    if s.len() > 0 && s.last() == '/' {
        strip_trailing_slashes(s.drop_last())
    } else {
        s
    }
}

/// The relative path of a child: the directory without trailing `/`, a `/`,
/// then the child's name.
pub open spec fn child_path(dir: Seq<char>, name: Seq<char>) -> Seq<char> {
    strip_trailing_slashes(dir) + seq!['/'] + name
}

/// Builds the relative path of a child entry.
pub fn join_child(dir: &str, name: &str) -> (r: String)
    ensures
        r@ == child_path(dir@, name@),
{
    let d = chars_of(dir);
    let mut k = d.len();
    assert(d@.subrange(0, k as int) =~= d@);
    while k > 0 && d[k - 1] == '/'
        invariant
            k <= d@.len(),
            strip_trailing_slashes(d@.subrange(0, k as int)) == strip_trailing_slashes(d@),
        decreases k,
    {
        assert(d@.subrange(0, k as int).drop_last() =~= d@.subrange(0, k - 1));
        k = k - 1;
    }
    let mut r = crate::text::sub_chars(&d, 0, k);
    r.push('/');
    let n = chars_of(name);
    append_chars(&mut r, &n);
    string_of(&r)
}

/// What to do with one child of a target-only directory during a filtered
/// full sync.
#[derive(Debug, PartialEq, Eq, Structural)]
pub enum ChildAction {
    /// Excluded by a pattern, or a file outside the size bounds: left alone.
    Keep,
    /// A directory: handled the same way, recursively.
    Descend,
    /// A file within the size bounds: deleted.
    Remove,
}

/// Decides the fate of one child of a directory that exists only on the
/// target, when full sync runs with a size filter.
pub fn target_only_child(
    dir_path: &str,
    name: &str,
    is_dir: bool,
    size: i64,
    patterns: &[GlobPattern],
    min_size: Option<i64>,
    max_size: Option<i64>,
) -> (r: ChildAction)
    ensures
        r == (if excluded_by(child_path(dir_path@, name@), pattern_views(patterns@)) {
            ChildAction::Keep
        } else if is_dir {
            ChildAction::Descend
        } else if size_allowed(size, min_size, max_size) {
            ChildAction::Remove
        } else {
            ChildAction::Keep
        }),
{
    let rel = join_child(dir_path, name);
    if is_excluded(rel.as_str(), patterns) {
        ChildAction::Keep
    } else if is_dir {
        ChildAction::Descend
    } else if size_passes(size, min_size, max_size) {
        ChildAction::Remove
    } else {
        ChildAction::Keep
    }
}

} // verus!
