//! Storage mounts and browsing: where a browse request looks, the paths and
//! labels of what it lists, which configuration values are hidden, the
//! storage kinds on offer, and the filesystem roots offered for local
//! mounts.
use vstd::prelude::*;
use crate::files::str_eq;
use crate::text::{append_chars, chars_of, pair_views, string_of};

verus! {

// ==================== browse paths ====================

/// A path separator as browse paths know them.
pub open spec fn is_sep(c: char) -> bool {
    c == '/' || c == '\\'
}

/// A text without its trailing separators.
pub open spec fn trim_seps_end(s: Seq<char>) -> Seq<char>
    decreases s.len(),
{
    if s.len() > 0 && is_sep(s.last()) {
        trim_seps_end(s.drop_last())
    } else {
        s
    }
}

/// A text without its leading separators.
pub open spec fn trim_seps_start(s: Seq<char>) -> Seq<char>
    decreases s.len(),
{
    if s.len() > 0 && is_sep(s[0]) {
        trim_seps_start(s.drop_first())
    } else {
        s
    }
}

fn trim_end_seps(s: &Vec<char>) -> (r: Vec<char>)
    ensures
        r@ == trim_seps_end(s@),
{
    let mut n = s.len();
    assert(s@.subrange(0, s@.len() as int) =~= s@);
    while n > 0 && (s[n - 1] == '/' || s[n - 1] == '\\')
        invariant
            n <= s@.len(),
            trim_seps_end(s@.subrange(0, n as int)) == trim_seps_end(s@),
        decreases n,
    {
        assert(s@.subrange(0, n as int).drop_last() =~= s@.subrange(0, n - 1));
        n = n - 1;
    }
    crate::text::sub_chars(s, 0, n)
}

fn trim_start_seps(s: &Vec<char>) -> (r: Vec<char>)
    ensures
        r@ == trim_seps_start(s@),
{
    let mut a: usize = 0;
    assert(s@.subrange(0, s@.len() as int) =~= s@);
    while a < s.len() && (s[a] == '/' || s[a] == '\\')
        invariant
            a <= s@.len(),
            trim_seps_start(s@.subrange(a as int, s@.len() as int)) == trim_seps_start(s@),
        decreases s@.len() - a,
    {
        assert(s@.subrange(a as int, s@.len() as int).drop_first() =~= s@.subrange(
            a + 1,
            s@.len() as int,
        ));
        a = a + 1;
    }
    crate::text::sub_chars(s, a, s.len())
}

/// The directory a mount browse lists: the mount root itself, or the root
/// without trailing separators, a `/`, and the requested path without
/// leading separators.
pub open spec fn browse_dir(base: Seq<char>, current: Seq<char>) -> Seq<char> {
    if current.len() == 0 {
        base
    } else {
        trim_seps_end(base) + "/"@ + trim_seps_start(current)
    }
}

/// The directory to list for a browse of `current` under the mount root
/// `base`.
pub fn browse_full_path(base: &str, current: &str) -> (r: String)
    ensures
        r@ == browse_dir(base@, current@),
{
    if current.unicode_len() == 0 {
        return base.to_string();
    }
    let mut v = trim_end_seps(&chars_of(base));
    append_chars(&mut v, &chars_of("/"));
    append_chars(&mut v, &trim_start_seps(&chars_of(current)));
    string_of(&v)
}

/// The path of a listed child: its name at the top, else the requested path,
/// a `/` and its name.
pub open spec fn browse_child(current: Seq<char>, name: Seq<char>) -> Seq<char> {
    if current.len() == 0 {
        name
    } else {
        current + "/"@ + name
    }
}

/// The path a browse listing gives a child.
pub fn browse_child_path(current: &str, name: &str) -> (r: String)
    ensures
        r@ == browse_child(current@, name@),
{
    if current.unicode_len() == 0 {
        return name.to_string();
    }
    let mut v = chars_of(current);
    append_chars(&mut v, &chars_of("/"));
    append_chars(&mut v, &chars_of(name));
    string_of(&v)
}

/// The label of the listed directory: the mount root at the top, else the
/// requested path.
pub fn browse_label(base: &str, current: &str) -> (r: String)
    ensures
        r@ == (if current@.len() == 0 {
            base@
        } else {
            current@
        }),
{
    if current.unicode_len() == 0 {
        base.to_string()
    } else {
        current.to_string()
    }
}

/// Names starting with a dot are not listed.
pub fn is_hidden(name: &str) -> (r: bool)
    ensures
        r == (name@.len() > 0 && name@[0] == '.'),
{
    name.unicode_len() > 0 && name.get_char(0) == '.'
}

// ==================== mount configuration ====================

/// Configuration keys whose values are never shown.
pub open spec fn secret_key(k: Seq<char>) -> bool {
    k == "password"@ || k == "client_secret"@ || k == "refresh_token"@
}

/// Whether a mount configuration key holds a secret, shown as `***`.
pub fn is_secret_key(k: &str) -> (r: bool)
    ensures
        r == secret_key(k@),
{
    str_eq(k, "password") || str_eq(k, "client_secret") || str_eq(k, "refresh_token")
}

/// What a mount listing shows in place of a secret value.
pub const SECRET_MASK: &'static str = "***";

/// A mount's configuration as listings show it: every entry in order under
/// its key, with its value kept, except that the value of a secret key is
/// withheld (`None`, shown as [`SECRET_MASK`]).
pub fn mask_secrets<V>(entries: Vec<(String, V)>) -> (r: Vec<(String, Option<V>)>)
    ensures
        r@.len() == entries@.len(),
        forall|i: int|
            0 <= i < r@.len() ==> (#[trigger] r@[i]).0 == entries@[i].0 && r@[i].1 == (if secret_key(
                entries@[i].0@,
            ) {
                None
            } else {
                Some(entries@[i].1)
            }),
{
    let ghost src = entries@;
    let mut rest = entries;
    let mut out: Vec<(String, Option<V>)> = Vec::new();
    let n = rest.len();
    let mut i: usize = 0;
    while i < n
        invariant
            i <= n == src.len(),
            rest@ == src.subrange(i as int, n as int),
            out@.len() == i,
            forall|j: int|
                0 <= j < i ==> (#[trigger] out@[j]).0 == src[j].0 && out@[j].1 == (if secret_key(
                    src[j].0@,
                ) {
                    None
                } else {
                    Some(src[j].1)
                }),
        decreases n - i,
    {
        assert(rest@.len() == n - i);
        let (k, v) = rest.remove(0);
        assert(rest@ =~= src.subrange(i + 1, n as int));
        let shown = if is_secret_key(k.as_str()) {
            None
        } else {
            Some(v)
        };
        out.push((k, shown));
        i = i + 1;
    }
    out
}

/// Why a mount cannot be added under an engine.
#[derive(Debug, Clone, Copy, PartialEq, Eq)]
pub enum MountEngineError {
    /// No engine has the id.
    Missing,
    /// The engine is not the built-in RustSync engine.
    NotBuiltIn,
}

/// Mounts are added only under the built-in engine, given the engine's name
/// (none when no engine has the id).
pub fn check_mount_engine(name: Option<&str>) -> (r: Result<(), MountEngineError>)
    ensures
        name is None ==> r == Err::<(), MountEngineError>(MountEngineError::Missing),
        name matches Some(n) ==> (n@ == "RustSync"@ <==> r is Ok),
        name matches Some(n) ==> (n@ != "RustSync"@ ==> r == Err::<(), MountEngineError>(
            MountEngineError::NotBuiltIn,
        )),
{
    match name {
        None => Err(MountEngineError::Missing),
        Some(n) => if str_eq(n, "RustSync") {
            Ok(())
        } else {
            Err(MountEngineError::NotBuiltIn)
        },
    }
}

impl MountEngineError {
    /// The error's message.
    pub fn message(&self) -> (r: String)
        ensures
            r@ == match *self {
                MountEngineError::Missing => "引擎不存在"@,
                MountEngineError::NotBuiltIn => "不允许在非 RustSync 引擎下添加挂载"@,
            },
    {
        match self {
            MountEngineError::Missing => "引擎不存在".to_string(),
            MountEngineError::NotBuiltIn => "不允许在非 RustSync 引擎下添加挂载".to_string(),
        }
    }
}

/// The storage kinds a mount can have, as (value, label).
pub open spec fn storage_kinds() -> Seq<(Seq<char>, Seq<char>)> {
    seq![
        ("local"@, "本地存储"@),
        ("sftp"@, "SFTP"@),
        ("ftp"@, "FTP"@),
        ("smb"@, "SMB/CIFS"@),
        ("aliyun"@, "阿里云盘"@),
    ]
}

/// The storage kinds on offer.
pub fn storage_type_list() -> (r: Vec<(String, String)>)
    ensures
        pair_views(r@) == storage_kinds(),
{
    let mut r: Vec<(String, String)> = Vec::new();
    r.push(("local".to_string(), "本地存储".to_string()));
    r.push(("sftp".to_string(), "SFTP".to_string()));
    r.push(("ftp".to_string(), "FTP".to_string()));
    r.push(("smb".to_string(), "SMB/CIFS".to_string()));
    r.push(("aliyun".to_string(), "阿里云盘".to_string()));
    assert(pair_views(r@) =~= storage_kinds());
    r
}

// ==================== filesystem roots ====================

/// Whether a path occurs among the (name, path) roots.
pub open spec fn has_root(roots: Seq<(Seq<char>, Seq<char>)>, path: Seq<char>) -> bool {
    exists|i: int| 0 <= i < roots.len() && #[trigger] roots[i].1 == path
}

/// The roots with every path kept once, at its first occurrence.
pub open spec fn distinct_roots(cands: Seq<(Seq<char>, Seq<char>)>) -> Seq<(Seq<char>, Seq<char>)>
    decreases cands.len(),
{
    if cands.len() == 0 {
        Seq::<(Seq<char>, Seq<char>)>::empty()
    } else {
        let r = distinct_roots(cands.drop_last());
        if has_root(r, cands.last().1) {
            r
        } else {
            r.push(cands.last())
        }
    }
}

proof fn lemma_distinct_roots_paths(cands: Seq<(Seq<char>, Seq<char>)>, path: Seq<char>)
    ensures
        has_root(distinct_roots(cands), path) == has_root(cands, path),
    decreases cands.len(),
{
    if cands.len() > 0 {
        let init = cands.drop_last();
        let last = cands.last();
        lemma_distinct_roots_paths(init, path);
        let r = distinct_roots(init);
        if has_root(cands, path) {
            let i = choose|i: int| 0 <= i < cands.len() && #[trigger] cands[i].1 == path;
            if i < init.len() {
                assert(init[i].1 == path);
            }
        }
        if has_root(init, path) {
            let i = choose|i: int| 0 <= i < init.len() && #[trigger] init[i].1 == path;
            assert(cands[i].1 == path);
        }
        if last.1 == path {
            assert(cands[cands.len() - 1].1 == path);
        }
        if !has_root(r, last.1) {
            let d = r.push(last);
            if has_root(d, path) {
                let i = choose|i: int| 0 <= i < d.len() && #[trigger] d[i].1 == path;
                if i < r.len() {
                    assert(r[i].1 == path);
                }
            }
            if has_root(r, path) {
                let i = choose|i: int| 0 <= i < r.len() && #[trigger] r[i].1 == path;
                assert(d[i].1 == path);
            }
            if last.1 == path {
                assert(d[r.len() as int].1 == path);
            }
        }
    }
}

fn path_listed(roots: &Vec<(String, String)>, path: &str) -> (r: bool)
    ensures
        r == has_root(pair_views(roots@), path@),
{
    let mut i: usize = 0;
    while i < roots.len()
        invariant
            i <= roots@.len(),
            forall|j: int| 0 <= j < i ==> (#[trigger] pair_views(roots@)[j]).1 != path@,
        decreases roots@.len() - i,
    {
        if str_eq(roots[i].1.as_str(), path) {
            assert(pair_views(roots@)[i as int].1 == path@);
            return true;
        }
        i = i + 1;
    }
    false
}

/// The filesystem roots offered for local mounts from their (name,
/// canonical path) candidates in order: each path once, at its first
/// occurrence.
pub fn dedup_roots(candidates: &Vec<(String, String)>) -> (r: Vec<(String, String)>)
    ensures
        pair_views(r@) == distinct_roots(pair_views(candidates@)),
{
    let ghost cs = pair_views(candidates@);
    let mut r: Vec<(String, String)> = Vec::new();
    let mut i: usize = 0;
    assert(pair_views(r@) =~= distinct_roots(cs.subrange(0, 0)));
    while i < candidates.len()
        invariant
            i <= candidates@.len(),
            cs == pair_views(candidates@),
            pair_views(r@) == distinct_roots(cs.subrange(0, i as int)),
        decreases candidates@.len() - i,
    {
        assert(cs.subrange(0, i + 1).drop_last() =~= cs.subrange(0, i as int));
        assert(cs.subrange(0, i + 1).last() == cs[i as int]);
        if !path_listed(&r, candidates[i].1.as_str()) {
            let ghost before = pair_views(r@);
            r.push((candidates[i].0.clone(), candidates[i].1.clone()));
            assert(pair_views(r@) =~= before.push(cs[i as int]));
        }
        i = i + 1;
    }
    assert(cs.subrange(0, candidates@.len() as int) =~= cs);
    r
}

/// Law: the offered roots hold every candidate path, and no path twice.
pub proof fn law_roots_distinct(cands: Seq<(Seq<char>, Seq<char>)>, path: Seq<char>, i: int, j: int)
    requires
        0 <= i < j < distinct_roots(cands).len(),
    ensures
        has_root(distinct_roots(cands), path) == has_root(cands, path),
        distinct_roots(cands)[i].1 != distinct_roots(cands)[j].1,
    decreases cands.len(),
{
    lemma_distinct_roots_paths(cands, path);
    let init = cands.drop_last();
    let r = distinct_roots(init);
    if j < r.len() {
        law_roots_distinct(init, path, i, j);
    } else {
        assert(!has_root(r, cands.last().1));
        assert(r[i].1 != cands.last().1);
    }
}

} // verus!
