//! The sync planner: file entries, snapshots, fingerprints and the two ways of
//! deciding which copy, move and delete operations bring a target up to date.
use vstd::prelude::*;
use vstd::hash_map::StringHashMap;
use crate::text::{append_chars, dec_int, i64_digits, string_of};

verus! {

/// One file or directory found by a scan, with its path relative to the root.
#[derive(Debug, Clone)]
pub struct FileEntry {
    pub path: String,
    pub name: String,
    pub is_dir: bool,
    pub size: i64,
    pub modified: Option<i64>,
    pub fingerprint: Option<String>,
}

/// Mathematical model of a [`FileEntry`].
pub struct EntryView {
    pub path: Seq<char>,
    pub name: Seq<char>,
    pub is_dir: bool,
    pub size: i64,
    pub modified: Option<i64>,
    pub fingerprint: Option<Seq<char>>,
}

pub open spec fn opt_text(o: Option<String>) -> Option<Seq<char>> {
    match o {
        Some(s) => Some(s@),
        None => None,
    }
}

impl View for FileEntry {
    type V = EntryView;

    open spec fn view(&self) -> EntryView {
        EntryView {
            path: self.path@,
            name: self.name@,
            is_dir: self.is_dir,
            size: self.size,
            modified: self.modified,
            fingerprint: opt_text(self.fingerprint),
        }
    }
}

/// One step of a synchronisation plan.
#[derive(Debug, Clone, PartialEq)]
pub enum SyncOperation {
    Copy { src: String, dst: String, size: i64 },
    Delete { path: String, is_dir: bool },
    Move { src: String, dst: String, size: i64 },
}

/// Mathematical model of a [`SyncOperation`].
pub enum OpView {
    Copy { src: Seq<char>, dst: Seq<char>, size: i64 },
    Delete { path: Seq<char>, is_dir: bool },
    Move { src: Seq<char>, dst: Seq<char>, size: i64 },
}

impl View for SyncOperation {
    type V = OpView;

    open spec fn view(&self) -> OpView {
        match self {
            SyncOperation::Copy { src, dst, size } => OpView::Copy {
                src: src@,
                dst: dst@,
                size: *size,
            },
            SyncOperation::Delete { path, is_dir } => OpView::Delete { path: path@, is_dir: *is_dir },
            SyncOperation::Move { src, dst, size } => OpView::Move {
                src: src@,
                dst: dst@,
                size: *size,
            },
        }
    }
}

/// The models of a sequence of operations.
pub open spec fn op_views(ops: Seq<SyncOperation>) -> Seq<OpView> {
    ops.map_values(|o: SyncOperation| o@)
}

/// The models of a sequence of entries.
pub open spec fn entry_views(es: Seq<FileEntry>) -> Seq<EntryView> {
    es.map_values(|e: FileEntry| e@)
}

/// The paths of a sequence of entry models.
pub open spec fn entry_paths(es: Seq<EntryView>) -> Seq<Seq<char>> {
    es.map_values(|e: EntryView| e.path)
}

// ==================== fingerprints ====================

/// The text `true` or `false`, as `bool` prints.
pub open spec fn bool_text(b: bool) -> Seq<char> {
    if b {
        seq!['t', 'r', 'u', 'e']
    } else {
        seq!['f', 'a', 'l', 's', 'e']
    }
}

/// `size:is_dir:modified`, with a missing modification time printed as 0.
pub open spec fn fingerprint_text(size: i64, is_dir: bool, modified: Option<i64>) -> Seq<char> {
    let m: i64 = match modified {
        Some(t) => t,
        None => 0,
    };
    dec_int(size as int) + seq![':'] + bool_text(is_dir) + seq![':'] + dec_int(m as int)
}

/// The fingerprint of an entry model.
pub open spec fn entry_fingerprint(e: EntryView) -> Seq<char> {
    fingerprint_text(e.size, e.is_dir, e.modified)
}

fn bool_chars(b: bool) -> (r: Vec<char>)
    ensures
        r@ == bool_text(b),
{
    let r = if b {
        vec!['t', 'r', 'u', 'e']
    } else {
        vec!['f', 'a', 'l', 's', 'e']
    };
    assert(r@ =~= bool_text(b));
    r
}

/// Fingerprint of raw metadata, used to detect changed files.
pub fn compute_fingerprint_raw(size: i64, is_dir: bool, modified: Option<i64>) -> (r: String)
    ensures
        r@ == fingerprint_text(size, is_dir, modified),
{
    let m: i64 = match modified {
        Some(t) => t,
        None => 0,
    };
    let mut v = i64_digits(size);
    v.push(':');
    let b = bool_chars(is_dir);
    append_chars(&mut v, &b);
    v.push(':');
    let d = i64_digits(m);
    append_chars(&mut v, &d);
    assert(v@ =~= fingerprint_text(size, is_dir, modified));
    string_of(&v)
}

/// Fingerprint of a scanned entry.
pub fn compute_fingerprint(entry: &FileEntry) -> (r: String)
    ensures
        r@ == entry_fingerprint(entry@),
{
    compute_fingerprint_raw(entry.size, entry.is_dir, entry.modified)
}

// ==================== snapshots ====================

/// One entry of a saved source snapshot.
#[derive(Debug, Clone)]
pub struct SnapshotEntry {
    pub path: String,
    pub is_dir: bool,
    pub size: Option<i64>,
    pub fingerprint: Option<String>,
}

/// Mathematical model of a [`SnapshotEntry`].
pub struct SnapView {
    pub path: Seq<char>,
    pub is_dir: bool,
    pub size: Option<i64>,
    pub fingerprint: Option<Seq<char>>,
}

impl View for SnapshotEntry {
    type V = SnapView;

    open spec fn view(&self) -> SnapView {
        SnapView {
            path: self.path@,
            is_dir: self.is_dir,
            size: self.size,
            fingerprint: opt_text(self.fingerprint),
        }
    }
}

pub open spec fn snap_views(es: Seq<SnapshotEntry>) -> Seq<SnapView> {
    es.map_values(|e: SnapshotEntry| e@)
}

pub open spec fn snap_paths(es: Seq<SnapView>) -> Seq<Seq<char>> {
    es.map_values(|e: SnapView| e.path)
}

/// No path occurs twice.
pub open spec fn unique_paths(paths: Seq<Seq<char>>) -> bool {
    forall|i: int, j: int| 0 <= i < paths.len() && 0 <= j < paths.len() && i != j ==> paths[i]
        != paths[j]
}

/// A saved snapshot: the source entries of the last successful run, keyed by
/// path (each path at most once).
pub struct Snapshot {
    entries: Vec<SnapshotEntry>,
}

impl View for Snapshot {
    type V = Seq<SnapView>;

    closed spec fn view(&self) -> Seq<SnapView> {
        snap_views(self.entries@)
    }
}

impl Snapshot {
    #[verifier::type_invariant]
    closed spec fn inv(self) -> bool {
        unique_paths(snap_paths(snap_views(self.entries@)))
    }

    /// Number of entries.
    pub fn len(&self) -> (n: usize)
        ensures
            n == self@.len(),
    {
        self.entries.len()
    }

    /// Builds a snapshot from stored rows; a later row replaces an earlier one
    /// with the same path, as collecting into a map does.
    pub fn from_rows(rows: Vec<SnapshotEntry>) -> (s: Snapshot)
        ensures
            s@ == collect_rows(snap_views(rows@)),
    {
        let mut entries: Vec<SnapshotEntry> = Vec::new();
        let mut index: StringHashMap<usize> = StringHashMap::new();
        let mut i: usize = 0;
        while i < rows.len()
            invariant
                i <= rows@.len(),
                snap_views(entries@) == collect_rows(snap_views(rows@).subrange(0, i as int)),
                unique_paths(snap_paths(snap_views(entries@))),
                forall|p: Seq<char>| #[trigger]
                    index@.contains_key(p) <==> snap_paths(snap_views(entries@)).contains(p),
                forall|p: Seq<char>| #[trigger]
                    index@.contains_key(p) ==> index@[p] < entries@.len() && entries@[index@[p] as int].path@
                        == p,
            decreases rows@.len() - i,
        {
            let row = copy_row(&rows[i]);
            let ghost old_entries = snap_views(entries@);
            let ghost pre = snap_views(rows@).subrange(0, i as int);
            assert(snap_views(rows@).subrange(0, i + 1).drop_last() =~= pre);
            assert(snap_views(rows@).subrange(0, i + 1).last() == row@);
            match index.get(row.path.as_str()) {
                Some(j) => {
                    let j = *j;
                    proof {
                        lemma_upsert_found(old_entries, row@, j as int);
                    }
                    entries.set(j, row);
                    assert(snap_views(entries@) =~= old_entries.update(j as int, rows@[i as int]@));
                    proof {
                        assert(snap_paths(snap_views(entries@)) =~= snap_paths(old_entries));
                    }
                },
                None => {
                    proof {
                        lemma_upsert_missing(old_entries, row@);
                    }
                    let key = row.path.clone();
                    let n = entries.len();
                    let ghost old_vec = entries@;
                    entries.push(row);
                    index.insert(key, n);
                    assert(snap_views(entries@) =~= old_entries.push(rows@[i as int]@));
                    proof {
                        assert(snap_paths(snap_views(entries@)) =~= snap_paths(old_entries).push(
                            rows@[i as int]@.path,
                        ));
                        assert forall|p: Seq<char>| #[trigger]
                            index@.contains_key(p) <==> snap_paths(snap_views(entries@)).contains(p) by {
                            lemma_contains_push(snap_paths(old_entries), row@.path, p);
                        }
                        assert forall|p: Seq<char>| #[trigger]
                            index@.contains_key(p) implies index@[p] < entries@.len()
                            && entries@[index@[p] as int].path@ == p by {
                            if p != key@ {
                                assert(entries@[index@[p] as int] == old_vec[index@[p] as int]);
                            }
                        }
                        assert forall|a: int, b: int|
                            0 <= a < snap_paths(snap_views(entries@)).len() && 0 <= b
                                < snap_paths(snap_views(entries@)).len() && a != b implies snap_paths(
                            snap_views(entries@),
                        )[a] != snap_paths(snap_views(entries@))[b] by {
                            if a == n as int {
                                assert(!snap_paths(old_entries).contains(row@.path));
                                assert(snap_paths(old_entries)[b] == snap_paths(snap_views(entries@))[b]);
                            } else if b == n as int {
                                assert(!snap_paths(old_entries).contains(row@.path));
                                assert(snap_paths(old_entries)[a] == snap_paths(snap_views(entries@))[a]);
                            }
                        }
                    }
                },
            }
            i = i + 1;
        }
        assert(snap_views(rows@).subrange(0, rows@.len() as int) =~= snap_views(rows@));
        Snapshot { entries }
    }
}

fn copy_text(o: &Option<String>) -> (r: Option<String>)
    ensures
        opt_text(r) == opt_text(*o),
{
    match o {
        Some(s) => Some(s.clone()),
        None => None,
    }
}

fn copy_row(r: &SnapshotEntry) -> (c: SnapshotEntry)
    ensures
        c@ == r@,
{
    SnapshotEntry {
        path: r.path.clone(),
        is_dir: r.is_dir,
        size: r.size,
        fingerprint: copy_text(&r.fingerprint),
    }
}

pub proof fn lemma_contains_push(paths: Seq<Seq<char>>, q: Seq<char>, p: Seq<char>)
    ensures
        paths.push(q).contains(p) <==> (paths.contains(p) || p == q),
{
    let np = paths.push(q);
    if p == q {
        assert(np[paths.len() as int] == q);
    }
    if np.contains(p) && p != q {
        let k = choose|k: int| 0 <= k < np.len() && np[k] == p;
        assert(paths[k] == p);
    }
    if paths.contains(p) {
        let k = choose|k: int| 0 <= k < paths.len() && paths[k] == p;
        assert(np[k] == p);
    }
}

/// Position of the last occurrence of `p`.
pub open spec fn last_pos(paths: Seq<Seq<char>>, p: Seq<char>) -> Option<int>
    decreases paths.len(),
{
    if paths.len() == 0 {
        None
    } else if paths.last() == p {
        Some(paths.len() - 1)
    } else {
        last_pos(paths.drop_last(), p)
    }
}

/// Inserts a row, replacing the entry with the same path if there is one.
pub open spec fn upsert(s: Seq<SnapView>, row: SnapView) -> Seq<SnapView> {
    match last_pos(snap_paths(s), row.path) {
        Some(j) => s.update(j, row),
        None => s.push(row),
    }
}

/// Rows collected into a path-keyed table, later rows winning.
pub open spec fn collect_rows(rows: Seq<SnapView>) -> Seq<SnapView>
    decreases rows.len(),
{
    if rows.len() == 0 {
        Seq::<SnapView>::empty()
    } else {
        upsert(collect_rows(rows.drop_last()), rows.last())
    }
}

pub proof fn lemma_last_pos(paths: Seq<Seq<char>>, p: Seq<char>)
    ensures
        match last_pos(paths, p) {
            Some(j) => 0 <= j < paths.len() && paths[j] == p && forall|k: int|
                j < k < paths.len() ==> paths[k] != p,
            None => !paths.contains(p),
        },
    decreases paths.len(),
{
    if paths.len() == 0 {
    } else if paths.last() == p {
    } else {
        let t = paths.drop_last();
        lemma_last_pos(t, p);
        match last_pos(t, p) {
            Some(j) => {
                assert(paths[j] == t[j]);
                assert forall|k: int| j < k < paths.len() implies paths[k] != p by {
                    if k < paths.len() - 1 {
                        assert(paths[k] == t[k]);
                    }
                }
            },
            None => {
                assert forall|k: int| 0 <= k < paths.len() implies paths[k] != p by {
                    if k < paths.len() - 1 {
                        assert(t[k] == paths[k]);
                    }
                }
            },
        }
    }
}

pub proof fn lemma_last_pos_at(paths: Seq<Seq<char>>, p: Seq<char>, j: int)
    requires
        0 <= j < paths.len(),
        paths[j] == p,
        forall|k: int| j < k < paths.len() ==> paths[k] != p,
    ensures
        last_pos(paths, p) == Some(j),
    decreases paths.len(),
{
    if j < paths.len() - 1 {
        assert(paths.last() != p);
        let t = paths.drop_last();
        assert forall|k: int| j < k < t.len() implies t[k] != p by {
            assert(t[k] == paths[k]);
        }
        lemma_last_pos_at(t, p, j);
    }
}

pub proof fn lemma_last_pos_none(paths: Seq<Seq<char>>, p: Seq<char>)
    requires
        !paths.contains(p),
    ensures
        last_pos(paths, p) is None,
{
    lemma_last_pos(paths, p);
    if let Some(j) = last_pos(paths, p) {
        assert(paths.contains(p));
    }
}

proof fn lemma_upsert_found(s: Seq<SnapView>, row: SnapView, j: int)
    requires
        unique_paths(snap_paths(s)),
        0 <= j < s.len(),
        s[j].path == row.path,
    ensures
        upsert(s, row) == s.update(j, row),
{
    let ps = snap_paths(s);
    assert forall|k: int| j < k < ps.len() implies ps[k] != row.path by {
        assert(ps[j] == row.path);
    }
    lemma_last_pos_at(ps, row.path, j);
}

proof fn lemma_upsert_missing(s: Seq<SnapView>, row: SnapView)
    requires
        !snap_paths(s).contains(row.path),
    ensures
        upsert(s, row) == s.push(row),
{
    lemma_last_pos_none(snap_paths(s), row.path);
}

/// The rows that saving a snapshot of `entries` stores: directories keep no
/// size and no fingerprint.
pub open spec fn snapshot_row(e: EntryView) -> SnapView {
    SnapView {
        path: e.path,
        is_dir: e.is_dir,
        size: if e.is_dir {
            None
        } else {
            Some(e.size)
        },
        fingerprint: if e.is_dir {
            None
        } else {
            Some(entry_fingerprint(e))
        },
    }
}

/// The snapshot rows saved for a scan.
pub fn snapshot_rows(entries: &[FileEntry]) -> (rows: Vec<SnapshotEntry>)
    ensures
        snap_views(rows@) == entry_views(entries@).map_values(|e: EntryView| snapshot_row(e)),
{
    let mut rows: Vec<SnapshotEntry> = Vec::new();
    let mut i: usize = 0;
    while i < entries.len()
        invariant
            i <= entries@.len(),
            snap_views(rows@) == entry_views(entries@).subrange(0, i as int).map_values(
                |e: EntryView| snapshot_row(e),
            ),
        decreases entries@.len() - i,
    {
        let e = &entries[i];
        let row = if e.is_dir {
            SnapshotEntry { path: e.path.clone(), is_dir: true, size: None, fingerprint: None }
        } else {
            SnapshotEntry {
                path: e.path.clone(),
                is_dir: false,
                size: Some(e.size),
                fingerprint: Some(compute_fingerprint(e)),
            }
        };
        assert(row@ == snapshot_row(e@));
        let ghost before = snap_views(rows@);
        rows.push(row);
        assert(snap_views(rows@) =~= before.push(row@));
        assert(entry_views(entries@).subrange(0, i + 1) =~= entry_views(entries@).subrange(0, i as int).push(e@));
        i = i + 1;
        assert(snap_views(rows@) =~= entry_views(entries@).subrange(0, i as int).map_values(
            |e: EntryView| snapshot_row(e),
        ));
    }
    assert(entry_views(entries@).subrange(0, entries@.len() as int) =~= entry_views(entries@));
    rows
}

// ==================== planning ====================

/// The transfer that brings one source file over: a move in move mode,
/// otherwise a copy; source and target share the relative path.
pub open spec fn transfer_op(e: EntryView, move_mode: bool, size: i64) -> OpView {
    if move_mode {
        OpView::Move { src: e.path, dst: e.path, size }
    } else {
        OpView::Copy { src: e.path, dst: e.path, size }
    }
}

/// A snapshot row no longer describes the source file.
pub open spec fn snapshot_changed(p: SnapView, e: EntryView) -> bool {
    p.size != Some(e.size) || p.fingerprint != Some(entry_fingerprint(e))
}

/// Transfers for new or changed source files, in source order.
pub open spec fn snapshot_transfers(cur: Seq<EntryView>, prev: Seq<SnapView>, method: i32) -> Seq<
    OpView,
>
    decreases cur.len(),
{
    if cur.len() == 0 {
        Seq::<OpView>::empty()
    } else {
        let rest = snapshot_transfers(cur.drop_last(), prev, method);
        let e = cur.last();
        if e.is_dir {
            rest
        } else {
            match last_pos(snap_paths(prev), e.path) {
                Some(j) => if snapshot_changed(prev[j], e) {
                    rest.push(transfer_op(e, method == 2, e.size))
                } else {
                    rest
                },
                None => rest.push(transfer_op(e, method == 2, e.size)),
            }
        }
    }
}

/// Deletions of snapshot paths that are gone from the source (full sync only).
pub open spec fn snapshot_deletes(prev: Seq<SnapView>, cur: Seq<EntryView>, method: i32) -> Seq<
    OpView,
>
    decreases prev.len(),
{
    if method != 1 || prev.len() == 0 {
        Seq::<OpView>::empty()
    } else {
        let rest = snapshot_deletes(prev.drop_last(), cur, method);
        let p = prev.last();
        if entry_paths(cur).contains(p.path) {
            rest
        } else {
            rest.push(OpView::Delete { path: p.path, is_dir: p.is_dir })
        }
    }
}

/// The plan of snapshot mode.
pub open spec fn snapshot_plan(cur: Seq<EntryView>, prev: Seq<SnapView>, method: i32) -> Seq<OpView> {
    snapshot_transfers(cur, prev, method) + snapshot_deletes(prev, cur, method)
}

/// Operations for the source entries in live mode, in source order.
pub open spec fn live_transfers(src: Seq<EntryView>, dst: Seq<EntryView>, method: i32) -> Seq<OpView>
    decreases src.len(),
{
    if src.len() == 0 {
        Seq::<OpView>::empty()
    } else {
        let rest = live_transfers(src.drop_last(), dst, method);
        let e = src.last();
        match last_pos(entry_paths(dst), e.path) {
            Some(j) => if e.is_dir {
                rest
            } else if e.size != dst[j].size || e.modified != dst[j].modified {
                rest.push(transfer_op(e, method == 2, e.size))
            } else {
                rest
            },
            None => if method == 2 {
                if e.is_dir {
                    rest
                } else {
                    rest.push(transfer_op(e, true, e.size))
                }
            } else {
                rest.push(transfer_op(e, false, if e.is_dir { 0 } else { e.size }))
            },
        }
    }
}

/// Deletions of target entries missing from the source (full sync only).
pub open spec fn live_deletes(dst: Seq<EntryView>, src: Seq<EntryView>, method: i32) -> Seq<OpView>
    decreases dst.len(),
{
    if method != 1 || dst.len() == 0 {
        Seq::<OpView>::empty()
    } else {
        let rest = live_deletes(dst.drop_last(), src, method);
        let d = dst.last();
        if entry_paths(src).contains(d.path) {
            rest
        } else {
            rest.push(OpView::Delete { path: d.path, is_dir: d.is_dir })
        }
    }
}

/// The plan of live mode.
pub open spec fn live_plan(src: Seq<EntryView>, dst: Seq<EntryView>, method: i32) -> Seq<OpView> {
    live_transfers(src, dst, method) + live_deletes(dst, src, method)
}

/// The map is the index from each path to its last position.
pub open spec fn is_last_index(paths: Seq<Seq<char>>, m: Map<Seq<char>, usize>) -> bool {
    &&& forall|p: Seq<char>| #[trigger] m.contains_key(p) <==> paths.contains(p)
    &&& forall|p: Seq<char>| #[trigger] m.contains_key(p) ==> last_pos(paths, p) == Some(m[p] as int)
}

proof fn lemma_index_push(paths: Seq<Seq<char>>, m: Map<Seq<char>, usize>, q: Seq<char>, i: usize)
    requires
        is_last_index(paths, m),
        i == paths.len(),
    ensures
        is_last_index(paths.push(q), m.insert(q, i)),
{
    let np = paths.push(q);
    assert(np.drop_last() =~= paths);
    assert forall|p: Seq<char>| #[trigger] m.insert(q, i).contains_key(p) <==> np.contains(p) by {
        if p == q {
            assert(np[i as int] == q);
        } else {
            if np.contains(p) {
                let k = choose|k: int| 0 <= k < np.len() && np[k] == p;
                assert(paths[k] == p);
            }
            if paths.contains(p) {
                let k = choose|k: int| 0 <= k < paths.len() && paths[k] == p;
                assert(np[k] == p);
            }
        }
    }
}

/// Index of the paths of scanned entries.
fn index_entries(es: &[FileEntry]) -> (m: StringHashMap<usize>)
    ensures
        is_last_index(entry_paths(entry_views(es@)), m@),
{
    let mut m: StringHashMap<usize> = StringHashMap::new();
    let ghost all = entry_paths(entry_views(es@));
    let mut i: usize = 0;
    assert(all.subrange(0, 0) =~= Seq::<Seq<char>>::empty());
    while i < es.len()
        invariant
            i <= es@.len(),
            all == entry_paths(entry_views(es@)),
            all.len() == es@.len(),
            is_last_index(all.subrange(0, i as int), m@),
        decreases es@.len() - i,
    {
        let key = es[i].path.clone();
        proof {
            lemma_index_push(all.subrange(0, i as int), m@, key@, i);
            assert(all.subrange(0, i + 1) =~= all.subrange(0, i as int).push(key@));
        }
        m.insert(key, i);
        i = i + 1;
    }
    assert(all.subrange(0, es@.len() as int) =~= all);
    m
}

/// Index of the paths of a snapshot.
fn index_snapshot(es: &Vec<SnapshotEntry>) -> (m: StringHashMap<usize>)
    ensures
        is_last_index(snap_paths(snap_views(es@)), m@),
{
    let mut m: StringHashMap<usize> = StringHashMap::new();
    let ghost all = snap_paths(snap_views(es@));
    let mut i: usize = 0;
    assert(all.subrange(0, 0) =~= Seq::<Seq<char>>::empty());
    while i < es.len()
        invariant
            i <= es@.len(),
            all == snap_paths(snap_views(es@)),
            all.len() == es@.len(),
            is_last_index(all.subrange(0, i as int), m@),
        decreases es@.len() - i,
    {
        let key = es[i].path.clone();
        proof {
            lemma_index_push(all.subrange(0, i as int), m@, key@, i);
            assert(all.subrange(0, i + 1) =~= all.subrange(0, i as int).push(key@));
        }
        m.insert(key, i);
        i = i + 1;
    }
    assert(all.subrange(0, es@.len() as int) =~= all);
    m
}

fn make_transfer(e: &FileEntry, move_mode: bool, size: i64) -> (op: SyncOperation)
    ensures
        op@ == transfer_op(e@, move_mode, size),
{
    if move_mode {
        SyncOperation::Move { src: e.path.clone(), dst: e.path.clone(), size }
    } else {
        SyncOperation::Copy { src: e.path.clone(), dst: e.path.clone(), size }
    }
}

/// Snapshot mode: compares the current source scan with the last saved
/// snapshot. New or changed files are copied (moved in move mode, method 2);
/// in full sync (method 1) paths that left the source are deleted.
pub fn compare_with_snapshot(current: &[FileEntry], previous: &Snapshot, method: i32) -> (ops: Vec<
    SyncOperation,
>)
    ensures
        op_views(ops@) == snapshot_plan(entry_views(current@), previous@, method),
{
    let ghost cur = entry_views(current@);
    let ghost prev = previous@;
    let prev_index = index_snapshot(&previous.entries);
    let current_index = index_entries(current);
    let is_move_mode = method == 2;
    let mut ops: Vec<SyncOperation> = Vec::new();
    let mut i: usize = 0;
    while i < current.len()
        invariant
            i <= current@.len(),
            cur == entry_views(current@),
            prev == previous@,
            prev == snap_views(previous.entries@),
            is_move_mode == (method == 2),
            is_last_index(snap_paths(prev), prev_index@),
            op_views(ops@) == snapshot_transfers(cur.subrange(0, i as int), prev, method),
        decreases current@.len() - i,
    {
        let e = &current[i];
        let ghost pre = cur.subrange(0, i as int);
        assert(cur.subrange(0, i + 1).drop_last() =~= pre);
        assert(cur.subrange(0, i + 1).last() == e@);
        let ghost before = op_views(ops@);
        proof {
            lemma_last_pos(snap_paths(prev), e@.path);
        }
        if !e.is_dir {
            match prev_index.get(e.path.as_str()) {
                Some(j) => {
                    let j = *j;
                    proof {
                        lemma_last_pos(snap_paths(prev), e@.path);
                    }
                    let p = &previous.entries[j];
                    let fp = compute_fingerprint(e);
                    let same_size = match p.size {
                        Some(s) => s == e.size,
                        None => false,
                    };
                    let same_fp = match &p.fingerprint {
                        Some(f) => *f == fp,
                        None => false,
                    };
                    assert(prev[j as int] == p@);
                    if !same_size || !same_fp {
                        ops.push(make_transfer(e, is_move_mode, e.size));
                        assert(op_views(ops@) =~= before.push(transfer_op(e@, method == 2, e.size)));
                    }
                },
                None => {
                    ops.push(make_transfer(e, is_move_mode, e.size));
                    assert(op_views(ops@) =~= before.push(transfer_op(e@, method == 2, e.size)));
                },
            }
        }
        i = i + 1;
    }
    assert(cur.subrange(0, current@.len() as int) =~= cur);
    if method == 1 {
        let ghost mid = op_views(ops@);
        let mut k: usize = 0;
        while k < previous.entries.len()
            invariant
                k <= previous.entries@.len(),
                method == 1,
                cur == entry_views(current@),
                prev == snap_views(previous.entries@),
                is_last_index(entry_paths(cur), current_index@),
                op_views(ops@) == mid + snapshot_deletes(prev.subrange(0, k as int), cur, method),
            decreases previous.entries@.len() - k,
        {
            let p = &previous.entries[k];
            assert(prev.subrange(0, k + 1).drop_last() =~= prev.subrange(0, k as int));
            assert(prev.subrange(0, k + 1).last() == p@);
            let ghost before = op_views(ops@);
            if !current_index.contains_key(p.path.as_str()) {
                ops.push(SyncOperation::Delete { path: p.path.clone(), is_dir: p.is_dir });
                assert(op_views(ops@) =~= before.push(OpView::Delete { path: p@.path, is_dir: p.is_dir }));
            }
            k = k + 1;
        }
        assert(prev.subrange(0, previous.entries@.len() as int) =~= prev);
    } else {
        assert(snapshot_deletes(prev, cur, method) =~= Seq::<OpView>::empty());
        assert(op_views(ops@) =~= op_views(ops@) + Seq::<OpView>::empty());
    }
    ops
}

/// Live mode: compares the source scan with the target scan. Files missing or
/// different (size or modification time) on the target are transferred; in
/// full sync (method 1) target entries missing from the source are deleted.
pub fn compare_entries_live(src: &[FileEntry], dst: &[FileEntry], method: i32) -> (ops: Vec<
    SyncOperation,
>)
    ensures
        op_views(ops@) == live_plan(entry_views(src@), entry_views(dst@), method),
{
    let ghost s = entry_views(src@);
    let ghost d = entry_views(dst@);
    let dst_index = index_entries(dst);
    let is_move_mode = method == 2;
    let mut ops: Vec<SyncOperation> = Vec::new();
    let mut i: usize = 0;
    while i < src.len()
        invariant
            i <= src@.len(),
            s == entry_views(src@),
            d == entry_views(dst@),
            is_move_mode == (method == 2),
            is_last_index(entry_paths(d), dst_index@),
            op_views(ops@) == live_transfers(s.subrange(0, i as int), d, method),
        decreases src@.len() - i,
    {
        let e = &src[i];
        assert(s.subrange(0, i + 1).drop_last() =~= s.subrange(0, i as int));
        assert(s.subrange(0, i + 1).last() == e@);
        let ghost before = op_views(ops@);
        proof {
            lemma_last_pos(entry_paths(d), e@.path);
        }
        match dst_index.get(e.path.as_str()) {
            Some(j) => {
                let j = *j;
                proof {
                    lemma_last_pos(entry_paths(d), e@.path);
                }
                let de = &dst[j];
                assert(d[j as int] == de@);
                if !e.is_dir && (e.size != de.size || e.modified != de.modified) {
                    ops.push(make_transfer(e, is_move_mode, e.size));
                    assert(op_views(ops@) =~= before.push(transfer_op(e@, method == 2, e.size)));
                }
            },
            None => {
                if is_move_mode {
                    if !e.is_dir {
                        ops.push(make_transfer(e, true, e.size));
                        assert(op_views(ops@) =~= before.push(transfer_op(e@, true, e.size)));
                    }
                } else {
                    let size = if e.is_dir {
                        0
                    } else {
                        e.size
                    };
                    ops.push(make_transfer(e, false, size));
                    assert(op_views(ops@) =~= before.push(transfer_op(e@, false, size)));
                }
            },
        }
        i = i + 1;
    }
    assert(s.subrange(0, src@.len() as int) =~= s);
    if method == 1 {
        let src_index = index_entries(src);
        let ghost mid = op_views(ops@);
        let mut k: usize = 0;
        while k < dst.len()
            invariant
                k <= dst@.len(),
                method == 1,
                s == entry_views(src@),
                d == entry_views(dst@),
                is_last_index(entry_paths(s), src_index@),
                op_views(ops@) == mid + live_deletes(d.subrange(0, k as int), s, method),
            decreases dst@.len() - k,
        {
            let de = &dst[k];
            assert(d.subrange(0, k + 1).drop_last() =~= d.subrange(0, k as int));
            assert(d.subrange(0, k + 1).last() == de@);
            let ghost before = op_views(ops@);
            if !src_index.contains_key(de.path.as_str()) {
                ops.push(SyncOperation::Delete { path: de.path.clone(), is_dir: de.is_dir });
                assert(op_views(ops@) =~= before.push(OpView::Delete { path: de@.path, is_dir: de.is_dir }));
            }
            k = k + 1;
        }
        assert(d.subrange(0, dst@.len() as int) =~= d);
    } else {
        assert(live_deletes(d, s, method) =~= Seq::<OpView>::empty());
        assert(op_views(ops@) =~= op_views(ops@) + Seq::<OpView>::empty());
    }
    ops
}

} // verus!

verus! {

// ==================== laws of the planner ====================

/// What an operation of a plan may be: transfers keep the relative path,
/// come from the given source paths, move only in move mode (method 2) and
/// copy otherwise; deletions happen only in full sync (method 1), for paths
/// absent from the source and present in `gone_from`.
pub open spec fn plan_step_ok(
    op: OpView,
    src_paths: Seq<Seq<char>>,
    gone_from: Seq<Seq<char>>,
    method: i32,
) -> bool {
    match op {
        OpView::Copy { src, dst, size } => src == dst && src_paths.contains(src) && method != 2,
        OpView::Move { src, dst, size } => src == dst && src_paths.contains(src) && method == 2,
        OpView::Delete { path, is_dir } => method == 1 && !src_paths.contains(path)
            && gone_from.contains(path),
    }
}

proof fn lemma_live_transfers_ok(src: Seq<EntryView>, n: int, dst: Seq<EntryView>, method: i32)
    requires
        0 <= n <= src.len(),
    ensures
        forall|i: int| 0 <= i < live_transfers(src.subrange(0, n), dst, method).len()
            ==> plan_step_ok(
            #[trigger] live_transfers(src.subrange(0, n), dst, method)[i],
            entry_paths(src),
            entry_paths(dst),
            method,
        ),
    decreases n,
{
    if n > 0 {
        let t = src.subrange(0, n);
        assert(t.drop_last() =~= src.subrange(0, n - 1));
        lemma_live_transfers_ok(src, n - 1, dst, method);
        assert(entry_paths(src)[n - 1] == t.last().path);
        let r = live_transfers(t, dst, method);
        let rest = live_transfers(src.subrange(0, n - 1), dst, method);
        assert forall|i: int| 0 <= i < r.len() implies plan_step_ok(
            #[trigger] r[i],
            entry_paths(src),
            entry_paths(dst),
            method,
        ) by {
            if i < rest.len() {
                assert(r[i] == rest[i]);
            }
        }
    }
}

proof fn lemma_live_deletes_ok(dst: Seq<EntryView>, n: int, src: Seq<EntryView>, method: i32)
    requires
        0 <= n <= dst.len(),
    ensures
        forall|i: int| 0 <= i < live_deletes(dst.subrange(0, n), src, method).len()
            ==> plan_step_ok(
            #[trigger] live_deletes(dst.subrange(0, n), src, method)[i],
            entry_paths(src),
            entry_paths(dst),
            method,
        ),
    decreases n,
{
    if n > 0 && method == 1 {
        let t = dst.subrange(0, n);
        assert(t.drop_last() =~= dst.subrange(0, n - 1));
        lemma_live_deletes_ok(dst, n - 1, src, method);
        assert(entry_paths(dst)[n - 1] == t.last().path);
        let r = live_deletes(t, src, method);
        let rest = live_deletes(dst.subrange(0, n - 1), src, method);
        assert forall|i: int| 0 <= i < r.len() implies plan_step_ok(
            #[trigger] r[i],
            entry_paths(src),
            entry_paths(dst),
            method,
        ) by {
            if i < rest.len() {
                assert(r[i] == rest[i]);
            }
        }
    }
}

/// Law: every step of a live plan is sound — transfers copy (or, in move
/// mode, move) a source path onto the same relative path, and deletions only
/// occur in full sync, for target entries the source does not have.
pub proof fn law_live_plan_steps(src: Seq<EntryView>, dst: Seq<EntryView>, method: i32)
    ensures
        forall|i: int| 0 <= i < live_plan(src, dst, method).len() ==> plan_step_ok(
            #[trigger] live_plan(src, dst, method)[i],
            entry_paths(src),
            entry_paths(dst),
            method,
        ),
{
    lemma_live_transfers_ok(src, src.len() as int, dst, method);
    lemma_live_deletes_ok(dst, dst.len() as int, src, method);
    assert(src.subrange(0, src.len() as int) =~= src);
    assert(dst.subrange(0, dst.len() as int) =~= dst);
    let a = live_transfers(src, dst, method);
    let b = live_deletes(dst, src, method);
    assert forall|i: int| 0 <= i < (a + b).len() implies plan_step_ok(
        #[trigger] (a + b)[i],
        entry_paths(src),
        entry_paths(dst),
        method,
    ) by {
        if i >= a.len() {
            assert((a + b)[i] == b[i - a.len()]);
        }
    }
}

proof fn lemma_snapshot_transfers_ok(cur: Seq<EntryView>, n: int, prev: Seq<SnapView>, method: i32)
    requires
        0 <= n <= cur.len(),
    ensures
        forall|i: int| 0 <= i < snapshot_transfers(cur.subrange(0, n), prev, method).len()
            ==> plan_step_ok(
            #[trigger] snapshot_transfers(cur.subrange(0, n), prev, method)[i],
            entry_paths(cur),
            snap_paths(prev),
            method,
        ),
    decreases n,
{
    if n > 0 {
        let t = cur.subrange(0, n);
        assert(t.drop_last() =~= cur.subrange(0, n - 1));
        lemma_snapshot_transfers_ok(cur, n - 1, prev, method);
        assert(entry_paths(cur)[n - 1] == t.last().path);
        let r = snapshot_transfers(t, prev, method);
        let rest = snapshot_transfers(cur.subrange(0, n - 1), prev, method);
        assert forall|i: int| 0 <= i < r.len() implies plan_step_ok(
            #[trigger] r[i],
            entry_paths(cur),
            snap_paths(prev),
            method,
        ) by {
            if i < rest.len() {
                assert(r[i] == rest[i]);
            }
        }
    }
}

proof fn lemma_snapshot_deletes_ok(prev: Seq<SnapView>, n: int, cur: Seq<EntryView>, method: i32)
    requires
        0 <= n <= prev.len(),
    ensures
        forall|i: int| 0 <= i < snapshot_deletes(prev.subrange(0, n), cur, method).len()
            ==> plan_step_ok(
            #[trigger] snapshot_deletes(prev.subrange(0, n), cur, method)[i],
            entry_paths(cur),
            snap_paths(prev),
            method,
        ),
    decreases n,
{
    if n > 0 && method == 1 {
        let t = prev.subrange(0, n);
        assert(t.drop_last() =~= prev.subrange(0, n - 1));
        lemma_snapshot_deletes_ok(prev, n - 1, cur, method);
        assert(snap_paths(prev)[n - 1] == t.last().path);
        let r = snapshot_deletes(t, cur, method);
        let rest = snapshot_deletes(prev.subrange(0, n - 1), cur, method);
        assert forall|i: int| 0 <= i < r.len() implies plan_step_ok(
            #[trigger] r[i],
            entry_paths(cur),
            snap_paths(prev),
            method,
        ) by {
            if i < rest.len() {
                assert(r[i] == rest[i]);
            }
        }
    }
}

/// Law: every step of a snapshot plan is sound — transfers bring a current
/// source file over under the same relative path (moving only in move
/// mode), and deletions only occur in full sync, for snapshot paths that have
/// left the source.
pub proof fn law_snapshot_plan_steps(cur: Seq<EntryView>, prev: Seq<SnapView>, method: i32)
    ensures
        forall|i: int| 0 <= i < snapshot_plan(cur, prev, method).len() ==> plan_step_ok(
            #[trigger] snapshot_plan(cur, prev, method)[i],
            entry_paths(cur),
            snap_paths(prev),
            method,
        ),
{
    lemma_snapshot_transfers_ok(cur, cur.len() as int, prev, method);
    lemma_snapshot_deletes_ok(prev, prev.len() as int, cur, method);
    assert(cur.subrange(0, cur.len() as int) =~= cur);
    assert(prev.subrange(0, prev.len() as int) =~= prev);
    let a = snapshot_transfers(cur, prev, method);
    let b = snapshot_deletes(prev, cur, method);
    assert forall|i: int| 0 <= i < (a + b).len() implies plan_step_ok(
        #[trigger] (a + b)[i],
        entry_paths(cur),
        snap_paths(prev),
        method,
    ) by {
        if i >= a.len() {
            assert((a + b)[i] == b[i - a.len()]);
        }
    }
}

proof fn lemma_unique_last_pos(paths: Seq<Seq<char>>, k: int)
    requires
        unique_paths(paths),
        0 <= k < paths.len(),
    ensures
        last_pos(paths, paths[k]) == Some(k),
{
    lemma_last_pos_at(paths, paths[k], k);
}

proof fn lemma_live_self_quiet(s: Seq<EntryView>, n: int, method: i32)
    requires
        unique_paths(entry_paths(s)),
        0 <= n <= s.len(),
    ensures
        live_transfers(s.subrange(0, n), s, method) =~= Seq::<OpView>::empty(),
        live_deletes(s.subrange(0, n), s, method) =~= Seq::<OpView>::empty(),
    decreases n,
{
    if n > 0 {
        let t = s.subrange(0, n);
        assert(t.drop_last() =~= s.subrange(0, n - 1));
        lemma_live_self_quiet(s, n - 1, method);
        lemma_unique_last_pos(entry_paths(s), n - 1);
        assert(entry_paths(s)[n - 1] == t.last().path);
        assert(entry_paths(s).contains(t.last().path));
    }
}

/// Law: a tree compared live with an identical copy of itself needs no
/// operations, whatever the method (paths of a scan are distinct).
pub proof fn law_live_plan_of_identical_trees_is_empty(s: Seq<EntryView>, method: i32)
    requires
        unique_paths(entry_paths(s)),
    ensures
        live_plan(s, s, method) =~= Seq::<OpView>::empty(),
{
    lemma_live_self_quiet(s, s.len() as int, method);
    assert(s.subrange(0, s.len() as int) =~= s);
}

proof fn lemma_collect_unique(rows: Seq<SnapView>)
    requires
        unique_paths(snap_paths(rows)),
    ensures
        collect_rows(rows) =~= rows,
    decreases rows.len(),
{
    if rows.len() > 0 {
        let t = rows.drop_last();
        assert(snap_paths(t) =~= snap_paths(rows).drop_last());
        assert(unique_paths(snap_paths(t)));
        lemma_collect_unique(t);
        assert(!snap_paths(t).contains(rows.last().path)) by {
            if snap_paths(t).contains(rows.last().path) {
                let k = choose|k: int| 0 <= k < snap_paths(t).len() && snap_paths(t)[k] == rows.last().path;
                assert(snap_paths(rows)[k] == snap_paths(rows)[rows.len() - 1]);
            }
        }
        lemma_last_pos_none(snap_paths(t), rows.last().path);
    }
}

proof fn lemma_snapshot_self_quiet(cur: Seq<EntryView>, rows: Seq<SnapView>, n: int, method: i32)
    requires
        unique_paths(entry_paths(cur)),
        rows == cur.map_values(|e: EntryView| snapshot_row(e)),
        0 <= n <= cur.len(),
    ensures
        snapshot_transfers(cur.subrange(0, n), rows, method) =~= Seq::<OpView>::empty(),
        snapshot_deletes(rows.subrange(0, n), cur, method) =~= Seq::<OpView>::empty(),
    decreases n,
{
    assert(snap_paths(rows) =~= entry_paths(cur));
    if n > 0 {
        let t = cur.subrange(0, n);
        assert(t.drop_last() =~= cur.subrange(0, n - 1));
        assert(rows.subrange(0, n).drop_last() =~= rows.subrange(0, n - 1));
        lemma_snapshot_self_quiet(cur, rows, n - 1, method);
        lemma_unique_last_pos(entry_paths(cur), n - 1);
        assert(entry_paths(cur)[n - 1] == t.last().path);
        assert(rows[n - 1] == snapshot_row(cur[n - 1]));
        assert(entry_paths(cur).contains(rows.subrange(0, n).last().path));
    }
}

/// Law: comparing a source scan with the snapshot saved from that same scan
/// (rows as `snapshot_rows` stores them, read back as `Snapshot::from_rows`
/// collects them) needs no operations: snapshot mode only syncs changes.
pub proof fn law_snapshot_of_unchanged_source_is_quiet(cur: Seq<EntryView>, method: i32)
    requires
        unique_paths(entry_paths(cur)),
    ensures
        snapshot_plan(cur, collect_rows(cur.map_values(|e: EntryView| snapshot_row(e))), method)
            =~= Seq::<OpView>::empty(),
{
    let rows = cur.map_values(|e: EntryView| snapshot_row(e));
    assert(snap_paths(rows) =~= entry_paths(cur));
    lemma_collect_unique(rows);
    lemma_snapshot_self_quiet(cur, rows, cur.len() as int, method);
    assert(cur.subrange(0, cur.len() as int) =~= cur);
    assert(rows.subrange(0, rows.len() as int) =~= rows);
}

/// Law: the snapshot saved from a scan whose paths are distinct
/// (`snapshot_rows`) reads back (`Snapshot::from_rows`) as exactly the saved
/// rows: one per scanned entry, in scan order, each keeping the entry's path
/// and directory flag, and for files its size and fingerprint.
pub proof fn law_snapshot_round_trip(cur: Seq<EntryView>)
    requires
        unique_paths(entry_paths(cur)),
    ensures
        collect_rows(cur.map_values(|e: EntryView| snapshot_row(e))) == cur.map_values(
            |e: EntryView| snapshot_row(e),
        ),
{
    let rows = cur.map_values(|e: EntryView| snapshot_row(e));
    assert(snap_paths(rows) =~= entry_paths(cur));
    lemma_collect_unique(rows);
}

// ==================== what the plans transfer and delete ====================

/// The source path an operation reads (none for a deletion).
pub open spec fn op_source(op: OpView) -> Option<Seq<char>> {
    match op {
        OpView::Copy { src, .. } => Some(src),
        OpView::Move { src, .. } => Some(src),
        OpView::Delete { .. } => None,
    }
}

/// An operation the live plan makes for source entry `e`: it reads `e`'s
/// path, and when the target holds that path, `e` is a file whose size or
/// modification time differ from the target's.
spec fn live_emitted(e: EntryView, dst: Seq<EntryView>, op: OpView) -> bool {
    &&& op_source(op) == Some(e.path)
    &&& match last_pos(entry_paths(dst), e.path) {
        Some(j) => !e.is_dir && (e.size != dst[j].size || e.modified != dst[j].modified),
        None => true,
    }
}

proof fn lemma_live_transfers_from(src: Seq<EntryView>, n: int, dst: Seq<EntryView>, method: i32)
    requires
        0 <= n <= src.len(),
    ensures
        forall|k: int|
            0 <= k < live_transfers(src.subrange(0, n), dst, method).len() ==> exists|i: int|
                0 <= i < n && live_emitted(
                    src[i],
                    dst,
                    #[trigger] live_transfers(src.subrange(0, n), dst, method)[k],
                ),
    decreases n,
{
    if n > 0 {
        let t = src.subrange(0, n);
        assert(t.drop_last() =~= src.subrange(0, n - 1));
        assert(t.last() == src[n - 1]);
        lemma_live_transfers_from(src, n - 1, dst, method);
        let r = live_transfers(t, dst, method);
        let rest = live_transfers(src.subrange(0, n - 1), dst, method);
        assert forall|k: int| 0 <= k < r.len() implies exists|i: int| 0 <= i < n && live_emitted(src[i], dst, #[trigger] r[k]) by {
            if k < rest.len() {
                assert(r[k] == rest[k]);
                let i = choose|i: int| 0 <= i < n - 1 && live_emitted(src[i], dst, rest[k]);
                assert(live_emitted(src[i], dst, r[k]));
            } else {
                assert(live_emitted(src[n - 1], dst, r[k]));
            }
        }
    }
}

proof fn lemma_live_transfers_has(src: Seq<EntryView>, n: int, dst: Seq<EntryView>, method: i32, i: int, j: int)
    requires
        0 <= i < n <= src.len(),
        last_pos(entry_paths(dst), src[i].path) == Some(j),
        !src[i].is_dir,
        src[i].size != dst[j].size || src[i].modified != dst[j].modified,
    ensures
        live_transfers(src.subrange(0, n), dst, method).contains(
            transfer_op(src[i], method == 2, src[i].size),
        ),
    decreases n,
{
    let t = src.subrange(0, n);
    assert(t.drop_last() =~= src.subrange(0, n - 1));
    assert(t.last() == src[n - 1]);
    let r = live_transfers(t, dst, method);
    let x = transfer_op(src[i], method == 2, src[i].size);
    if i == n - 1 {
        assert(r.last() == x);
        assert(r[r.len() - 1] == x);
    } else {
        lemma_live_transfers_has(src, n - 1, dst, method, i, j);
        let rest = live_transfers(src.subrange(0, n - 1), dst, method);
        let k = choose|k: int| 0 <= k < rest.len() && rest[k] == x;
        assert(r[k] == rest[k]);
    }
}

proof fn lemma_live_deletes_only(dst: Seq<EntryView>, src: Seq<EntryView>, method: i32)
    ensures
        forall|k: int|
            0 <= k < live_deletes(dst, src, method).len() ==> op_source(
                #[trigger] live_deletes(dst, src, method)[k],
            ) is None,
    decreases dst.len(),
{
    if method == 1 && dst.len() > 0 {
        lemma_live_deletes_only(dst.drop_last(), src, method);
        let r = live_deletes(dst, src, method);
        let rest = live_deletes(dst.drop_last(), src, method);
        assert forall|k: int| 0 <= k < r.len() implies op_source(#[trigger] r[k]) is None by {
            if k < rest.len() {
                assert(r[k] == rest[k]);
            }
        }
    }
}

/// Law: in live mode a source file that the target also holds is brought
/// over again exactly when its size or its modification time differ from
/// the target's copy: the plan then holds a move (in move mode) or a copy
/// of the file's size onto the same path, and otherwise no transfer of that
/// path at all (paths within each scan are distinct).
pub proof fn law_live_plan_resyncs_changed_files(
    src: Seq<EntryView>,
    dst: Seq<EntryView>,
    method: i32,
    i: int,
    j: int,
)
    requires
        unique_paths(entry_paths(src)),
        unique_paths(entry_paths(dst)),
        0 <= i < src.len(),
        0 <= j < dst.len(),
        !src[i].is_dir,
        dst[j].path == src[i].path,
    ensures
        (src[i].size != dst[j].size || src[i].modified != dst[j].modified) ==> live_plan(
            src,
            dst,
            method,
        ).contains(
            if method == 2 {
                OpView::Move { src: src[i].path, dst: src[i].path, size: src[i].size }
            } else {
                OpView::Copy { src: src[i].path, dst: src[i].path, size: src[i].size }
            },
        ),
        (src[i].size == dst[j].size && src[i].modified == dst[j].modified) ==> forall|k: int|
            0 <= k < live_plan(src, dst, method).len() ==> op_source(
                #[trigger] live_plan(src, dst, method)[k],
            ) != Some(src[i].path),
{
    let p = src[i].path;
    assert(entry_paths(dst)[j] == p);
    lemma_unique_last_pos(entry_paths(dst), j);
    assert(src.subrange(0, src.len() as int) =~= src);
    let a = live_transfers(src, dst, method);
    let b = live_deletes(dst, src, method);
    assert(live_plan(src, dst, method) == a + b);
    if src[i].size != dst[j].size || src[i].modified != dst[j].modified {
        lemma_live_transfers_has(src, src.len() as int, dst, method, i, j);
        let x = transfer_op(src[i], method == 2, src[i].size);
        let k = choose|k: int| 0 <= k < a.len() && a[k] == x;
        assert((a + b)[k] == x);
    } else {
        lemma_live_transfers_from(src, src.len() as int, dst, method);
        lemma_live_deletes_only(dst, src, method);
        assert forall|k: int| 0 <= k < (a + b).len() implies op_source(#[trigger] (a + b)[k]) != Some(p) by {
            if k < a.len() {
                assert((a + b)[k] == a[k]);
                let m = choose|m: int| 0 <= m < src.len() && live_emitted(src[m], dst, a[k]);
                if op_source(a[k]) == Some(p) {
                    assert(src[m].path == p);
                    assert(entry_paths(src)[m] == entry_paths(src)[i]);
                    assert(m == i);
                }
            } else {
                assert((a + b)[k] == b[k - a.len()]);
            }
        }
    }
}

proof fn lemma_snapshot_deletes_has(prev: Seq<SnapView>, n: int, cur: Seq<EntryView>, i: int)
    requires
        0 <= i < n <= prev.len(),
        !entry_paths(cur).contains(prev[i].path),
    ensures
        snapshot_deletes(prev.subrange(0, n), cur, 1).contains(
            OpView::Delete { path: prev[i].path, is_dir: prev[i].is_dir },
        ),
    decreases n,
{
    let t = prev.subrange(0, n);
    assert(t.drop_last() =~= prev.subrange(0, n - 1));
    assert(t.last() == prev[n - 1]);
    let r = snapshot_deletes(t, cur, 1);
    let x = OpView::Delete { path: prev[i].path, is_dir: prev[i].is_dir };
    if i == n - 1 {
        assert(r[r.len() - 1] == x);
    } else {
        lemma_snapshot_deletes_has(prev, n - 1, cur, i);
        let rest = snapshot_deletes(prev.subrange(0, n - 1), cur, 1);
        let k = choose|k: int| 0 <= k < rest.len() && rest[k] == x;
        if entry_paths(cur).contains(t.last().path) {
            assert(r == rest);
        } else {
            assert(r[k] == rest[k]);
        }
    }
}

/// Law: in full sync (method 1) every path of the saved snapshot that the
/// current source scan no longer holds, directory or file, is deleted from
/// the target: the snapshot plan holds a deletion of that path with its
/// directory flag.
pub proof fn law_full_snapshot_sync_deletes_removed_paths(
    cur: Seq<EntryView>,
    prev: Seq<SnapView>,
    i: int,
)
    requires
        0 <= i < prev.len(),
        !entry_paths(cur).contains(prev[i].path),
    ensures
        snapshot_plan(cur, prev, 1).contains(OpView::Delete { path: prev[i].path, is_dir: prev[i].is_dir }),
{
    assert(prev.subrange(0, prev.len() as int) =~= prev);
    lemma_snapshot_deletes_has(prev, prev.len() as int, cur, i);
    let a = snapshot_transfers(cur, prev, 1);
    let b = snapshot_deletes(prev, cur, 1);
    let x = OpView::Delete { path: prev[i].path, is_dir: prev[i].is_dir };
    let k = choose|k: int| 0 <= k < b.len() && b[k] == x;
    assert((a + b)[a.len() + k] == x);
}

proof fn lemma_live_deletes_has(dst: Seq<EntryView>, n: int, src: Seq<EntryView>, i: int)
    requires
        0 <= i < n <= dst.len(),
        !entry_paths(src).contains(dst[i].path),
    ensures
        live_deletes(dst.subrange(0, n), src, 1).contains(
            OpView::Delete { path: dst[i].path, is_dir: dst[i].is_dir },
        ),
    decreases n,
{
    let t = dst.subrange(0, n);
    assert(t.drop_last() =~= dst.subrange(0, n - 1));
    assert(t.last() == dst[n - 1]);
    let r = live_deletes(t, src, 1);
    let x = OpView::Delete { path: dst[i].path, is_dir: dst[i].is_dir };
    if i == n - 1 {
        assert(r[r.len() - 1] == x);
    } else {
        lemma_live_deletes_has(dst, n - 1, src, i);
        let rest = live_deletes(dst.subrange(0, n - 1), src, 1);
        let k = choose|k: int| 0 <= k < rest.len() && rest[k] == x;
        if entry_paths(src).contains(t.last().path) {
            assert(r == rest);
        } else {
            assert(r[k] == rest[k]);
        }
    }
}

/// Law: in full sync (method 1) every target entry whose path the source
/// does not hold, directory or file, is deleted: the live plan holds a
/// deletion of that path with its directory flag.
pub proof fn law_full_live_sync_deletes_extra_paths(src: Seq<EntryView>, dst: Seq<EntryView>, i: int)
    requires
        0 <= i < dst.len(),
        !entry_paths(src).contains(dst[i].path),
    ensures
        live_plan(src, dst, 1).contains(OpView::Delete { path: dst[i].path, is_dir: dst[i].is_dir }),
{
    assert(dst.subrange(0, dst.len() as int) =~= dst);
    lemma_live_deletes_has(dst, dst.len() as int, src, i);
    let a = live_transfers(src, dst, 1);
    let b = live_deletes(dst, src, 1);
    let x = OpView::Delete { path: dst[i].path, is_dir: dst[i].is_dir };
    let k = choose|k: int| 0 <= k < b.len() && b[k] == x;
    assert((a + b)[a.len() + k] == x);
}

proof fn lemma_live_transfers_new(src: Seq<EntryView>, n: int, dst: Seq<EntryView>, method: i32, i: int, x: OpView)
    requires
        0 <= i < n <= src.len(),
        last_pos(entry_paths(dst), src[i].path) is None,
        x == (if method == 2 {
            OpView::Move { src: src[i].path, dst: src[i].path, size: src[i].size }
        } else {
            OpView::Copy { src: src[i].path, dst: src[i].path, size: if src[i].is_dir { 0 } else { src[i].size } }
        }),
        method == 2 ==> !src[i].is_dir,
    ensures
        live_transfers(src.subrange(0, n), dst, method).contains(x),
    decreases n,
{
    let t = src.subrange(0, n);
    assert(t.drop_last() =~= src.subrange(0, n - 1));
    assert(t.last() == src[n - 1]);
    let r = live_transfers(t, dst, method);
    if i == n - 1 {
        assert(r[r.len() - 1] == x);
    } else {
        lemma_live_transfers_new(src, n - 1, dst, method, i, x);
        let rest = live_transfers(src.subrange(0, n - 1), dst, method);
        let k = choose|k: int| 0 <= k < rest.len() && rest[k] == x;
        assert(r[k] == rest[k]);
    }
}

/// Law: in live mode a source entry the target does not hold is brought
/// over: a copy onto the same path (of size 0 for a directory) unless in
/// move mode, where a file is moved and a directory gets no operation.
pub proof fn law_live_plan_brings_new_entries(src: Seq<EntryView>, dst: Seq<EntryView>, method: i32, i: int)
    requires
        unique_paths(entry_paths(src)),
        0 <= i < src.len(),
        !entry_paths(dst).contains(src[i].path),
    ensures
        method != 2 ==> live_plan(src, dst, method).contains(
            OpView::Copy { src: src[i].path, dst: src[i].path, size: if src[i].is_dir { 0 } else { src[i].size } },
        ),
        method == 2 && !src[i].is_dir ==> live_plan(src, dst, method).contains(
            OpView::Move { src: src[i].path, dst: src[i].path, size: src[i].size },
        ),
        method == 2 && src[i].is_dir ==> forall|k: int|
            0 <= k < live_plan(src, dst, method).len() ==> op_source(
                #[trigger] live_plan(src, dst, method)[k],
            ) != Some(src[i].path),
{
    let p = src[i].path;
    lemma_last_pos_none(entry_paths(dst), p);
    assert(src.subrange(0, src.len() as int) =~= src);
    let a = live_transfers(src, dst, method);
    let b = live_deletes(dst, src, method);
    if method == 2 && src[i].is_dir {
        lemma_live_transfers_from(src, src.len() as int, dst, method);
        lemma_live_deletes_only(dst, src, method);
        lemma_live_dir_not_moved(src, src.len() as int, dst, i);
        assert forall|k: int| 0 <= k < (a + b).len() implies op_source(#[trigger] (a + b)[k]) != Some(p) by {
            if k < a.len() {
                assert((a + b)[k] == a[k]);
                let m = choose|m: int| 0 <= m < src.len() && live_emitted(src[m], dst, a[k]);
                if op_source(a[k]) == Some(p) {
                    assert(entry_paths(src)[m] == entry_paths(src)[i]);
                    assert(m == i);
                }
            } else {
                assert((a + b)[k] == b[k - a.len()]);
            }
        }
    } else {
        let x = if method == 2 {
            OpView::Move { src: p, dst: p, size: src[i].size }
        } else {
            OpView::Copy { src: p, dst: p, size: if src[i].is_dir { 0 } else { src[i].size } }
        };
        lemma_live_transfers_new(src, src.len() as int, dst, method, i, x);
        let k = choose|k: int| 0 <= k < a.len() && a[k] == x;
        assert((a + b)[k] == x);
    }
}

proof fn lemma_live_dir_not_moved(src: Seq<EntryView>, n: int, dst: Seq<EntryView>, i: int)
    requires
        0 <= i < n <= src.len(),
        src[i].is_dir,
        last_pos(entry_paths(dst), src[i].path) is None,
        unique_paths(entry_paths(src)),
    ensures
        forall|k: int|
            0 <= k < live_transfers(src.subrange(0, n), dst, 2).len() ==> op_source(
                #[trigger] live_transfers(src.subrange(0, n), dst, 2)[k],
            ) != Some(src[i].path),
    decreases n,
{
    let t = src.subrange(0, n);
    assert(t.drop_last() =~= src.subrange(0, n - 1));
    assert(t.last() == src[n - 1]);
    let r = live_transfers(t, dst, 2);
    let rest = live_transfers(src.subrange(0, n - 1), dst, 2);
    if i < n - 1 {
        lemma_live_dir_not_moved(src, n - 1, dst, i);
    } else {
        lemma_live_transfers_from(src, n - 1, dst, 2);
    }
    assert forall|k: int| 0 <= k < r.len() implies op_source(#[trigger] r[k]) != Some(src[i].path) by {
        if k < rest.len() {
            assert(r[k] == rest[k]);
            if i == n - 1 && op_source(rest[k]) == Some(src[i].path) {
                let m = choose|m: int| 0 <= m < n - 1 && live_emitted(src[m], dst, rest[k]);
                assert(entry_paths(src)[m] == entry_paths(src)[i]);
            }
        } else {
            // the entry pushed last is src[n - 1], which differs from src[i]
            // by path unless it is src[i] itself, which pushes nothing
            assert(i != n - 1);
            assert(op_source(r[k]) == Some(src[n - 1].path));
            assert(entry_paths(src)[n - 1] != entry_paths(src)[i]);
        }
    }
}

/// An operation the snapshot plan makes for source entry `e`: it reads a
/// file's path, and when the snapshot holds that path the saved row no
/// longer describes the file.
spec fn snapshot_emitted(e: EntryView, prev: Seq<SnapView>, op: OpView) -> bool {
    &&& op_source(op) == Some(e.path)
    &&& !e.is_dir
    &&& match last_pos(snap_paths(prev), e.path) {
        Some(j) => prev[j].size != Some(e.size) || prev[j].fingerprint != Some(entry_fingerprint(e)),
        None => true,
    }
}

proof fn lemma_snapshot_transfers_from(cur: Seq<EntryView>, n: int, prev: Seq<SnapView>, method: i32)
    requires
        0 <= n <= cur.len(),
    ensures
        forall|k: int|
            0 <= k < snapshot_transfers(cur.subrange(0, n), prev, method).len() ==> exists|i: int|
                0 <= i < n && snapshot_emitted(
                    cur[i],
                    prev,
                    #[trigger] snapshot_transfers(cur.subrange(0, n), prev, method)[k],
                ),
    decreases n,
{
    if n > 0 {
        let t = cur.subrange(0, n);
        assert(t.drop_last() =~= cur.subrange(0, n - 1));
        assert(t.last() == cur[n - 1]);
        lemma_snapshot_transfers_from(cur, n - 1, prev, method);
        let r = snapshot_transfers(t, prev, method);
        let rest = snapshot_transfers(cur.subrange(0, n - 1), prev, method);
        assert forall|k: int| 0 <= k < r.len() implies exists|i: int| 0 <= i < n && snapshot_emitted(cur[i], prev, #[trigger] r[k]) by {
            if k < rest.len() {
                assert(r[k] == rest[k]);
                let i = choose|i: int| 0 <= i < n - 1 && snapshot_emitted(cur[i], prev, rest[k]);
                assert(snapshot_emitted(cur[i], prev, r[k]));
            } else {
                assert(snapshot_emitted(cur[n - 1], prev, r[k]));
            }
        }
    }
}

proof fn lemma_snapshot_transfers_has(cur: Seq<EntryView>, n: int, prev: Seq<SnapView>, method: i32, i: int)
    requires
        0 <= i < n <= cur.len(),
        !cur[i].is_dir,
        match last_pos(snap_paths(prev), cur[i].path) {
            Some(j) => prev[j].size != Some(cur[i].size) || prev[j].fingerprint != Some(entry_fingerprint(cur[i])),
            None => true,
        },
    ensures
        snapshot_transfers(cur.subrange(0, n), prev, method).contains(
            transfer_op(cur[i], method == 2, cur[i].size),
        ),
    decreases n,
{
    let t = cur.subrange(0, n);
    assert(t.drop_last() =~= cur.subrange(0, n - 1));
    assert(t.last() == cur[n - 1]);
    let r = snapshot_transfers(t, prev, method);
    let x = transfer_op(cur[i], method == 2, cur[i].size);
    if i == n - 1 {
        assert(r[r.len() - 1] == x);
    } else {
        lemma_snapshot_transfers_has(cur, n - 1, prev, method, i);
        let rest = snapshot_transfers(cur.subrange(0, n - 1), prev, method);
        let k = choose|k: int| 0 <= k < rest.len() && rest[k] == x;
        assert(r[k] == rest[k]);
    }
}

proof fn lemma_snapshot_deletes_only(prev: Seq<SnapView>, cur: Seq<EntryView>, method: i32)
    ensures
        forall|k: int|
            0 <= k < snapshot_deletes(prev, cur, method).len() ==> op_source(
                #[trigger] snapshot_deletes(prev, cur, method)[k],
            ) is None,
    decreases prev.len(),
{
    if method == 1 && prev.len() > 0 {
        lemma_snapshot_deletes_only(prev.drop_last(), cur, method);
        let r = snapshot_deletes(prev, cur, method);
        let rest = snapshot_deletes(prev.drop_last(), cur, method);
        assert forall|k: int| 0 <= k < r.len() implies op_source(#[trigger] r[k]) is None by {
            if k < rest.len() {
                assert(r[k] == rest[k]);
            }
        }
    }
}

/// Law: in snapshot mode a source file is brought over (moved in move mode,
/// copied otherwise, with its size, onto the same path) exactly when it is
/// new since the snapshot, or its saved size or fingerprint (size,
/// directory flag and modification time) differ from the file's; an
/// unchanged file gets no transfer at all (paths of the scan and of the
/// snapshot are distinct).
pub proof fn law_snapshot_plan_transfers_new_or_changed_files(
    cur: Seq<EntryView>,
    prev: Seq<SnapView>,
    method: i32,
    i: int,
)
    requires
        unique_paths(entry_paths(cur)),
        unique_paths(snap_paths(prev)),
        0 <= i < cur.len(),
        !cur[i].is_dir,
    ensures
        (forall|j: int| 0 <= j < prev.len() ==> prev[j].path != cur[i].path) ==> snapshot_plan(
            cur,
            prev,
            method,
        ).contains(
            if method == 2 {
                OpView::Move { src: cur[i].path, dst: cur[i].path, size: cur[i].size }
            } else {
                OpView::Copy { src: cur[i].path, dst: cur[i].path, size: cur[i].size }
            },
        ),
        forall|j: int|
            0 <= j < prev.len() && #[trigger] prev[j].path == cur[i].path ==> {
                &&& (prev[j].size != Some(cur[i].size) || prev[j].fingerprint != Some(
                    entry_fingerprint(cur[i]),
                )) ==> snapshot_plan(cur, prev, method).contains(
                    if method == 2 {
                        OpView::Move { src: cur[i].path, dst: cur[i].path, size: cur[i].size }
                    } else {
                        OpView::Copy { src: cur[i].path, dst: cur[i].path, size: cur[i].size }
                    },
                )
                &&& (prev[j].size == Some(cur[i].size) && prev[j].fingerprint == Some(
                    entry_fingerprint(cur[i]),
                )) ==> forall|k: int|
                    0 <= k < snapshot_plan(cur, prev, method).len() ==> op_source(
                        #[trigger] snapshot_plan(cur, prev, method)[k],
                    ) != Some(cur[i].path)
            },
{
    let p = cur[i].path;
    assert(cur.subrange(0, cur.len() as int) =~= cur);
    let a = snapshot_transfers(cur, prev, method);
    let b = snapshot_deletes(prev, cur, method);
    assert(snapshot_plan(cur, prev, method) == a + b);
    let x = transfer_op(cur[i], method == 2, cur[i].size);
    if forall|j: int| 0 <= j < prev.len() ==> prev[j].path != p {
        assert(!snap_paths(prev).contains(p)) by {
            if snap_paths(prev).contains(p) {
                let j = choose|j: int| 0 <= j < snap_paths(prev).len() && snap_paths(prev)[j] == p;
                assert(prev[j].path == p);
            }
        }
        lemma_last_pos_none(snap_paths(prev), p);
        lemma_snapshot_transfers_has(cur, cur.len() as int, prev, method, i);
        let k = choose|k: int| 0 <= k < a.len() && a[k] == x;
        assert((a + b)[k] == x);
    }
    assert forall|j: int| 0 <= j < prev.len() && #[trigger] prev[j].path == p implies {
        &&& (prev[j].size != Some(cur[i].size) || prev[j].fingerprint != Some(entry_fingerprint(cur[i])))
            ==> (a + b).contains(x)
        &&& (prev[j].size == Some(cur[i].size) && prev[j].fingerprint == Some(entry_fingerprint(cur[i])))
            ==> forall|k: int| 0 <= k < (a + b).len() ==> op_source(#[trigger] (a + b)[k]) != Some(p)
    } by {
        assert(snap_paths(prev)[j] == p);
        lemma_unique_last_pos(snap_paths(prev), j);
        if prev[j].size != Some(cur[i].size) || prev[j].fingerprint != Some(entry_fingerprint(cur[i])) {
            lemma_snapshot_transfers_has(cur, cur.len() as int, prev, method, i);
            let k = choose|k: int| 0 <= k < a.len() && a[k] == x;
            assert((a + b)[k] == x);
        } else {
            lemma_snapshot_transfers_from(cur, cur.len() as int, prev, method);
            lemma_snapshot_deletes_only(prev, cur, method);
            assert forall|k: int| 0 <= k < (a + b).len() implies op_source(#[trigger] (a + b)[k]) != Some(p) by {
                if k < a.len() {
                    assert((a + b)[k] == a[k]);
                    let m = choose|m: int| 0 <= m < cur.len() && snapshot_emitted(cur[m], prev, a[k]);
                    if op_source(a[k]) == Some(p) {
                        assert(entry_paths(cur)[m] == entry_paths(cur)[i]);
                        assert(m == i);
                    }
                } else {
                    assert((a + b)[k] == b[k - a.len()]);
                }
            }
        }
    }
}

} // verus!
