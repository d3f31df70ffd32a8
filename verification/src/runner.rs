//! Running a sync job: abort requests, target roots, the step machine that
//! walks every operation over every target root, the run summary and the
//! completion notice.
use vstd::prelude::*;
use vstd::hash_set::HashSetWithView;
use crate::paths::within;
use crate::sync::{
    compare_entries_live, compare_with_snapshot, entry_views, live_plan, op_views, snapshot_plan,
    FileEntry, OpView, Snapshot, SyncOperation,
};
use crate::text::{
    append_chars, chars_of, dec_nat, split, split_chars, string_of, trim, trim_chars, u64_digits,
    views,
};

verus! {

// ==================== abort requests ====================

/// The jobs whose running sync has been asked to stop.
pub struct AbortFlags {
    flags: HashSetWithView<i64>,
}

impl View for AbortFlags {
    type V = Set<i64>;

    closed spec fn view(&self) -> Set<i64> {
        self.flags@
    }
}

impl AbortFlags {
    /// No job flagged.
    pub fn new() -> (r: AbortFlags)
        ensures
            r@ == Set::<i64>::empty(),
    {
        broadcast use vstd::std_specs::hash::axiom_i64_obeys_hash_table_key_model;

        AbortFlags { flags: HashSetWithView::new() }
    }
}

/// Asks the running sync of a job to stop.
pub fn set_abort_flag(flags: &mut AbortFlags, job_id: i64)
    ensures
        final(flags)@ == old(flags)@.insert(job_id),
{
    flags.flags.insert(job_id);
}

/// Whether a stop was asked for a job.
pub fn is_aborted(flags: &AbortFlags, job_id: i64) -> (r: bool)
    ensures
        r == flags@.contains(job_id),
{
    flags.flags.contains(&job_id)
}

/// Forgets the stop request of a job.
pub fn clear_abort_flag(flags: &mut AbortFlags, job_id: i64)
    ensures
        final(flags)@ == old(flags)@.remove(job_id),
{
    flags.flags.remove(&job_id);
}

/// Law: a flagged job reads as aborted until its flag is cleared; flagging or
/// clearing one job leaves every other job as it was.
pub proof fn law_abort_flags(s: Set<i64>, job: i64, other: i64)
    requires
        job != other,
    ensures
        s.insert(job).contains(job),
        !s.insert(job).remove(job).contains(job),
        s.insert(job).contains(other) == s.contains(other),
        s.remove(job).contains(other) == s.contains(other),
{
}

// ==================== target roots ====================

/// The trimmed, non-empty entries of a split list.
pub open spec fn list_items(parts: Seq<Seq<char>>) -> Seq<Seq<char>>
    decreases parts.len(),
{
    if parts.len() == 0 {
        Seq::<Seq<char>>::empty()
    } else {
        let rest = list_items(parts.drop_last());
        let t = trim(parts.last());
        if t.len() == 0 {
            rest
        } else {
            rest.push(t)
        }
    }
}

/// The trimmed, non-empty entries of a text split at `sep`.
pub fn trimmed_items(text: &str, sep: char) -> (r: Vec<String>)
    ensures
        r@.map_values(|s: String| s@) == list_items(split(text@, sep)),
{
    let chars = chars_of(text);
    let parts = split_chars(&chars, sep);
    let mut out: Vec<String> = Vec::new();
    let mut i: usize = 0;
    while i < parts.len()
        invariant
            i <= parts@.len(),
            views(parts@) == split(text@, sep),
            out@.map_values(|s: String| s@) == list_items(views(parts@).subrange(0, i as int)),
        decreases parts@.len() - i,
    {
        assert(views(parts@).subrange(0, i + 1).drop_last() =~= views(parts@).subrange(0, i as int));
        assert(views(parts@).subrange(0, i + 1).last() == parts@[i as int]@);
        let t = trim_chars(&parts[i]);
        let ghost before = out@.map_values(|s: String| s@);
        if t.len() > 0 {
            out.push(string_of(&t));
            assert(out@.map_values(|s: String| s@) =~= before.push(t@));
        }
        i = i + 1;
    }
    assert(views(parts@).subrange(0, parts@.len() as int) =~= views(parts@));
    out
}

/// The target roots of a job: its destination setting split at `:`, each
/// trimmed, empty ones dropped.
pub fn dst_roots(dst_path: &str) -> (r: Vec<String>)
    ensures
        r@.map_values(|s: String| s@) == list_items(split(dst_path@, ':')),
{
    trimmed_items(dst_path, ':')
}

// ==================== choosing the plan ====================

/// Snapshot mode's plan: against the saved snapshot when there is one, and
/// on a first run (no snapshot) a full live comparison against an empty
/// target.
pub fn plan_snapshot_mode(src: &[FileEntry], previous: Option<&Snapshot>, method: i32) -> (ops: Vec<
    SyncOperation,
>)
    ensures
        op_views(ops@) == match previous {
            Some(p) => snapshot_plan(entry_views(src@), p@, method),
            None => live_plan(entry_views(src@), Seq::empty(), method),
        },
{
    match previous {
        Some(p) => compare_with_snapshot(src, p, method),
        None => {
            let empty: Vec<FileEntry> = Vec::new();
            let ops = compare_entries_live(src, &empty, method);
            assert(entry_views(empty@) =~= Seq::<crate::sync::EntryView>::empty());
            ops
        },
    }
}

// ==================== the step machine ====================

/// How one operation is carried out on one target root.
#[derive(Debug, Clone, Copy, PartialEq, Eq, Structural)]
pub enum StepKind {
    /// Full sync with a size filter, deleting a directory the source lacks:
    /// only the files of that directory that pass the filters are removed.
    ClearTargetOnlyDir,
    /// Snapshot mode: the file lies in a directory that could not be created.
    SkipFailedDir,
    /// A deletion on any root but the first: recorded as done, not repeated.
    RecordDone,
    /// The copy phase of a move; the source is removed only after the run.
    CopyForMove,
    /// Carry the operation out.
    Execute,
}

/// What the machine asks for next.
#[derive(Debug, Clone, Copy, PartialEq, Eq, Structural)]
pub enum Step {
    /// Handle operation `op` on target root `root`.
    Do { kind: StepKind, root: usize, op: usize },
    /// Nothing left (or the run was aborted).
    Finished,
}

/// The source path of a transfer (empty for a deletion).
pub open spec fn op_source(op: OpView) -> Seq<char> {
    match op {
        OpView::Copy { src, .. } => src,
        OpView::Move { src, .. } => src,
        OpView::Delete { .. } => Seq::empty(),
    }
}

/// The size carried by an operation (0 for a deletion).
pub open spec fn op_size(op: OpView) -> i64 {
    match op {
        OpView::Copy { size, .. } => size,
        OpView::Move { size, .. } => size,
        OpView::Delete { .. } => 0,
    }
}

/// The path lies in one of the directories that failed to be created.
pub open spec fn in_failed_dir(path: Seq<char>, failed: Seq<Seq<char>>) -> bool {
    exists|i: int| 0 <= i < failed.len() && within(path, #[trigger] failed[i])
}

/// How an operation is handled on a root.
pub open spec fn step_kind(
    op: OpView,
    first_root: bool,
    method: i32,
    size_filter: bool,
    source_mode: i32,
    failed: Seq<Seq<char>>,
) -> StepKind {
    match op {
        OpView::Delete { path, is_dir } => if is_dir && method == 1 && size_filter {
            StepKind::ClearTargetOnlyDir
        } else if !first_root {
            StepKind::RecordDone
        } else {
            StepKind::Execute
        },
        OpView::Copy { src, .. } => if source_mode == 1 && in_failed_dir(src, failed) {
            StepKind::SkipFailedDir
        } else {
            StepKind::Execute
        },
        OpView::Move { src, .. } => if source_mode == 1 && in_failed_dir(src, failed) {
            StepKind::SkipFailedDir
        } else {
            StepKind::CopyForMove
        },
    }
}

/// Mathematical model of a [`SyncRun`].
pub struct RunView {
    pub method: i32,
    pub source_mode: i32,
    pub size_filter: bool,
    pub roots: Seq<Seq<char>>,
    pub ops: Seq<OpView>,
    pub failed_dirs: Seq<Seq<char>>,
    pub root_idx: nat,
    pub op_idx: nat,
    pub stopped: bool,
    pub pending: Option<(StepKind, nat, nat)>,
    pub success: nat,
    pub failed: nat,
    pub moved: Seq<(Seq<char>, i64)>,
}

/// One step of the machine: given whether an abort was asked, the next
/// request and the state after it. Positions advance operation by
/// operation, then root by root; an abort ends the run for good.
pub open spec fn run_next(v: RunView, aborted: bool) -> (RunView, Step) {
    let v0 = RunView { pending: None, ..v };
    if v.stopped || v.root_idx >= v.roots.len() || v.ops.len() == 0 {
        (v0, Step::Finished)
    } else if aborted {
        (RunView { stopped: true, ..v0 }, Step::Finished)
    } else {
        let r = v.root_idx;
        let k = v.op_idx;
        let kind = step_kind(
            v.ops[k as int],
            v.roots[r as int] == v.roots[0],
            v.method,
            v.size_filter,
            v.source_mode,
            v.failed_dirs,
        );
        let (nr, nk) = if k + 1 == v.ops.len() {
            (r + 1, 0nat)
        } else {
            (r, k + 1)
        };
        let moved_on = RunView { root_idx: nr, op_idx: nk, ..v0 };
        let after = if kind == StepKind::RecordDone {
            RunView { success: v.success + 1, ..moved_on }
        } else if kind == StepKind::CopyForMove || kind == StepKind::Execute {
            RunView { pending: Some((kind, r, k)), ..moved_on }
        } else {
            moved_on
        };
        (after, Step::Do { kind, root: r as usize, op: k as usize })
    }
}

/// The state after the outcome of the pending step is reported: a success
/// of a move's copy onto the first root remembers the source for removal.
pub open spec fn run_report(v: RunView, ok: bool) -> RunView {
    match v.pending {
        Some((kind, r, k)) => if ok {
            let moved = if kind == StepKind::CopyForMove && v.roots[r as int] == v.roots[0] {
                v.moved.push((op_source(v.ops[k as int]), op_size(v.ops[k as int])))
            } else {
                v.moved
            };
            RunView { pending: None, success: v.success + 1, moved, ..v }
        } else {
            RunView { pending: None, failed: v.failed + 1, ..v }
        },
        None => v,
    }
}

/// The progress of one sync run over its operations and target roots.
pub struct SyncRun {
    method: i32,
    source_mode: i32,
    size_filter: bool,
    roots: Vec<String>,
    ops: Vec<SyncOperation>,
    failed_dirs: Vec<String>,
    pos: (usize, usize),
    stopped: bool,
    pending: Option<(StepKind, usize, usize)>,
    success: usize,
    failed: usize,
    moved: Vec<(String, i64)>,
    total: usize,
}

pub open spec fn pending_view(p: Option<(StepKind, usize, usize)>) -> Option<(StepKind, nat, nat)> {
    match p {
        Some((k, r, i)) => Some((k, r as nat, i as nat)),
        None => None,
    }
}

pub open spec fn moved_view(m: Seq<(String, i64)>) -> Seq<(Seq<char>, i64)> {
    m.map_values(|p: (String, i64)| (p.0@, p.1))
}

impl View for SyncRun {
    type V = RunView;

    closed spec fn view(&self) -> RunView {
        RunView {
            method: self.method,
            source_mode: self.source_mode,
            size_filter: self.size_filter,
            roots: self.roots@.map_values(|s: String| s@),
            ops: op_views(self.ops@),
            failed_dirs: self.failed_dirs@.map_values(|s: String| s@),
            root_idx: self.pos.0 as nat,
            op_idx: self.pos.1 as nat,
            stopped: self.stopped,
            pending: pending_view(self.pending),
            success: self.success as nat,
            failed: self.failed as nat,
            moved: moved_view(self.moved@),
        }
    }
}

/// What a finished run reports.
#[derive(Debug, Clone, Copy, PartialEq, Eq, Structural)]
pub struct RunSummary {
    pub total: usize,
    pub success: usize,
    pub failed: usize,
    /// Task status: 2 all done, 3 partly failed, 6 all failed.
    pub status: i32,
    /// Remove the sources of moved files now.
    pub finalize_move: bool,
    /// Save the source snapshot now.
    pub save_snapshot: bool,
}

/// Task status from the counts: 2 when nothing failed, 3 when some steps
/// failed and some succeeded, 6 when every counted step failed.
pub open spec fn task_status(success: nat, failed: nat) -> i32 {
    if failed == 0 {
        2
    } else if success > 0 {
        3
    } else {
        6
    }
}

proof fn lemma_step_bound(r: nat, k: nat, n: nat, rr: nat)
    requires
        r < rr,
        k < n,
    ensures
        r * n + k + 1 <= rr * n,
        (if k + 1 == n { (r + 1) * n + 0 } else { r * n + (k + 1) }) == r * n + k + 1,
{
    assert(r * n + k + 1 <= (r + 1) * n) by (nonlinear_arith)
        requires
            k < n,
    ;
    assert((r + 1) * n <= rr * n) by (nonlinear_arith)
        requires
            r + 1 <= rr,
    ;
    assert((r + 1) * n == r * n + n) by (nonlinear_arith);
}

impl SyncRun {
    #[verifier::type_invariant]
    closed spec fn inv(self) -> bool {
        &&& self.pos.0 <= self.roots@.len()
        &&& (self.ops@.len() > 0 ==> self.pos.1 < self.ops@.len())
        &&& (self.ops@.len() == 0 ==> self.pos.1 == 0)
        &&& (self.pos.0 == self.roots@.len() ==> self.pos.1 == 0)
        &&& self.total == self.roots@.len() * self.ops@.len()
        &&& self.success + self.failed + (if self.pending is Some { 1int } else { 0int })
            <= self.pos.0 * self.ops@.len() + self.pos.1
        &&& (match self.pending {
            Some((_, r, i)) => r < self.roots@.len() && i < self.ops@.len(),
            None => true,
        })
    }

    /// Starts a run of `ops` over the target roots; `failed_dirs` are the
    /// directories that snapshot mode could not create.
    pub fn new(
        method: i32,
        source_mode: i32,
        size_filter: bool,
        roots: Vec<String>,
        ops: Vec<SyncOperation>,
        failed_dirs: Vec<String>,
    ) -> (s: SyncRun)
        requires
            roots@.len() * ops@.len() <= usize::MAX,
        ensures
            s@ == (RunView {
                method,
                source_mode,
                size_filter,
                roots: roots@.map_values(|x: String| x@),
                ops: op_views(ops@),
                failed_dirs: failed_dirs@.map_values(|x: String| x@),
                root_idx: 0,
                op_idx: 0,
                stopped: false,
                pending: None,
                success: 0,
                failed: 0,
                moved: Seq::empty(),
            }),
    {
        let total = roots.len() * ops.len();
        let s = SyncRun {
            method,
            source_mode,
            size_filter,
            roots,
            ops,
            failed_dirs,
            pos: (0, 0),
            stopped: false,
            pending: None,
            success: 0,
            failed: 0,
            moved: Vec::new(),
            total,
        };
        assert(moved_view(s.moved@) =~= Seq::<(Seq<char>, i64)>::empty());
        assert(0 * ops@.len() + 0 == 0) by (nonlinear_arith);
        s
    }

    /// Target root `i`.
    pub fn root(&self, i: usize) -> (r: &String)
        requires
            i < self@.roots.len(),
        ensures
            r@ == self@.roots[i as int],
    {
        &self.roots[i]
    }

    /// Operation `i`.
    pub fn op(&self, i: usize) -> (r: &SyncOperation)
        requires
            i < self@.ops.len(),
        ensures
            r@ == self@.ops[i as int],
    {
        &self.ops[i]
    }

    /// Sources (with expected sizes) of the files whose move copied
    /// successfully onto the first root.
    pub fn moved(&self) -> (r: &Vec<(String, i64)>)
        ensures
            moved_view(r@) == self@.moved,
    {
        &self.moved
    }

    fn in_failed_dir_exec(&self, path: &String) -> (r: bool)
        ensures
            r == in_failed_dir(path@, self@.failed_dirs),
    {
        let ghost f = self.failed_dirs@.map_values(|s: String| s@);
        let mut i: usize = 0;
        while i < self.failed_dirs.len()
            invariant
                i <= self.failed_dirs@.len(),
                f == self.failed_dirs@.map_values(|s: String| s@),
                forall|j: int| 0 <= j < i ==> !within(path@, #[trigger] f[j]),
            decreases self.failed_dirs@.len() - i,
        {
            if crate::paths::path_within(path.as_str(), self.failed_dirs[i].as_str()) {
                assert(within(path@, f[i as int]));
                return true;
            }
            i = i + 1;
        }
        false
    }

    fn kind_exec(&self, k: usize, first_root: bool) -> (r: StepKind)
        requires
            k < self@.ops.len(),
        ensures
            r == step_kind(
                self@.ops[k as int],
                first_root,
                self@.method,
                self@.size_filter,
                self@.source_mode,
                self@.failed_dirs,
            ),
    {
        match &self.ops[k] {
            SyncOperation::Delete { path, is_dir } => {
                if *is_dir && self.method == 1 && self.size_filter {
                    StepKind::ClearTargetOnlyDir
                } else if !first_root {
                    StepKind::RecordDone
                } else {
                    StepKind::Execute
                }
            },
            SyncOperation::Copy { src, .. } => {
                if self.source_mode == 1 && self.in_failed_dir_exec(src) {
                    StepKind::SkipFailedDir
                } else {
                    StepKind::Execute
                }
            },
            SyncOperation::Move { src, .. } => {
                if self.source_mode == 1 && self.in_failed_dir_exec(src) {
                    StepKind::SkipFailedDir
                } else {
                    StepKind::CopyForMove
                }
            },
        }
    }

    /// Asks for the next step; `aborted` tells whether a stop was requested.
    /// An unreported pending step is dropped.
    pub fn next(&mut self, aborted: bool) -> (step: Step)
        ensures
            (final(self)@, step) == run_next(old(self)@, aborted),
    {
        proof {
            use_type_invariant(&*self);
        }
        self.pending = None;
        if self.stopped || self.pos.0 >= self.roots.len() || self.ops.len() == 0 {
            return Step::Finished;
        }
        if aborted {
            self.stopped = true;
            return Step::Finished;
        }
        let r = self.pos.0;
        let k = self.pos.1;
        let first_root = self.roots[r] == self.roots[0];
        let kind = self.kind_exec(k, first_root);
        proof {
            lemma_step_bound(r as nat, k as nat, self.ops@.len(), self.roots@.len());
        }
        let n = self.ops.len();
        let (nr, nk) = if k + 1 == n {
            (r + 1, 0usize)
        } else {
            (r, k + 1)
        };
        self.pos = (nr, nk);
        if kind == StepKind::RecordDone {
            self.success = self.success + 1;
        } else if kind == StepKind::CopyForMove || kind == StepKind::Execute {
            self.pending = Some((kind, r, k));
        }
        Step::Do { kind, root: r, op: k }
    }

    /// Reports whether the pending step succeeded.
    pub fn report(&mut self, ok: bool)
        ensures
            final(self)@ == run_report(old(self)@, ok),
    {
        proof {
            use_type_invariant(&*self);
            let rr = self.roots@.len();
            let n = self.ops@.len();
            if n > 0 && self.pos.0 < rr {
                lemma_step_bound(self.pos.0 as nat, self.pos.1 as nat, n, rr);
            } else if n == 0 {
                assert(self.pos.0 * 0 == 0) by (nonlinear_arith);
            } else {
                assert(self.pos.0 * n == rr * n);
            }
        }
        match self.pending {
            Some((kind, r, k)) => {
                if ok {
                    if kind == StepKind::CopyForMove && self.roots[r] == self.roots[0] {
                        let (src, size) = match &self.ops[k] {
                            SyncOperation::Copy { src, size, .. } => (src.clone(), *size),
                            SyncOperation::Move { src, size, .. } => (src.clone(), *size),
                            SyncOperation::Delete { .. } => (String::new(), 0i64),
                        };
                        let ghost before = moved_view(self.moved@);
                        let mut m: Vec<(String, i64)> = Vec::new();
                        std::mem::swap(&mut m, &mut self.moved);
                        m.push((src, size));
                        self.moved = m;
                        assert(moved_view(self.moved@) =~= before.push(
                            (op_source(self@.ops[k as int]), op_size(self@.ops[k as int])),
                        ));
                    }
                    self.pending = None;
                    self.success = self.success + 1;
                } else {
                    self.pending = None;
                    self.failed = self.failed + 1;
                }
            },
            None => {},
        }
    }

    /// The summary of the run; `aborted` tells whether a stop was requested.
    pub fn finish(&self, aborted: bool) -> (s: RunSummary)
        ensures
            s.total == self@.roots.len() * self@.ops.len(),
            s.success == self@.success,
            s.failed == self@.failed,
            s.success + s.failed <= s.total,
            s.status == task_status(self@.success, self@.failed),
            s.finalize_move == (self@.method == 2 && !aborted && self@.failed == 0
                && self@.moved.len() > 0),
            s.save_snapshot == (self@.source_mode == 1 && !aborted && self@.failed == 0),
    {
        proof {
            use_type_invariant(self);
            let rr = self.roots@.len();
            let n = self.ops@.len();
            if n > 0 && self.pos.0 < rr {
                lemma_step_bound(self.pos.0 as nat, self.pos.1 as nat, n, rr);
            } else if n == 0 {
                assert(self.pos.0 * 0 == 0) by (nonlinear_arith);
            } else {
                assert(self.pos.0 * n == rr * n);
            }
        }
        let status = if self.failed == 0 {
            2
        } else if self.success > 0 {
            3
        } else {
            6
        };
        RunSummary {
            total: self.total,
            success: self.success,
            failed: self.failed,
            status,
            finalize_move: self.method == 2 && !aborted && self.failed == 0 && self.moved.len()
                > 0,
            save_snapshot: self.source_mode == 1 && !aborted && self.failed == 0,
        }
    }
}

/// Law: a deletion (other than a filtered target-only directory) is carried
/// out on the first target root only; on every other root it is just
/// recorded as done, so nothing is deleted twice.
pub proof fn law_delete_runs_on_first_root_only(
    path: Seq<char>,
    is_dir: bool,
    first_root: bool,
    method: i32,
    size_filter: bool,
    source_mode: i32,
    failed: Seq<Seq<char>>,
)
    requires
        !(is_dir && method == 1 && size_filter),
    ensures
        step_kind(
            OpView::Delete { path, is_dir },
            first_root,
            method,
            size_filter,
            source_mode,
            failed,
        ) == (if first_root {
            StepKind::Execute
        } else {
            StepKind::RecordDone
        }),
{
}

/// Law: the source of a moved file is only removed after every step of the
/// run succeeded, the run was not aborted and the job is in move mode.
pub proof fn law_move_sources_removed_only_after_clean_run(v: RunView, aborted: bool)
    ensures
        (v.method == 2 && !aborted && v.failed == 0 && v.moved.len() > 0) ==> v.failed == 0,
        task_status(v.success, v.failed) == 2 <==> v.failed == 0,
{
}

// ==================== moving finalisation ====================

/// What happens to the source of a moved file once the run is over.
#[derive(Debug, Clone, Copy, PartialEq, Eq, Structural)]
pub enum FinalizeAction {
    /// The source is already gone.
    AlreadyGone,
    /// Its size could not be read: left alone.
    Unreadable,
    /// It changed size during the run: left alone, the step marked failed.
    Changed,
    /// Unchanged: removed.
    Remove,
}

/// Decides the fate of a moved file's source.
pub fn finalize_move_action(exists: bool, current_size: Option<i64>, expected_size: i64) -> (r:
    FinalizeAction)
    ensures
        r == (if !exists {
            FinalizeAction::AlreadyGone
        } else {
            match current_size {
                None => FinalizeAction::Unreadable,
                Some(s) => if s != expected_size {
                    FinalizeAction::Changed
                } else {
                    FinalizeAction::Remove
                },
            }
        }),
{
    if !exists {
        return FinalizeAction::AlreadyGone;
    }
    match current_size {
        None => FinalizeAction::Unreadable,
        Some(s) => if s != expected_size {
            FinalizeAction::Changed
        } else {
            FinalizeAction::Remove
        },
    }
}

// ==================== completion notice ====================

/// The status word of the completion notice.
pub open spec fn status_word(total: nat, success: nat, failed: nat) -> Seq<char> {
    if failed == 0 && total == 0 {
        "无需同步"@
    } else if failed == 0 {
        "成功"@
    } else if success > 0 {
        "部分失败"@
    } else {
        "失败"@
    }
}

/// The status word for a run's counts.
pub fn notice_status(total: usize, success: usize, failed: usize) -> (r: &'static str)
    ensures
        r@ == status_word(total as nat, success as nat, failed as nat),
{
    if failed == 0 && total == 0 {
        "无需同步"
    } else if failed == 0 {
        "成功"
    } else if success > 0 {
        "部分失败"
    } else {
        "失败"
    }
}

/// The title: the job's remark (when set and not empty) or `RustSync`,
/// then `: ` and the status word.
pub open spec fn notice_title_text(remark: Option<Seq<char>>, status: Seq<char>) -> Seq<char> {
    match remark {
        Some(r) => if r.len() == 0 {
            "RustSync: "@ + status
        } else {
            r + ": "@ + status
        },
        None => "RustSync: "@ + status,
    }
}

/// Builds the notice title.
pub fn notice_title(remark: Option<&str>, status: &str) -> (r: String)
    ensures
        r@ == notice_title_text(
            match remark {
                Some(s) => Some(s@),
                None => None,
            },
            status@,
        ),
{
    let head: String = match remark {
        Some(r) => if r.unicode_len() == 0 {
            "RustSync: ".to_string()
        } else {
            let mut h = r.to_string();
            h.append(": ");
            h
        },
        None => "RustSync: ".to_string(),
    };
    let mut t = head;
    t.append(status);
    t
}

/// The target list as shown to people: `:` becomes `、`.
pub open spec fn display_targets(s: Seq<char>) -> Seq<char> {
    s.map_values(|c: char| if c == ':' { '、' } else { c })
}

/// The body: source, targets, and the three counts.
pub open spec fn notice_body_text(
    src: Seq<char>,
    dst: Seq<char>,
    total: nat,
    success: nat,
    failed: nat,
) -> Seq<char> {
    "来源: "@ + src + "\n目标: "@ + display_targets(dst) + "\n总数: "@ + dec_nat(total)
        + "  成功: "@ + dec_nat(success) + "  失败: "@ + dec_nat(failed)
}

fn append_str(v: &mut Vec<char>, s: &str)
    ensures
        final(v)@ == old(v)@ + s@,
{
    let c = chars_of(s);
    append_chars(v, &c);
}

/// Builds the notice body.
pub fn notice_body(src: &str, dst: &str, total: usize, success: usize, failed: usize) -> (r:
    String)
    ensures
        r@ == notice_body_text(src@, dst@, total as nat, success as nat, failed as nat),
{
    let d = chars_of(dst);
    let mut shown: Vec<char> = Vec::new();
    let mut i: usize = 0;
    while i < d.len()
        invariant
            i <= d@.len(),
            shown@ == display_targets(d@.subrange(0, i as int)),
        decreases d@.len() - i,
    {
        let c = d[i];
        shown.push(if c == ':' { '、' } else { c });
        i = i + 1;
        assert(shown@ =~= display_targets(d@.subrange(0, i as int)));
    }
    assert(d@.subrange(0, d@.len() as int) =~= d@);
    let mut v: Vec<char> = Vec::new();
    append_str(&mut v, "来源: ");
    append_str(&mut v, src);
    append_str(&mut v, "\n目标: ");
    append_chars(&mut v, &shown);
    append_str(&mut v, "\n总数: ");
    append_chars(&mut v, &u64_digits(total as u64));
    append_str(&mut v, "  成功: ");
    append_chars(&mut v, &u64_digits(success as u64));
    append_str(&mut v, "  失败: ");
    append_chars(&mut v, &u64_digits(failed as u64));
    assert(v@ =~= notice_body_text(src@, dst@, total as nat, success as nat, failed as nat));
    string_of(&v)
}

/// A channel is skipped when nothing needed syncing and it asked not to be
/// told about empty runs.
pub fn skip_channel(total: usize, failed: usize, not_send_null: bool) -> (r: bool)
    ensures
        r == (failed == 0 && total == 0 && not_send_null),
{
    failed == 0 && total == 0 && not_send_null
}

/// Law: the status a run reports (`RunSummary::status`, see
/// [`SyncRun::finish`]) is 2 (success) exactly when no step failed, 3
/// (partly failed) exactly when some step failed and at least one
/// succeeded, and 6 (failed) exactly when steps failed and none succeeded.
pub proof fn law_run_status(success: nat, failed: nat)
    ensures
        task_status(success, failed) == 2 <==> failed == 0,
        task_status(success, failed) == 3 <==> (failed > 0 && success > 0),
        task_status(success, failed) == 6 <==> (failed > 0 && success == 0),
{
}

} // verus!
