//! Database set-up decisions: what to do with an existing or missing user
//! table, which schema migrations an old database needs, the initial
//! administrator password and the columns the built-in engine row needs.
use vstd::prelude::*;
use crate::auth::generate_random_password;
use crate::config::alphanumeric;
use crate::files::str_eq;
use crate::text::pair_views;

verus! {

/// The schema version this program writes.
pub const DB_VERSION: i32 = 260718;

// ==================== start-up plan ====================

/// What start-up does with the database.
#[derive(Debug, Clone, Copy, PartialEq, Eq)]
pub enum InitPlan {
    /// No user table: create every table.
    CreateTables,
    /// An empty user table and no other data (an interrupted first start):
    /// drop the tables and create them again.
    RecreateTables,
    /// An empty user table beside stored data: stop rather than destroy it.
    Refuse,
    /// Users exist: migrate the schema.
    Migrate,
}

/// Chooses the start-up plan from whether the user table exists, how many
/// users it holds and whether any other data is stored.
pub fn init_plan(user_table_exists: bool, user_count: i64, has_business_data: bool) -> (r: InitPlan)
    ensures
        !user_table_exists ==> r == InitPlan::CreateTables,
        user_table_exists && user_count != 0 ==> r == InitPlan::Migrate,
        user_table_exists && user_count == 0 && has_business_data ==> r == InitPlan::Refuse,
        user_table_exists && user_count == 0 && !has_business_data ==> r
            == InitPlan::RecreateTables,
{
    if !user_table_exists {
        InitPlan::CreateTables
    } else if user_count != 0 {
        InitPlan::Migrate
    } else if has_business_data {
        InitPlan::Refuse
    } else {
        InitPlan::RecreateTables
    }
}

/// Whether stored data exists: some business table (a missing table counts
/// as empty) has rows, or an engine other than the built-in one is stored.
pub fn has_business_data(table_counts: &[i64], external_engines: i64) -> (r: bool)
    ensures
        r == (external_engines > 0 || exists|i: int|
            0 <= i < table_counts@.len() && #[trigger] table_counts@[i] > 0),
{
    let mut i: usize = 0;
    while i < table_counts.len()
        invariant
            i <= table_counts@.len(),
            forall|j: int| 0 <= j < i ==> #[trigger] table_counts@[j] <= 0,
        decreases table_counts@.len() - i,
    {
        if table_counts[i] > 0 {
            return true;
        }
        i = i + 1;
    }
    external_engines > 0
}

// ==================== initial password ====================

/// A configured password of `RANDOM` or nothing asks for a generated one.
pub open spec fn asks_random_password(password: Seq<char>) -> bool {
    password == "RANDOM"@ || password.len() == 0
}

/// Whether the configured administrator password asks for a generated one.
pub fn uses_random_password(password: &str) -> (r: bool)
    ensures
        r == asks_random_password(password@),
{
    str_eq(password, "RANDOM") || password.unicode_len() == 0
}

/// The first administrator password: the one to store, and the generated
/// one to show (none when the configured password is used).
pub struct InitialPassword {
    pub password: String,
    pub generated: Option<String>,
}

/// Chooses the first administrator password: the configured one, or a fresh
/// random one of 12 letters and digits, which is also handed back to be
/// shown.
pub fn initial_password(configured: &str) -> (r: InitialPassword)
    ensures
        !asks_random_password(configured@) ==> r.password@ == configured@ && r.generated is None,
        asks_random_password(configured@) ==> (r.generated matches Some(g) && g@ == r.password@
            && g@.len() == 12 && forall|i: int| 0 <= i < g@.len() ==> alphanumeric(#[trigger] g@[i])),
{
    if uses_random_password(configured) {
        let pwd = generate_random_password();
        let shown = pwd.clone();
        InitialPassword { password: pwd, generated: Some(shown) }
    } else {
        InitialPassword { password: configured.to_string(), generated: None }
    }
}

// ==================== migrations ====================

/// One schema migration step, named by what it adds.
#[derive(Debug, Clone, Copy, PartialEq, Eq)]
pub enum Migration {
    /// Schema version column and the task error message.
    VersionAndTaskError,
    /// The cron fields of a job.
    CronFields,
    /// The exclude rules of a job.
    Exclude,
    /// The notification table.
    NotifyTable,
    /// The task number of a run.
    TaskNumber,
    /// The remark of a job.
    JobRemark,
    /// Whether a task item is a directory.
    ItemIsPath,
    /// The scan cache settings of a job.
    ScanCache,
    /// The file size limits of a job.
    SizeLimits,
    /// Engine kinds and storage mounts.
    EnginesAndMounts,
    /// Source mode and the source snapshot tables.
    SourceSnapshot,
    /// The fingerprint column of the source snapshot.
    SnapshotFingerprint,
    /// Record the current schema version.
    StoreVersion,
}

/// The step for a version threshold: present when the stored version is
/// below it.
pub open spec fn step_if(version: int, threshold: int, m: Migration) -> Seq<Migration> {
    if version < threshold {
        seq![m]
    } else {
        Seq::<Migration>::empty()
    }
}

/// The migrations a database at schema `version` goes through, oldest
/// first; nothing when it is already current.
pub open spec fn migration_plan(version: int) -> Seq<Migration> {
    if version >= DB_VERSION {
        Seq::<Migration>::empty()
    } else {
        step_if(version, 240731, Migration::VersionAndTaskError) + step_if(
            version,
            240813,
            Migration::CronFields,
        ) + step_if(version, 240905, Migration::Exclude) + step_if(
            version,
            241014,
            Migration::NotifyTable,
        ) + step_if(version, 250307, Migration::TaskNumber) + step_if(
            version,
            250416,
            Migration::JobRemark,
        ) + step_if(version, 250520, Migration::ItemIsPath) + step_if(
            version,
            250608,
            Migration::ScanCache,
        ) + step_if(version, 260715, Migration::SizeLimits) + step_if(
            version,
            260716,
            Migration::EnginesAndMounts,
        ) + step_if(version, 260717, Migration::SourceSnapshot) + step_if(
            version,
            260718,
            Migration::SnapshotFingerprint,
        ) + seq![Migration::StoreVersion]
    }
}

fn push_if(v: &mut Vec<Migration>, version: i32, threshold: i32, m: Migration)
    ensures
        final(v)@ == old(v)@ + step_if(version as int, threshold as int, m),
{
    if version < threshold {
        v.push(m);
    } else {
        assert(old(v)@ + Seq::<Migration>::empty() =~= old(v)@);
    }
}

/// The migrations for a database whose stored schema version is `version`.
pub fn migration_steps(version: i32) -> (r: Vec<Migration>)
    ensures
        r@ == migration_plan(version as int),
{
    let mut v: Vec<Migration> = Vec::new();
    if version >= DB_VERSION {
        return v;
    }
    push_if(&mut v, version, 240731, Migration::VersionAndTaskError);
    push_if(&mut v, version, 240813, Migration::CronFields);
    push_if(&mut v, version, 240905, Migration::Exclude);
    push_if(&mut v, version, 241014, Migration::NotifyTable);
    push_if(&mut v, version, 250307, Migration::TaskNumber);
    push_if(&mut v, version, 250416, Migration::JobRemark);
    push_if(&mut v, version, 250520, Migration::ItemIsPath);
    push_if(&mut v, version, 250608, Migration::ScanCache);
    push_if(&mut v, version, 260715, Migration::SizeLimits);
    push_if(&mut v, version, 260716, Migration::EnginesAndMounts);
    push_if(&mut v, version, 260717, Migration::SourceSnapshot);
    push_if(&mut v, version, 260718, Migration::SnapshotFingerprint);
    v.push(Migration::StoreVersion);
    assert(v@ =~= migration_plan(version as int));
    v
}

/// The schema version a migration plan leaves behind.
pub open spec fn version_after(version: int, plan: Seq<Migration>) -> int {
    if plan.len() > 0 && plan.last() == Migration::StoreVersion {
        DB_VERSION as int
    } else {
        version
    }
}

/// Law: a database already at the current schema needs no migration, an
/// older one ends at the current schema, so a second migration finds
/// nothing to do; and the oldest schema goes through every step.
pub proof fn law_migration_reaches_current(version: int)
    ensures
        migration_plan(DB_VERSION as int).len() == 0,
        version_after(version, migration_plan(version)) >= DB_VERSION || version >= DB_VERSION,
        migration_plan(version_after(version, migration_plan(version))).len() == 0,
        version < 240731 ==> migration_plan(version).len() == 13,
{
    if version < DB_VERSION {
        let p = migration_plan(version);
        assert(p.len() > 0);
        assert(p.last() == Migration::StoreVersion);
    }
}

// ==================== built-in engine columns ====================

/// Whether a column name occurs among the existing ones.
pub open spec fn has_column(existing: Seq<String>, name: Seq<char>) -> bool {
    exists|i: int| 0 <= i < existing.len() && #[trigger] existing[i]@ == name
}

/// A column with its default, when it is not among the existing ones.
pub open spec fn column_if_missing(existing: Seq<String>, name: Seq<char>, default: Seq<char>) -> Seq<
    (Seq<char>, Seq<char>),
> {
    if has_column(existing, name) {
        Seq::<(Seq<char>, Seq<char>)>::empty()
    } else {
        seq![(name, default)]
    }
}

/// The columns the built-in engine row needs (engine kind, system key and
/// protection flag, with defaults `alist`, empty and `0`) that the engine
/// table lacks, in that order.
pub open spec fn missing_columns(existing: Seq<String>) -> Seq<(Seq<char>, Seq<char>)> {
    column_if_missing(existing, "engineType"@, "alist"@) + column_if_missing(
        existing,
        "systemKey"@,
        ""@,
    ) + column_if_missing(existing, "protected"@, "0"@)
}

fn column_present(existing: &Vec<String>, name: &str) -> (r: bool)
    ensures
        r == has_column(existing@, name@),
{
    let mut i: usize = 0;
    while i < existing.len()
        invariant
            i <= existing@.len(),
            forall|j: int| 0 <= j < i ==> #[trigger] existing@[j]@ != name@,
        decreases existing@.len() - i,
    {
        if str_eq(existing[i].as_str(), name) {
            return true;
        }
        i = i + 1;
    }
    false
}

fn push_column_if_missing(
    r: &mut Vec<(String, String)>,
    existing: &Vec<String>,
    name: &str,
    default: &str,
)
    ensures
        pair_views(final(r)@) == pair_views(old(r)@) + column_if_missing(
            existing@,
            name@,
            default@,
        ),
{
    if !column_present(existing, name) {
        r.push((name.to_string(), default.to_string()));
        assert(pair_views(r@) =~= pair_views(old(r)@) + seq![(name@, default@)]);
    } else {
        assert(pair_views(old(r)@) + Seq::<(Seq<char>, Seq<char>)>::empty() =~= pair_views(
            old(r)@,
        ));
    }
}

/// The engine table columns to add, with their defaults, given the columns
/// it has.
pub fn missing_builtin_columns(existing: &Vec<String>) -> (r: Vec<(String, String)>)
    ensures
        pair_views(r@) == missing_columns(existing@),
{
    let mut r: Vec<(String, String)> = Vec::new();
    assert(pair_views(r@) =~= Seq::<(Seq<char>, Seq<char>)>::empty());
    push_column_if_missing(&mut r, existing, "engineType", "alist");
    push_column_if_missing(&mut r, existing, "systemKey", "");
    push_column_if_missing(&mut r, existing, "protected", "0");
    assert(pair_views(r@) =~= missing_columns(existing@));
    r
}

} // verus!
