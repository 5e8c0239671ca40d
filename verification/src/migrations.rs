//! Which schema migrations to run.
//!
//! Migration is lenient: a migration already applied is never run again, even
//! when its checksum changed, and a pending migration older than one already
//! applied is still run. A database left dirty by a failed migration is refused.

use vstd::prelude::*;
use crate::text::push_char;
use crate::schema::{
    ADD_COMMENTS_DOWN_SQL, ADD_COMMENTS_UP_SQL, ADD_COMMENT_UPVOTES_DOWN_SQL, ADD_COMMENT_UPVOTES_UP_SQL,
    ADD_IDEA_PROBLEM_DOWN_SQL, ADD_IDEA_PROBLEM_UP_SQL, ADD_INPROGRESS_STATUS_DOWN_SQL,
    ADD_INPROGRESS_STATUS_UP_SQL, INIT_DOWN_SQL, INIT_UP_SQL,
};

verus! {

/// A migration that ships with the program.
pub struct CatalogEntry {
    pub version: i64,
    pub is_down: bool,
    pub checksum: Vec<u8>,
}

/// A migration recorded as applied in the database.
pub struct AppliedMigration {
    pub version: i64,
    pub checksum: Vec<u8>,
}

/// What to do with one up migration of the catalog (`index` is its place there).
#[derive(Debug, Clone, Copy, PartialEq, Eq, Structural)]
pub enum MigrationStep {
    /// Already applied; `checksum_differs` when the stored checksum is not the shipped one.
    Skip { index: usize, version: i64, checksum_differs: bool },
    /// Not applied yet; `older_than_applied` when a newer migration is already applied.
    Apply { index: usize, version: i64, older_than_applied: bool },
}

pub struct MigrationPlan {
    /// One step per up migration, in catalog order.
    pub steps: Vec<MigrationStep>,
    /// Applied versions that the catalog has no up migration for, in stored order.
    pub unknown_applied: Vec<i64>,
}

/// The first applied record of `version`, if any.
pub open spec fn first_applied(applied: Seq<AppliedMigration>, version: i64) -> Option<int>
    decreases applied.len(),
{
    if applied.len() == 0 {
        None
    } else {
        match first_applied(applied.drop_last(), version) {
            Some(i) => Some(i),
            None => if applied.last().version == version {
                Some(applied.len() - 1)
            } else {
                None
            },
        }
    }
}

pub open spec fn newer_applied(applied: Seq<AppliedMigration>, version: i64) -> bool {
    exists|j: int| 0 <= j < applied.len() && (#[trigger] applied[j]).version > version
}

pub open spec fn step_for(m: CatalogEntry, index: int, applied: Seq<AppliedMigration>) -> MigrationStep {
    match first_applied(applied, m.version) {
        Some(a) => MigrationStep::Skip {
            index: index as usize,
            version: m.version,
            checksum_differs: applied[a].checksum@ != m.checksum@,
        },
        None => MigrationStep::Apply {
            index: index as usize,
            version: m.version,
            older_than_applied: newer_applied(applied, m.version),
        },
    }
}

/// The steps for the up migrations of `catalog`, in order.
pub open spec fn planned_steps(catalog: Seq<CatalogEntry>, applied: Seq<AppliedMigration>) -> Seq<
    MigrationStep,
>
    decreases catalog.len(),
{
    if catalog.len() == 0 {
        Seq::empty()
    } else {
        let before = planned_steps(catalog.drop_last(), applied);
        if catalog.last().is_down {
            before
        } else {
            before.push(step_for(catalog.last(), catalog.len() - 1, applied))
        }
    }
}

pub open spec fn has_up(catalog: Seq<CatalogEntry>, version: i64) -> bool {
    exists|i: int| 0 <= i < catalog.len() && !(#[trigger] catalog[i]).is_down && catalog[i].version == version
}

/// The applied versions that `catalog` has no up migration for.
pub open spec fn unknown_versions(applied: Seq<AppliedMigration>, catalog: Seq<CatalogEntry>) -> Seq<i64>
    decreases applied.len(),
{
    if applied.len() == 0 {
        Seq::empty()
    } else {
        let before = unknown_versions(applied.drop_last(), catalog);
        if has_up(catalog, applied.last().version) {
            before
        } else {
            before.push(applied.last().version)
        }
    }
}

fn bytes_eq(a: &Vec<u8>, b: &Vec<u8>) -> (r: bool)
    ensures
        r == (a@ == b@),
{
    if a.len() != b.len() {
        return false;
    }
    let mut i: usize = 0;
    while i < a.len()
        invariant
            i <= a@.len() == b@.len(),
            forall|k: int| 0 <= k < i ==> a@[k] == b@[k],
        decreases a@.len() - i,
    {
        if a[i] != b[i] {
            return false;
        }
        i = i + 1;
    }
    assert(a@ =~= b@);
    true
}

proof fn lemma_first_applied(applied: Seq<AppliedMigration>, version: i64)
    ensures
        match first_applied(applied, version) {
            Some(i) => 0 <= i < applied.len() && applied[i].version == version && forall|j: int|
                0 <= j < i ==> (#[trigger] applied[j]).version != version,
            None => forall|j: int| 0 <= j < applied.len() ==> (#[trigger] applied[j]).version != version,
        },
    decreases applied.len(),
{
    if applied.len() > 0 {
        let t = applied.drop_last();
        lemma_first_applied(t, version);
        assert forall|j: int| 0 <= j < t.len() implies #[trigger] t[j] == applied[j] by {}
        assert(applied.last() == applied[applied.len() - 1]);
        match first_applied(t, version) {
            Some(i) => {
                assert(t[i] == applied[i]);
                assert forall|j: int| 0 <= j < i implies (#[trigger] applied[j]).version != version by {
                    assert(t[j] == applied[j]);
                }
            },
            None => {
                if applied.last().version == version {
                    assert forall|j: int| 0 <= j < applied.len() - 1 implies (#[trigger] applied[j]).version
                        != version by {
                        assert(t[j] == applied[j]);
                    }
                } else {
                    assert forall|j: int| 0 <= j < applied.len() implies (#[trigger] applied[j]).version
                        != version by {
                        if j < applied.len() - 1 {
                            assert(t[j] == applied[j]);
                        }
                    }
                }
            },
        }
    }
}

fn find_applied(applied: &Vec<AppliedMigration>, version: i64) -> (r: Option<usize>)
    ensures
        match r {
            Some(i) => i < applied@.len() && first_applied(applied@, version) == Some(i as int),
            None => first_applied(applied@, version) is None,
        },
{
    proof {
        lemma_first_applied(applied@, version);
    }
    let mut i: usize = 0;
    while i < applied.len()
        invariant
            i <= applied@.len(),
            match first_applied(applied@, version) {
                Some(x) => 0 <= x < applied@.len() && applied@[x].version == version && forall|j: int|
                    0 <= j < x ==> (#[trigger] applied@[j]).version != version,
                None => forall|j: int|
                    0 <= j < applied@.len() ==> (#[trigger] applied@[j]).version != version,
            },
            forall|j: int| 0 <= j < i ==> (#[trigger] applied@[j]).version != version,
        decreases applied@.len() - i,
    {
        if applied[i].version == version {
            return Some(i);
        }
        i = i + 1;
    }
    None
}

fn any_newer(applied: &Vec<AppliedMigration>, version: i64) -> (r: bool)
    ensures
        r == newer_applied(applied@, version),
{
    let mut i: usize = 0;
    while i < applied.len()
        invariant
            i <= applied@.len(),
            forall|j: int| 0 <= j < i ==> (#[trigger] applied@[j]).version <= version,
        decreases applied@.len() - i,
    {
        if applied[i].version > version {
            assert(applied@[i as int].version > version);
            return true;
        }
        i = i + 1;
    }
    false
}

fn catalog_has_up(catalog: &Vec<CatalogEntry>, version: i64) -> (r: bool)
    ensures
        r == has_up(catalog@, version),
{
    let mut i: usize = 0;
    while i < catalog.len()
        invariant
            i <= catalog@.len(),
            forall|j: int|
                0 <= j < i ==> (#[trigger] catalog@[j]).is_down || catalog@[j].version != version,
        decreases catalog@.len() - i,
    {
        if !catalog[i].is_down && catalog[i].version == version {
            assert(!catalog@[i as int].is_down && catalog@[i as int].version == version);
            return true;
        }
        i = i + 1;
    }
    false
}

/// The migration plan, or the dirty version that forbids migrating.
pub fn plan_migrations(
    catalog: &Vec<CatalogEntry>,
    applied: &Vec<AppliedMigration>,
    dirty_version: Option<i64>,
) -> (r: Result<MigrationPlan, i64>)
    ensures
        match dirty_version {
            Some(v) => r == Err::<MigrationPlan, i64>(v),
            None => r matches Ok(plan) && plan.steps@ == planned_steps(catalog@, applied@)
                && plan.unknown_applied@ == unknown_versions(applied@, catalog@),
        },
{
    if let Some(v) = dirty_version {
        return Err(v);
    }
    let mut unknown: Vec<i64> = Vec::new();
    let mut i: usize = 0;
    while i < applied.len()
        invariant
            i <= applied@.len(),
            unknown@ == unknown_versions(applied@.take(i as int), catalog@),
        decreases applied@.len() - i,
    {
        assert(applied@.take(i + 1).drop_last() == applied@.take(i as int));
        assert(applied@.take(i + 1).last() == applied@[i as int]);
        if !catalog_has_up(catalog, applied[i].version) {
            unknown.push(applied[i].version);
        }
        i = i + 1;
    }
    assert(applied@.take(applied@.len() as int) == applied@);
    let mut steps: Vec<MigrationStep> = Vec::new();
    let mut k: usize = 0;
    while k < catalog.len()
        invariant
            k <= catalog@.len(),
            steps@ == planned_steps(catalog@.take(k as int), applied@),
        decreases catalog@.len() - k,
    {
        assert(catalog@.take(k + 1).drop_last() == catalog@.take(k as int));
        assert(catalog@.take(k + 1).last() == catalog@[k as int]);
        let m = &catalog[k];
        if !m.is_down {
            let step = match find_applied(applied, m.version) {
                Some(a) => MigrationStep::Skip {
                    index: k,
                    version: m.version,
                    checksum_differs: !bytes_eq(&applied[a].checksum, &m.checksum),
                },
                None => MigrationStep::Apply {
                    index: k,
                    version: m.version,
                    older_than_applied: any_newer(applied, m.version),
                },
            };
            steps.push(step);
        }
        k = k + 1;
    }
    assert(catalog@.take(catalog@.len() as int) == catalog@);
    Ok(MigrationPlan { steps, unknown_applied: unknown })
}

/// The version to revert to so that the latest applied migration is undone:
/// the one before it, or -1 (undo everything) when fewer than two are applied.
pub fn revert_target(applied_versions: &Vec<i64>) -> (t: i64)
    ensures
        t == (if applied_versions@.len() >= 2 {
            applied_versions@[applied_versions@.len() - 2]
        } else {
            -1i64
        }),
{
    if applied_versions.len() >= 2 {
        applied_versions[applied_versions.len() - 2]
    } else {
        -1
    }
}

/// The lower case hexadecimal digit of `n < 16`.
pub open spec fn hex_digit(n: int) -> char {
    if n < 10 {
        (('0' as int) + n) as char
    } else {
        (('a' as int) + n - 10) as char
    }
}

/// Two lower case hexadecimal digits per byte, as `{:02x}` writes them.
pub open spec fn hex_of(bytes: Seq<u8>) -> Seq<char>
    decreases bytes.len(),
{
    if bytes.len() == 0 {
        Seq::empty()
    } else {
        hex_of(bytes.drop_last()) + seq![
            hex_digit(bytes.last() as int / 16),
            hex_digit(bytes.last() as int % 16),
        ]
    }
}

fn hex_digit_exec(n: u8) -> (c: char)
    requires
        n < 16,
    ensures
        c == hex_digit(n as int),
{
    if n < 10 {
        ((48 + n) as u8) as char
    } else {
        ((87 + n) as u8) as char
    }
}

/// The checksum written as lower case hexadecimal.
pub fn checksum_hex(checksum: &[u8]) -> (s: String)
    ensures
        s@ == hex_of(checksum@),
{
    let mut s = String::new();
    let mut i: usize = 0;
    while i < checksum.len()
        invariant
            i <= checksum@.len(),
            s@ == hex_of(checksum@.take(i as int)),
        decreases checksum@.len() - i,
    {
        let b = checksum[i];
        assert(checksum@.take(i + 1).drop_last() == checksum@.take(i as int));
        assert(checksum@.take(i + 1).last() == b);
        push_char(&mut s, hex_digit_exec(b / 16));
        push_char(&mut s, hex_digit_exec(b % 16));
        assert(s@ == hex_of(checksum@.take(i + 1)));
        i = i + 1;
    }
    assert(checksum@.take(checksum@.len() as int) == checksum@);
    s
}

/// Law: an applied migration is never planned to run again, and every up migration
/// that is not applied is planned to run.
pub proof fn lemma_applied_never_rerun(
    catalog: Seq<CatalogEntry>,
    applied: Seq<AppliedMigration>,
    i: int,
)
    requires
        0 <= i < planned_steps(catalog, applied).len(),
    ensures
        match planned_steps(catalog, applied)[i] {
            MigrationStep::Skip { version, .. } => exists|j: int|
                0 <= j < applied.len() && (#[trigger] applied[j]).version == version,
            MigrationStep::Apply { version, .. } => forall|j: int|
                0 <= j < applied.len() ==> (#[trigger] applied[j]).version != version,
        },
    decreases catalog.len(),
{
    let before = planned_steps(catalog.drop_last(), applied);
    if i < before.len() {
        lemma_applied_never_rerun(catalog.drop_last(), applied, i);
    } else {
        lemma_first_applied(applied, catalog.last().version);
    }
}

/// Law: the plan holds one step for each up migration of the catalog.
pub proof fn lemma_one_step_per_up_migration(catalog: Seq<CatalogEntry>, applied: Seq<AppliedMigration>)
    ensures
        planned_steps(catalog, applied).len() == catalog.filter(|m: CatalogEntry| !m.is_down).len(),
    decreases catalog.len(),
{
    reveal_with_fuel(Seq::filter, 1);
    if catalog.len() > 0 {
        lemma_one_step_per_up_migration(catalog.drop_last(), applied);
    }
}

/// A migration that ships with the program: its version, its name, and its up
/// and down scripts.
pub struct MigrationInfo {
    pub version: i64,
    pub description: &'static str,
    pub up_sql: &'static str,
    pub down_sql: &'static str,
}

/// The shipped migrations, oldest first: (version, name, up script, down script).
pub open spec fn shipped_migrations() -> Seq<(i64, Seq<char>, Seq<char>, Seq<char>)> {
    seq![
        (20260507120000i64, "init"@, INIT_UP_SQL@, INIT_DOWN_SQL@),
        (
            20260518120000i64,
            "add_inprogress_status"@,
            ADD_INPROGRESS_STATUS_UP_SQL@,
            ADD_INPROGRESS_STATUS_DOWN_SQL@,
        ),
        (20260518130000i64, "add_comments"@, ADD_COMMENTS_UP_SQL@, ADD_COMMENTS_DOWN_SQL@),
        (
            20260518140000i64,
            "add_comment_upvotes"@,
            ADD_COMMENT_UPVOTES_UP_SQL@,
            ADD_COMMENT_UPVOTES_DOWN_SQL@,
        ),
        (20260519120000i64, "add_idea_problem"@, ADD_IDEA_PROBLEM_UP_SQL@, ADD_IDEA_PROBLEM_DOWN_SQL@),
    ]
}

pub open spec fn info_view(m: MigrationInfo) -> (i64, Seq<char>, Seq<char>, Seq<char>) {
    (m.version, m.description@, m.up_sql@, m.down_sql@)
}

pub fn embedded_migrations() -> (r: Vec<MigrationInfo>)
    ensures
        r@.map_values(|m: MigrationInfo| info_view(m)) == shipped_migrations(),
{
    let mut r: Vec<MigrationInfo> = Vec::new();
    r.push(
        MigrationInfo {
            version: 20260507120000,
            description: "init",
            up_sql: INIT_UP_SQL,
            down_sql: INIT_DOWN_SQL,
        },
    );
    r.push(
        MigrationInfo {
            version: 20260518120000,
            description: "add_inprogress_status",
            up_sql: ADD_INPROGRESS_STATUS_UP_SQL,
            down_sql: ADD_INPROGRESS_STATUS_DOWN_SQL,
        },
    );
    r.push(
        MigrationInfo {
            version: 20260518130000,
            description: "add_comments",
            up_sql: ADD_COMMENTS_UP_SQL,
            down_sql: ADD_COMMENTS_DOWN_SQL,
        },
    );
    r.push(
        MigrationInfo {
            version: 20260518140000,
            description: "add_comment_upvotes",
            up_sql: ADD_COMMENT_UPVOTES_UP_SQL,
            down_sql: ADD_COMMENT_UPVOTES_DOWN_SQL,
        },
    );
    r.push(
        MigrationInfo {
            version: 20260519120000,
            description: "add_idea_problem",
            up_sql: ADD_IDEA_PROBLEM_UP_SQL,
            down_sql: ADD_IDEA_PROBLEM_DOWN_SQL,
        },
    );
    assert(r@.map_values(|m: MigrationInfo| info_view(m)) =~= shipped_migrations());
    r
}

/// Law: the shipped migrations, oldest first, each with its own name and its own
/// up and down script.
pub proof fn lemma_shipped_migrations()
    ensures
        shipped_migrations().len() == 5,
        shipped_migrations()[0] == (20260507120000i64, "init"@, INIT_UP_SQL@, INIT_DOWN_SQL@),
        shipped_migrations()[1] == (
            20260518120000i64,
            "add_inprogress_status"@,
            ADD_INPROGRESS_STATUS_UP_SQL@,
            ADD_INPROGRESS_STATUS_DOWN_SQL@,
        ),
        shipped_migrations()[2] == (
            20260518130000i64,
            "add_comments"@,
            ADD_COMMENTS_UP_SQL@,
            ADD_COMMENTS_DOWN_SQL@,
        ),
        shipped_migrations()[3] == (
            20260518140000i64,
            "add_comment_upvotes"@,
            ADD_COMMENT_UPVOTES_UP_SQL@,
            ADD_COMMENT_UPVOTES_DOWN_SQL@,
        ),
        shipped_migrations()[4] == (
            20260519120000i64,
            "add_idea_problem"@,
            ADD_IDEA_PROBLEM_UP_SQL@,
            ADD_IDEA_PROBLEM_DOWN_SQL@,
        ),
{
}

/// Law: each down script undoes its migration: the comments and comment-upvotes
/// migrations are reverted by dropping their table, the problem column by
/// dropping that column.
pub proof fn lemma_down_scripts_undo()
    ensures
        shipped_migrations()[2].3 == "DROP TABLE IF EXISTS comments;\n"@,
        shipped_migrations()[3].3 == "DROP TABLE IF EXISTS comment_upvotes;\n"@,
        shipped_migrations()[4].3 == "ALTER TABLE ideas DROP COLUMN problem;\n"@,
        "DROP TABLE IF EXISTS "@.is_prefix_of(shipped_migrations()[2].3),
        "DROP TABLE IF EXISTS "@.is_prefix_of(shipped_migrations()[3].3),
        "ALTER TABLE ideas DROP COLUMN "@.is_prefix_of(shipped_migrations()[4].3),
{
    reveal_strlit("DROP TABLE IF EXISTS comments;\n");
    reveal_strlit("DROP TABLE IF EXISTS comment_upvotes;\n");
    reveal_strlit("ALTER TABLE ideas DROP COLUMN problem;\n");
    reveal_strlit("DROP TABLE IF EXISTS ");
    reveal_strlit("ALTER TABLE ideas DROP COLUMN ");
}

/// One entry of the migrator: a migration's up or down script, and whether it
/// runs outside a transaction.
pub struct MigrationEntry {
    pub version: i64,
    pub description: &'static str,
    pub is_down: bool,
    pub sql: &'static str,
    pub no_transaction: bool,
}

pub open spec fn entry_view(e: MigrationEntry) -> (i64, Seq<char>, bool, Seq<char>, bool) {
    (e.version, e.description@, e.is_down, e.sql@, e.no_transaction)
}

/// The entry of one script of migration `m`: its up script, or its down script.
pub open spec fn script_entry(m: (i64, Seq<char>, Seq<char>, Seq<char>), is_down: bool) -> (
    i64,
    Seq<char>,
    bool,
    Seq<char>,
    bool,
) {
    let sql = if is_down {
        m.3
    } else {
        m.2
    };
    (m.0, m.1, is_down, sql, "-- no-transaction"@.is_prefix_of(sql))
}

/// The migrator's entries for `ms`: each migration's up entry, then its down entry.
pub open spec fn entries_of(ms: Seq<(i64, Seq<char>, Seq<char>, Seq<char>)>) -> Seq<
    (i64, Seq<char>, bool, Seq<char>, bool),
>
    decreases ms.len(),
{
    if ms.len() == 0 {
        Seq::empty()
    } else {
        entries_of(ms.drop_last()).push(script_entry(ms.last(), false)).push(
            script_entry(ms.last(), true),
        )
    }
}

/// The entries of the migrator that the server runs: for each shipped migration,
/// oldest first, its up script and then its down script.
pub fn migration_entries() -> (r: Vec<MigrationEntry>)
    ensures
        r@.map_values(|e: MigrationEntry| entry_view(e)) == entries_of(shipped_migrations()),
{
    let infos = embedded_migrations();
    let ghost ms = infos@.map_values(|m: MigrationInfo| info_view(m));
    let mut r: Vec<MigrationEntry> = Vec::new();
    let mut i: usize = 0;
    while i < infos.len()
        invariant
            i <= infos@.len(),
            ms == infos@.map_values(|m: MigrationInfo| info_view(m)),
            r@.map_values(|e: MigrationEntry| entry_view(e)) == entries_of(ms.take(i as int)),
        decreases infos@.len() - i,
    {
        let m = &infos[i];
        let ghost before = r@;
        r.push(
            MigrationEntry {
                version: m.version,
                description: m.description,
                is_down: false,
                sql: m.up_sql,
                no_transaction: runs_outside_transaction(m.up_sql),
            },
        );
        r.push(
            MigrationEntry {
                version: m.version,
                description: m.description,
                is_down: true,
                sql: m.down_sql,
                no_transaction: runs_outside_transaction(m.down_sql),
            },
        );
        proof {
            let t = ms.take(i + 1);
            assert(t.drop_last() == ms.take(i as int));
            assert(t.last() == info_view(infos@[i as int]));
            assert(r@.map_values(|e: MigrationEntry| entry_view(e)) =~= before.map_values(
                |e: MigrationEntry| entry_view(e),
            ).push(script_entry(t.last(), false)).push(script_entry(t.last(), true)));
        }
        i = i + 1;
    }
    assert(ms.take(infos@.len() as int) == ms);
    r
}

proof fn lemma_entries_of_len(ms: Seq<(i64, Seq<char>, Seq<char>, Seq<char>)>)
    ensures
        entries_of(ms).len() == 2 * ms.len(),
    decreases ms.len(),
{
    if ms.len() > 0 {
        lemma_entries_of_len(ms.drop_last());
    }
}

proof fn lemma_entries_of_index(ms: Seq<(i64, Seq<char>, Seq<char>, Seq<char>)>, k: int)
    requires
        0 <= k < ms.len(),
    ensures
        entries_of(ms).len() == 2 * ms.len(),
        entries_of(ms)[2 * k] == script_entry(ms[k], false),
        entries_of(ms)[2 * k + 1] == script_entry(ms[k], true),
    decreases ms.len(),
{
    lemma_entries_of_len(ms);
    lemma_entries_of_len(ms.drop_last());
    let before = entries_of(ms.drop_last());
    assert(entries_of(ms) == before.push(script_entry(ms.last(), false)).push(
        script_entry(ms.last(), true),
    ));
    if k < ms.len() - 1 {
        lemma_entries_of_index(ms.drop_last(), k);
        assert(ms.drop_last()[k] == ms[k]);
    }
}

/// Law: the migrator holds two entries per shipped migration, in order: entry
/// `2k` is migration `k`'s up script and entry `2k + 1` its down script, each
/// with its own version and name.
pub proof fn lemma_entries_pair_up_and_down(k: int)
    requires
        0 <= k < shipped_migrations().len(),
    ensures
        entries_of(shipped_migrations()).len() == 2 * shipped_migrations().len(),
        entries_of(shipped_migrations())[2 * k] == script_entry(shipped_migrations()[k], false),
        entries_of(shipped_migrations())[2 * k + 1] == script_entry(shipped_migrations()[k], true),
        entries_of(shipped_migrations())[2 * k].3 == shipped_migrations()[k].2,
        entries_of(shipped_migrations())[2 * k + 1].3 == shipped_migrations()[k].3,
{
    lemma_entries_of_index(shipped_migrations(), k);
}

/// Law: the shipped migrations are in strictly increasing version order, so they
/// run oldest first.
pub proof fn lemma_shipped_in_version_order()
    ensures
        forall|i: int, j: int|
            0 <= i < j < shipped_migrations().len() ==> (#[trigger] shipped_migrations()[i]).0 < (
            #[trigger] shipped_migrations()[j]).0,
{
}

/// A migration script that begins with `-- no-transaction` runs outside a transaction.
pub fn runs_outside_transaction(sql: &str) -> (r: bool)
    ensures
        r == "-- no-transaction"@.is_prefix_of(sql@),
{
    crate::text::starts_with(sql, "-- no-transaction")
}

} // verus!
