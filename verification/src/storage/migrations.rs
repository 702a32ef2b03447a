//! Schema version planning: what `migrate` does for the version a database
//! holds, and how the version is stored. Running the statements is the
//! caller's part.
use vstd::prelude::*;

use crate::error::{MindCoreError, Result};
use crate::storage::schema::SCHEMA_VERSION;
use crate::text::{decimal, lemma_parse_u32_decimal, parse_u32, parse_u32_exec, u64_to_decimal};

verus! {

/// Current schema version. Incremented with each migration.
pub const CURRENT_VERSION: u32 = SCHEMA_VERSION;

/// What `migrate` does for the version a database holds.
#[derive(Debug, Clone, Copy, PartialEq, Eq, Structural)]
pub enum MigrationPlan {
    /// Fresh database: create the schema and store the current version.
    CreateSchema,
    /// The database is at the current version: nothing to do.
    UpToDate,
    /// Run the pending migrations from this version.
    Upgrade(u32),
}

/// The message refusing a database newer than this build.
pub open spec fn newer_version_message(version: u32) -> Seq<char> {
    "database schema version ("@ + decimal(version as nat) + ") is newer than this build supports ("@
        + decimal(CURRENT_VERSION as nat) + "). Upgrade mindcore to open this database."@
}

/// The plan for a stored version, or `None` when the version is newer than
/// this build supports.
pub open spec fn plan_spec(version: u32) -> Option<MigrationPlan> {
    if version == 0 {
        Some(MigrationPlan::CreateSchema)
    } else if version > CURRENT_VERSION {
        None
    } else if version < CURRENT_VERSION {
        Some(MigrationPlan::Upgrade(version))
    } else {
        Some(MigrationPlan::UpToDate)
    }
}

/// What `migrate` does for the stored version: a fresh database (version 0)
/// gets the schema, an older one its pending migrations, the current one
/// nothing; a newer one is refused.
pub fn plan_migration(version: u32) -> (r: Result<MigrationPlan>)
    ensures
        plan_spec(version) matches Some(p) ==> r == Ok::<MigrationPlan, MindCoreError>(p),
        plan_spec(version) is None ==> (r matches Err(MindCoreError::Migration(m)) && m@
            == newer_version_message(version)),
{
    if version == 0 {
        return Ok(MigrationPlan::CreateSchema);
    }
    if version > CURRENT_VERSION {
        let mut m = String::from_str("database schema version (");
        m.append(u64_to_decimal(version as u64).as_str());
        m.append(") is newer than this build supports (");
        m.append(u64_to_decimal(CURRENT_VERSION as u64).as_str());
        m.append("). Upgrade mindcore to open this database.");
        return Err(MindCoreError::Migration(m));
    }
    if version < CURRENT_VERSION {
        Ok(MigrationPlan::Upgrade(version))
    } else {
        Ok(MigrationPlan::UpToDate)
    }
}

/// The message for a stored version that does not parse.
pub open spec fn invalid_version_message(stored: Seq<char>) -> Seq<char> {
    "invalid schema version '"@ + stored + "'"@
}

/// The schema version read from the stored text: zero when none is stored
/// (a fresh database), the number when the text is a `u32`, an error
/// otherwise.
pub fn parse_version(stored: Option<&str>) -> (r: Result<u32>)
    ensures
        stored is None ==> r == Ok::<u32, MindCoreError>(0),
        stored matches Some(v) ==> (parse_u32(v@) matches Some(n) ==> r == Ok::<
            u32,
            MindCoreError,
        >(n)),
        stored matches Some(v) ==> (parse_u32(v@) is None ==> (r matches Err(
            MindCoreError::Migration(m),
        ) && m@ == invalid_version_message(v@))),
{
    match stored {
        None => Ok(0),
        Some(v) => match parse_u32_exec(v) {
            Some(n) => Ok(n),
            None => {
                let mut m = String::from_str("invalid schema version '");
                m.append(v);
                m.append("'");
                Err(MindCoreError::Migration(m))
            },
        },
    }
}

/// The text under which a version is stored.
pub fn version_text(version: u32) -> (s: String)
    ensures
        s@ == decimal(version as nat),
{
    u64_to_decimal(version as u64)
}

/// The versions from which the listed migrations run, in order: the
/// migration at index `i` upgrades version `i + 1` to `i + 2`, and runs when
/// `i + 1` is at least the stored version and below the current one.
pub open spec fn migration_steps_spec(from_version: u32, available: nat) -> Seq<u32>
    decreases available,
{
    if available == 0 {
        seq![]
    } else {
        let i = (available - 1) as nat;
        let rest = migration_steps_spec(from_version, i);
        if i + 1 >= from_version && i + 1 < CURRENT_VERSION {
            rest.push((i + 1) as u32)
        } else {
            rest
        }
    }
}

/// The versions from which the migrations run, given the number of listed
/// migrations.
pub fn migration_steps(from_version: u32, available: usize) -> (r: Vec<u32>)
    ensures
        r@ == migration_steps_spec(from_version, available as nat),
{
    let mut r: Vec<u32> = Vec::new();
    let mut i: usize = 0;
    while i < available
        invariant
            i <= available,
            r@ == migration_steps_spec(from_version, i as nat),
        decreases available - i,
    {
        if i < CURRENT_VERSION as usize && i + 1 >= from_version as usize && i + 1 < CURRENT_VERSION as usize {
            r.push((i + 1) as u32);
        }
        i = i + 1;
    }
    r
}

/// Migrating is idempotent: a fresh database is given the current version,
/// which is stored as text that reads back as the current version, for
/// which the plan is to do nothing.
pub proof fn lemma_migrate_idempotent()
    ensures
        plan_spec(0) == Some(MigrationPlan::CreateSchema),
        parse_u32(decimal(CURRENT_VERSION as nat)) == Some(CURRENT_VERSION),
        plan_spec(CURRENT_VERSION) == Some(MigrationPlan::UpToDate),
{
    lemma_parse_u32_decimal(CURRENT_VERSION);
}

/// A version stored as text reads back as the same version.
pub proof fn lemma_version_roundtrip(v: u32)
    ensures
        parse_u32(decimal(v as nat)) == Some(v),
{
    lemma_parse_u32_decimal(v);
}

/// The migrations that run are exactly those from the versions `v` with
/// `v >= from_version`, `1 <= v <= available` and `v` below the current
/// version, in increasing order, each once.
pub proof fn lemma_migration_steps_range(from_version: u32, available: nat)
    ensures
        forall|i: int|
            0 <= i < migration_steps_spec(from_version, available).len() ==> {
                let v = #[trigger] migration_steps_spec(from_version, available)[i];
                &&& from_version <= v
                &&& 1 <= v <= available
                &&& v < CURRENT_VERSION
            },
        forall|i: int, j: int|
            0 <= i < j < migration_steps_spec(from_version, available).len() ==> #[trigger] migration_steps_spec(
                from_version,
                available,
            )[i] < #[trigger] migration_steps_spec(from_version, available)[j],
        forall|v: u32|
            from_version <= v && 1 <= v <= available && v < CURRENT_VERSION ==> #[trigger] migration_steps_spec(
                from_version,
                available,
            ).contains(v),
    decreases available,
{
    if available > 0 {
        let n = (available - 1) as nat;
        lemma_migration_steps_range(from_version, n);
        let rest = migration_steps_spec(from_version, n);
        let all = migration_steps_spec(from_version, available);
        if n + 1 >= from_version && n + 1 < CURRENT_VERSION {
            assert(all == rest.push((n + 1) as u32));
            assert forall|v: u32|
                from_version <= v && 1 <= v <= available && v < CURRENT_VERSION implies #[trigger] all.contains(v) by {
                if v == available {
                    assert(all[all.len() - 1] == v);
                } else {
                    assert(rest.contains(v));
                    let k = choose|k: int| 0 <= k < rest.len() && rest[k] == v;
                    assert(all[k] == v);
                }
            }
        } else {
            assert(all == rest);
        }
    }
}

} // verus!
