use vstd::prelude::*;

verus! {

/// The highest schema version this build knows how to produce and read; a
/// database newer than this is refused rather than mangled.
pub const LATEST_SCHEMA_VERSION: i32 = 6;

/// A step of the schema's history: the version it brings the database to and
/// what it adds.
#[derive(Debug, Clone, Copy, PartialEq, Eq)]
pub struct MigrationStep {
    pub version: i32,
    pub description: &'static str,
}

/// What the migration to `version` adds.
pub open spec fn migration_description(version: int) -> Seq<char> {
    if version == 1 {
        "Initial schema"@
    } else if version == 2 {
        "Add calendar time blocks"@
    } else if version == 3 {
        "Add focus sessions"@
    } else if version == 4 {
        "Add saved filters, habits, habit logs, and countdowns"@
    } else if version == 5 {
        "Add habit weekly days column"@
    } else {
        "Add focus workflow metadata"@
    }
}

/// The step that brings the schema to `version`.
pub fn migration_step(version: i32) -> (r: MigrationStep)
    requires
        1 <= version <= LATEST_SCHEMA_VERSION,
    ensures
        r.version == version,
        r.description@ == migration_description(version as int),
{
    let description = if version == 1 {
        "Initial schema"
    } else if version == 2 {
        "Add calendar time blocks"
    } else if version == 3 {
        "Add focus sessions"
    } else if version == 4 {
        "Add saved filters, habits, habit logs, and countdowns"
    } else if version == 5 {
        "Add habit weekly days column"
    } else {
        "Add focus workflow metadata"
    };
    MigrationStep { version, description }
}

/// The first version a database at `current_version` still lacks.
pub open spec fn first_pending(current_version: int) -> int {
    if current_version < 0 {
        1
    } else {
        current_version + 1
    }
}

/// The versions still to apply to a database at `current_version`, in order.
pub open spec fn pending_versions(current_version: int) -> Seq<int> {
    let first = first_pending(current_version);
    let n = if first > LATEST_SCHEMA_VERSION {
        0
    } else {
        LATEST_SCHEMA_VERSION - first + 1
    };
    Seq::new(n as nat, |i: int| first + i)
}

/// The steps still to run on a database at `current_version`, in order: every
/// version above it up to the latest, each applied once.
pub fn pending_migrations(current_version: i32) -> (r: Vec<MigrationStep>)
    ensures
        r@.len() == pending_versions(current_version as int).len(),
        forall|i: int|
            0 <= i < r@.len() ==> (#[trigger] r@[i]).version == pending_versions(
                current_version as int,
            )[i] && r@[i].description@ == migration_description(r@[i].version as int),
{
    let mut steps: Vec<MigrationStep> = Vec::new();
    let mut v: i32 = 1;
    let first: i32 = if current_version < 0 {
        1
    } else if current_version >= LATEST_SCHEMA_VERSION {
        LATEST_SCHEMA_VERSION + 1
    } else {
        current_version + 1
    };
    while v <= LATEST_SCHEMA_VERSION
        invariant
            1 <= v <= LATEST_SCHEMA_VERSION + 1,
            1 <= first <= LATEST_SCHEMA_VERSION + 1,
            steps@.len() == if v <= first {
                0
            } else {
                v - first
            },
            forall|i: int|
                0 <= i < steps@.len() ==> (#[trigger] steps@[i]).version == first + i
                    && steps@[i].description@ == migration_description(steps@[i].version as int),
        decreases LATEST_SCHEMA_VERSION + 1 - v,
    {
        if v >= first {
            steps.push(migration_step(v));
        }
        v = v + 1;
    }
    steps
}

/// Migrating brings every database to the latest version, one version at a
/// time, and a migrated database has nothing left to run: the pending
/// versions climb by one to the latest, a database at the latest version has
/// none, and those of a newer database are the tail of those of an older one.
pub proof fn law_migrations_reach_latest(current_version: int, newer_version: int)
    requires
        current_version <= newer_version,
    ensures
        pending_versions(current_version).len() > 0 ==> pending_versions(current_version).last()
            == LATEST_SCHEMA_VERSION,
        forall|i: int|
            0 <= i < pending_versions(current_version).len() - 1 ==> #[trigger] pending_versions(
                current_version,
            )[i] + 1 == pending_versions(current_version)[i + 1],
        pending_versions(LATEST_SCHEMA_VERSION as int).len() == 0,
        pending_versions(newer_version) =~= pending_versions(current_version).skip(
            pending_versions(current_version).len() - pending_versions(newer_version).len(),
        ),
{
}

} // verus!
