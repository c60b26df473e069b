//! Which schema migrations to run: every version above the database's current one, in order,
//! up to the version this service supports.
use vstd::prelude::*;

verus! {

/// Schema version - increment when making schema changes.
pub const SCHEMA_VERSION: i32 = 8;

/// Why migrations cannot run.
#[derive(Debug, Clone, Copy, PartialEq, Eq, Structural)]
pub enum MigrationError {
    /// Database schema is newer than this service supports.
    SchemaNewer,
}

/// One migration to apply.
#[derive(Debug, Clone, Copy)]
pub struct MigrationStep {
    pub version: i32,
    pub description: &'static str,
}

/// What the migration to version `v` does.
pub open spec fn migration_description(v: int) -> Seq<char> {
    if v == 1 {
        "Initial schema"@
    } else if v == 2 {
        "Add HTTP-specific columns to monitors"@
    } else if v == 3 {
        "Add status pages, settings, and network tables"@
    } else if v == 4 {
        "Add public/private monitor visibility and orchestration fields"@
    } else if v == 5 {
        "Add retention_until and P2P sync columns to peer_results"@
    } else if v == 6 {
        "Add signed audit event and attestation tables"@
    } else if v == 7 {
        "Durable signed audit outbox"@
    } else {
        "Bounded peer receipts separate from operator audit ledger"@
    }
}

/// The first version to apply from `current`.
pub open spec fn first_pending(current: i32) -> int {
    if current < 1 { 1 } else { current + 1 }
}

/// The migrations to apply to a database at `current_version`: none when it is up to date,
/// an error when it is newer than this service, otherwise each version from the next one
/// up to `SCHEMA_VERSION`, in increasing order.
pub fn migration_plan(current_version: i32) -> (r: Result<Vec<MigrationStep>, MigrationError>)
    ensures
        current_version > 8 ==> r == Err::<Vec<MigrationStep>, MigrationError>(MigrationError::SchemaNewer),
        current_version <= 8 ==> (r matches Ok(steps) && steps@.len() == 9 - first_pending(current_version)
            && forall|i: int| 0 <= i < steps@.len() ==> (#[trigger] steps@[i]).version == first_pending(current_version) + i
                && steps@[i].description@ == migration_description(steps@[i].version as int)),
{
    if current_version > SCHEMA_VERSION {
        return Err(MigrationError::SchemaNewer);
    }
    let mut steps: Vec<MigrationStep> = Vec::new();
    let mut v: i32 = 1;
    while v <= SCHEMA_VERSION
        invariant
            1 <= v <= 9,
            current_version <= 8,
            steps@.len() == (if v <= first_pending(current_version) { 0 } else { v - first_pending(current_version) }),
            forall|i: int| 0 <= i < steps@.len() ==> (#[trigger] steps@[i]).version == first_pending(current_version) + i
                && steps@[i].description@ == migration_description(steps@[i].version as int),
        decreases 9 - v,
    {
        if current_version < v {
            let description = if v == 1 {
                "Initial schema"
            } else if v == 2 {
                "Add HTTP-specific columns to monitors"
            } else if v == 3 {
                "Add status pages, settings, and network tables"
            } else if v == 4 {
                "Add public/private monitor visibility and orchestration fields"
            } else if v == 5 {
                "Add retention_until and P2P sync columns to peer_results"
            } else if v == 6 {
                "Add signed audit event and attestation tables"
            } else if v == 7 {
                "Durable signed audit outbox"
            } else {
                "Bounded peer receipts separate from operator audit ledger"
            };
            steps.push(MigrationStep { version: v, description });
        }
        v = v + 1;
    }
    Ok(steps)
}

/// Applying the plan brings any supported database to `SCHEMA_VERSION`: the plan is empty
/// exactly when the database is current, and otherwise ends with `SCHEMA_VERSION`.
pub proof fn lemma_plan_reaches_current(current_version: i32, steps: Seq<MigrationStep>)
    requires
        current_version <= 8,
        steps.len() == 9 - first_pending(current_version),
        forall|i: int| 0 <= i < steps.len() ==> (#[trigger] steps[i]).version == first_pending(current_version) + i,
    ensures
        steps.len() == 0 <==> current_version == 8,
        steps.len() > 0 ==> steps[steps.len() - 1].version == 8,
        forall|i: int, j: int| 0 <= i < j < steps.len() ==> steps[i].version < steps[j].version,
{
}

} // verus!
