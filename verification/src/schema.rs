//! The version of the stored layout and what it takes to bring an older
//! file up to date.

use vstd::prelude::*;

verus! {

/// The version of the layout that this library works with. It grows with
/// every change of the layout.
pub const SCHEMA_VERSION: u32 = 2;

/// The version with which the indexes came.
pub const INDEX_VERSION: u32 = 2;

/// What is to be done to a file before it is used.
#[derive(Clone, Copy, Debug, PartialEq, Eq, Structural)]
pub struct MigrationPlan {
    /// Whether the indexes are to be made.
    pub create_indexes: bool,
    /// The version to write into the file, if it is to be changed.
    pub set_version: Option<u32>,
}

/// What is to be done to a file whose layout has version `current`.
pub open spec fn plan_for(current: u32) -> MigrationPlan {
    MigrationPlan {
        create_indexes: current < INDEX_VERSION,
        set_version: if current < SCHEMA_VERSION {
            Some(SCHEMA_VERSION)
        } else {
            None
        },
    }
}

/// The version of a file once `plan` was carried out on it.
pub open spec fn version_after(current: u32, plan: MigrationPlan) -> u32 {
    match plan.set_version {
        Some(v) => v,
        None => current,
    }
}

/// What is to be done to a file whose layout has version `current`: every
/// step that came after that version, and the new version written down.
/// A file that is up to date, or newer, is left alone.
pub fn plan_migrations(current: u32) -> (plan: MigrationPlan)
    ensures
        plan == plan_for(current),
{
    MigrationPlan {
        create_indexes: current < INDEX_VERSION,
        set_version: if current < SCHEMA_VERSION {
            Some(SCHEMA_VERSION)
        } else {
            None
        },
    }
}

/// Bringing a file up to date twice does no more than doing it once: after
/// the first time nothing is left to do.
pub proof fn law_migrations_are_idempotent(current: u32)
    ensures
        plan_for(version_after(current, plan_for(current))) == (MigrationPlan {
            create_indexes: false,
            set_version: None,
        }),
        version_after(current, plan_for(current)) >= current,
{
}

} // verus!
