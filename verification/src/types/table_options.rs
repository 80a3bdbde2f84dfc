//! Table options: capacity units, time-to-live, version limits.  These
//! are value objects passed through to the wire untouched; durations are
//! carried as plain seconds.

use vstd::prelude::*;
use super::common::SettableValue;

verus! {

/// Read and write capacity units reserved for a table.
#[derive(Debug, Clone, PartialEq, Eq)]
pub struct CapacityUnit {
    pub read: SettableValue<i32>,
    pub write: SettableValue<i32>,
}

/// The options a table is created or updated with.  Durations are in
/// seconds.
#[derive(Debug, Clone, PartialEq, Eq)]
pub struct TableOptions {
    pub capacity_unit: CapacityUnit,
    pub time_to_live_secs: SettableValue<i32>,
    pub max_versions: SettableValue<i32>,
    pub deviated_duration_secs: SettableValue<i64>,
}

impl TableOptions {
    /// The options a fresh table is created with: everything at the
    /// service default.
    pub fn default_for_create() -> (r: TableOptions)
        ensures
            r.capacity_unit.read == SettableValue::<i32>::Default,
            r.capacity_unit.write == SettableValue::<i32>::Default,
            r.time_to_live_secs == SettableValue::<i32>::Default,
            r.max_versions == SettableValue::<i32>::Default,
            r.deviated_duration_secs == SettableValue::<i64>::Default,
    {
        TableOptions {
            capacity_unit: CapacityUnit::default_for_create(),
            time_to_live_secs: SettableValue::Default,
            max_versions: SettableValue::Default,
            deviated_duration_secs: SettableValue::Default,
        }
    }

    /// The options an update starts from: nothing changes unless set.
    pub fn default_for_update() -> (r: TableOptions)
        ensures
            r.capacity_unit.read == SettableValue::<i32>::NoChange,
            r.capacity_unit.write == SettableValue::<i32>::NoChange,
            r.time_to_live_secs == SettableValue::<i32>::NoChange,
            r.max_versions == SettableValue::<i32>::NoChange,
            r.deviated_duration_secs == SettableValue::<i64>::NoChange,
    {
        TableOptions {
            capacity_unit: CapacityUnit::default_for_update(),
            time_to_live_secs: SettableValue::NoChange,
            max_versions: SettableValue::NoChange,
            deviated_duration_secs: SettableValue::NoChange,
        }
    }
}

impl CapacityUnit {
    /// The capacity a fresh table is created with: the service default.
    pub fn default_for_create() -> (r: CapacityUnit)
        ensures
            r.read == SettableValue::<i32>::Default,
            r.write == SettableValue::<i32>::Default,
    {
        CapacityUnit { read: SettableValue::Default, write: SettableValue::Default }
    }

    /// The capacity an update starts from: no change unless set.
    pub fn default_for_update() -> (r: CapacityUnit)
        ensures
            r.read == SettableValue::<i32>::NoChange,
            r.write == SettableValue::<i32>::NoChange,
    {
        CapacityUnit { read: SettableValue::NoChange, write: SettableValue::NoChange }
    }
}

} // verus!
