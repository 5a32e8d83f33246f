use vstd::prelude::*;

verus! {

/// Hours in one simulated day; the scheduler cycles through its routine with
/// this period.
pub const NUMBER_OF_HOURS: i32 = 24;

/// Hour of the day at which infection spread, day progression and quarantine
/// detection run.
pub const ROUTINE_START_TIME: i32 = 0;

/// Hour of the day at which agents travel towards the work area.
pub const ROUTINE_TRAVEL_START_TIME: i32 = 8;

/// Hour of the day at which agents settle in the work area.
pub const ROUTINE_WORK_TIME: i32 = 9;

/// Hour of the day at which agents travel back from the work area.
pub const ROUTINE_TRAVEL_END_TIME: i32 = 17;

/// Hour of the day at which agents settle back in the housing area.
pub const ROUTINE_WORK_END_TIME: i32 = 18;

/// Hour of the day at which mortality is resolved.
pub const ROUTINE_END_TIME: i32 = 21;

/// The housing area spans the first `1 / HOUSE_AREA_RELATED_SIZE` of the
/// grid's x axis.
pub const HOUSE_AREA_RELATED_SIZE: i32 = 2;

/// Width, in extra columns, of the transport strip between housing and work.
pub const TRANSPORT_AREA_SIZE: i32 = 2;

} // verus!
