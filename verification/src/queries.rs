//! The texts of the queries that the query worker sends to the database.
use crate::decimal::{decimal, push_decimal};
use vstd::prelude::*;
use vstd::string::StringExecFns;

verus! {

/// The query for the per-sensor averages of the last minute, read from the
/// averages that the database keeps.
pub const AVERAGES_QUERY: &'static str = "\n        select\n            sensor,\n            math::mean(value) as avg,\n            last_min_avg\n        from reading where id[0] > time::now() - 1m\n        group by sensor\n        ";

/// The part of the data query before the length of the window.
pub const DATA_QUERY_HEAD: &'static str = "\n        select\n            record::id(sensor) as sensor,\n            array::flatten(value) as values\n        from reading where id[0] > time::now() - ";

/// The part of the data query after the length of the window.
pub const DATA_QUERY_TAIL: &'static str = "m\n        group by sensor\n        ";

/// The query for the readings of the last `window_in_minutes` minutes,
/// grouped into one window per sensor, named by the sensor's id.
pub fn data_query(window_in_minutes: u32) -> (q: String)
    ensures
        q@ == DATA_QUERY_HEAD@ + decimal(window_in_minutes as nat) + DATA_QUERY_TAIL@,
{
    let mut q = String::from_str(DATA_QUERY_HEAD);
    push_decimal(&mut q, window_in_minutes as u64);
    q.append(DATA_QUERY_TAIL);
    q
}

} // verus!
