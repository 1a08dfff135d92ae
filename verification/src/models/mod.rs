//! The data the editor works on: points in time, work records and the store
//! that holds one day's records.

pub mod by_id;
pub mod day_data;
pub mod time_point;
pub mod work_record;
