//! Calendar dates, months, times of day and durations, with arithmetic,
//! ordering and conversion to and from text.

pub mod date_time_tuple;
pub mod date_tuple;
pub mod date_utils;
pub mod month_tuple;
pub mod text;
pub mod time_tuple;
