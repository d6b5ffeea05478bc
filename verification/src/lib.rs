//! Verified core of an e-paper home dashboard: text and date formatting,
//! timetable, calendar and weather blocks, response bodies, and panel
//! geometry.

pub mod text;
pub mod draw;
pub mod weather;
pub mod xml;
pub mod geometry;
pub mod departures;
pub mod calendar;
pub mod header;
pub mod dates;
pub mod conditions;
pub mod body;
