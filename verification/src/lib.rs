//! Real-time public transit data for the greater Paris region: the verified core.
//!
//! The library joins SIRI estimated timetables with the static line and stop
//! referentials, orders the estimated calls of each journey, and holds the
//! decisions of the data store, of the central dispatch and of the browser
//! sessions that the web application runs around it.
pub mod text;
pub mod siri;
pub mod objects;
pub mod order;
pub mod referential;
pub mod join;
pub mod paris_time;
pub mod actors;
