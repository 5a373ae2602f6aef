//! Directory-browsing backend: listing construction, display formatting,
//! and the navigation state machine that drives when a listing must be
//! recomputed. Filesystem enumeration itself is supplied by the caller as
//! plain data; everything that decides, filters, orders and formats lives
//! here and is verified.

pub mod size_format;
pub mod time_format;
pub mod listing;
pub mod navigation;
pub mod session;
