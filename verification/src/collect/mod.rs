//! Memory, paging and process figures, computed from what the operating
//! system reports.

pub mod meminfo;
pub mod memory;
pub mod paging;
pub mod process;
