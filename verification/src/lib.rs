pub mod status;
pub mod status_map;
pub mod aggregate;
pub mod cli;
pub mod colors;
pub mod format;
pub mod entry;
pub mod sort;
