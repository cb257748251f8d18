//! Log files: the templates of their names, the names themselves, and the
//! manager that decides when a file is rotated.

pub mod file_formatter;
pub mod file_manager;
pub mod file_name;
