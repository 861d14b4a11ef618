//! Directory listings in the style of `ls`: option resolution, the hidden-file
//! filter, permission strings and fixed-column long rows, each with a proved
//! contract.

pub mod listing;
pub mod options;
pub mod permissions;
pub mod report;
pub mod row;
pub mod text;
