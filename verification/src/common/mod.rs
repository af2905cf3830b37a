//! Grants, their stored records, and the sudoers files made from them.

pub mod db;
pub mod models;
pub mod sudo;
pub mod templates;
