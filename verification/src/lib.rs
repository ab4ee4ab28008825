//! Verified core of the mail backend's custom navigation link and external
//! SQL folder features.

pub mod custom_nav_link;
pub mod error;
pub mod external_folder;
pub mod external_sql;
pub mod messages;
pub mod text;
