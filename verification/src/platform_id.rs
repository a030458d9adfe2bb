//! Platform and encoding identifiers of character map subtables.

pub mod macintosh_platform_specific_id;
pub mod platform_id;
pub mod unicode_platform_specific_id;
pub mod windows_platform_specific_id;
