//! The housekeeping commands: listing and removing the images, volumes and
//! containers that builds leave behind.

pub mod containers;
pub mod images;
